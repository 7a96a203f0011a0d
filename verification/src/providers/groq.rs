//! Groq.
use vstd::prelude::*;
use crate::providers::compat;
use crate::providers::compat::{build_compat_provider, CompatProviderSpec, GenericCompatProvider};
use crate::providers::listing;
use crate::providers::listing::{new_chat_model, prices};
use crate::types::{Model, ModelView};
use crate::views;

verus! {

broadcast use crate::views::group_views;

pub type GroqProvider = GenericCompatProvider;

/// The provider Groq.
pub fn groq_provider() -> (r: GroqProvider)
    ensures
        r@ == compat::described(
            "groq"@,
            "Groq"@,
            "https://api.groq.com/openai/v1"@,
            "GROQ_API_KEY"@,
            "gsk_..."@,
            "openai-chat-completions"@,
            groq_models(),
            None,
        ),
{
    build_compat_provider(
        CompatProviderSpec {
            id: "groq",
            display_name: "Groq",
            base_url: "https://api.groq.com/openai/v1",
            base_url_var: None,
            env_var: "GROQ_API_KEY",
            key_placeholder: "gsk_...",
            api_label: "openai-chat-completions",
            default_models: default_models(),
            extra_headers: None,
        },
    )
}

/// The catalogue of Groq.
pub open spec fn groq_models() -> Seq<ModelView> {
    seq![
        ModelView {
            cost_rates: listing::priced("0.59"@, "0.79"@),
            ..listing::chat_model(
                "groq"@,
                "openai-chat-completions"@,
                "llama-3.3-70b-versatile"@,
                "Llama 3.3 70B (Groq)"@,
                128_000,
                32_768,
                128_000,
            )
        },
        ModelView {
            cost_rates: listing::priced("0.04"@, "0.06"@),
            ..listing::chat_model(
                "groq"@,
                "openai-chat-completions"@,
                "llama-3.1-8b-instant"@,
                "Llama 3.1 8B Instant (Groq)"@,
                128_000,
                8_000,
                128_000,
            )
        },
        ModelView {
            cost_rates: listing::priced("0.24"@, "0.24"@),
            ..listing::chat_model(
                "groq"@,
                "openai-chat-completions"@,
                "mixtral-8x7b-32768"@,
                "Mixtral 8x7B 32K (Groq)"@,
                32_768,
                4_096,
                32_768,
            )
        },
    ]
}

fn default_models() -> (r: Vec<Model>)
    ensures
        views::all(r@) == groq_models(),
{
    let mut models: Vec<Model> = Vec::new();
    let mut m: Model = new_chat_model(
        "groq",
        "openai-chat-completions",
        "llama-3.3-70b-versatile",
        "Llama 3.3 70B (Groq)",
        128_000,
        32_768,
        128_000,
    );
    m.cost_rates = prices("0.59", "0.79");
    models.push(m);
    let mut m: Model = new_chat_model(
        "groq",
        "openai-chat-completions",
        "llama-3.1-8b-instant",
        "Llama 3.1 8B Instant (Groq)",
        128_000,
        8_000,
        128_000,
    );
    m.cost_rates = prices("0.04", "0.06");
    models.push(m);
    let mut m: Model = new_chat_model(
        "groq",
        "openai-chat-completions",
        "mixtral-8x7b-32768",
        "Mixtral 8x7B 32K (Groq)",
        32_768,
        4_096,
        32_768,
    );
    m.cost_rates = prices("0.24", "0.24");
    models.push(m);
    assert(views::all(models@) =~= groq_models());
    models
}

} // verus!
