//! Fireworks AI.
use vstd::prelude::*;
use crate::providers::compat;
use crate::providers::compat::{build_compat_provider, CompatProviderSpec, GenericCompatProvider};
use crate::providers::listing;
use crate::providers::listing::{new_chat_model, prices};
use crate::types::{Model, ModelView};
use crate::views;

verus! {

broadcast use crate::views::group_views;

pub type FireworksProvider = GenericCompatProvider;

/// The provider Fireworks AI.
pub fn fireworks_provider() -> (r: FireworksProvider)
    ensures
        r@ == compat::described(
            "fireworks"@,
            "Fireworks AI"@,
            "https://api.fireworks.ai/inference/v1"@,
            "FIREWORKS_API_KEY"@,
            "fw-..."@,
            "openai-chat-completions"@,
            fireworks_models(),
            None,
        ),
{
    build_compat_provider(
        CompatProviderSpec {
            id: "fireworks",
            display_name: "Fireworks AI",
            base_url: "https://api.fireworks.ai/inference/v1",
            base_url_var: None,
            env_var: "FIREWORKS_API_KEY",
            key_placeholder: "fw-...",
            api_label: "openai-chat-completions",
            default_models: default_models(),
            extra_headers: None,
        },
    )
}

/// The catalogue of Fireworks AI.
pub open spec fn fireworks_models() -> Seq<ModelView> {
    seq![
        ModelView {
            cost_rates: listing::priced("3.0"@, "3.0"@),
            ..listing::chat_model(
                "fireworks"@,
                "openai-chat-completions"@,
                "accounts/fireworks/models/llama-v3p1-405b-instruct"@,
                "Llama 3.1 405B Instruct (Fireworks)"@,
                128_000,
                16_384,
                128_000,
            )
        },
        ModelView {
            cost_rates: listing::priced("0.9"@, "0.9"@),
            ..listing::chat_model(
                "fireworks"@,
                "openai-chat-completions"@,
                "accounts/fireworks/models/llama-v3p1-70b-instruct"@,
                "Llama 3.1 70B Instruct (Fireworks)"@,
                128_000,
                8_192,
                128_000,
            )
        },
        listing::chat_model(
            "fireworks"@,
            "openai-chat-completions"@,
            "accounts/fireworks/models/deepseek-v3"@,
            "DeepSeek V3 (Fireworks)"@,
            64_000,
            8_192,
            64_000,
        ),
    ]
}

fn default_models() -> (r: Vec<Model>)
    ensures
        views::all(r@) == fireworks_models(),
{
    let mut models: Vec<Model> = Vec::new();
    let mut m: Model = new_chat_model(
        "fireworks",
        "openai-chat-completions",
        "accounts/fireworks/models/llama-v3p1-405b-instruct",
        "Llama 3.1 405B Instruct (Fireworks)",
        128_000,
        16_384,
        128_000,
    );
    m.cost_rates = prices("3.0", "3.0");
    models.push(m);
    let mut m: Model = new_chat_model(
        "fireworks",
        "openai-chat-completions",
        "accounts/fireworks/models/llama-v3p1-70b-instruct",
        "Llama 3.1 70B Instruct (Fireworks)",
        128_000,
        8_192,
        128_000,
    );
    m.cost_rates = prices("0.9", "0.9");
    models.push(m);
    let m: Model = new_chat_model(
        "fireworks",
        "openai-chat-completions",
        "accounts/fireworks/models/deepseek-v3",
        "DeepSeek V3 (Fireworks)",
        64_000,
        8_192,
        64_000,
    );
    models.push(m);
    assert(views::all(models@) =~= fireworks_models());
    models
}

} // verus!
