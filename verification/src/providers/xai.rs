//! xAI.
use vstd::prelude::*;
use crate::providers::compat;
use crate::providers::compat::{build_compat_provider, CompatProviderSpec, GenericCompatProvider};
use crate::providers::listing;
use crate::providers::listing::{new_chat_model, prices};
use crate::types::{Model, ModelThinkingLevel, ModelView};
use crate::views;

verus! {

broadcast use crate::views::group_views;

pub type XaiProvider = GenericCompatProvider;

/// The provider xAI.
pub fn xai_provider() -> (r: XaiProvider)
    ensures
        r@ == compat::described(
            "xai"@,
            "xAI"@,
            "https://api.x.ai/v1"@,
            "XAI_API_KEY"@,
            "xai-..."@,
            "openai-chat-completions"@,
            xai_models(),
            None,
        ),
{
    build_compat_provider(
        CompatProviderSpec {
            id: "xai",
            display_name: "xAI",
            base_url: "https://api.x.ai/v1",
            base_url_var: None,
            env_var: "XAI_API_KEY",
            key_placeholder: "xai-...",
            api_label: "openai-chat-completions",
            default_models: default_models(),
            extra_headers: None,
        },
    )
}

/// The catalogue of xAI.
pub open spec fn xai_models() -> Seq<ModelView> {
    seq![
        ModelView {
            thinking: ModelThinkingLevel::Medium,
            reasoning: true,
            cost_rates: listing::priced("3.0"@, "15.0"@),
            ..listing::chat_model(
                "xai"@,
                "openai-chat-completions"@,
                "grok-4"@,
                "Grok 4"@,
                1_048_576,
                131_072,
                1_048_576,
            )
        },
        ModelView {
            cost_rates: listing::priced("0.1"@, "0.3"@),
            ..listing::chat_model(
                "xai"@,
                "openai-chat-completions"@,
                "grok-3-mini-fast"@,
                "Grok 3 Mini Fast"@,
                128_000,
                8_192,
                128_000,
            )
        },
    ]
}

fn default_models() -> (r: Vec<Model>)
    ensures
        views::all(r@) == xai_models(),
{
    let mut models: Vec<Model> = Vec::new();
    let mut m: Model = new_chat_model(
        "xai",
        "openai-chat-completions",
        "grok-4",
        "Grok 4",
        1_048_576,
        131_072,
        1_048_576,
    );
    m.thinking = ModelThinkingLevel::Medium;
    m.reasoning = true;
    m.cost_rates = prices("3.0", "15.0");
    models.push(m);
    let mut m: Model = new_chat_model(
        "xai",
        "openai-chat-completions",
        "grok-3-mini-fast",
        "Grok 3 Mini Fast",
        128_000,
        8_192,
        128_000,
    );
    m.cost_rates = prices("0.1", "0.3");
    models.push(m);
    assert(views::all(models@) =~= xai_models());
    models
}

} // verus!
