//! DeepSeek.
use vstd::prelude::*;
use crate::providers::compat;
use crate::providers::compat::{build_compat_provider, CompatProviderSpec, GenericCompatProvider};
use crate::providers::listing;
use crate::providers::listing::{new_chat_model, prices};
use crate::types::{Model, ModelThinkingLevel, ModelView};
use crate::views;

verus! {

broadcast use crate::views::group_views;

pub type DeepSeekProvider = GenericCompatProvider;

/// The provider DeepSeek.
pub fn deepseek_provider() -> (r: DeepSeekProvider)
    ensures
        r@ == compat::described(
            "deepseek"@,
            "DeepSeek"@,
            "https://api.deepseek.com/v1"@,
            "DEEPSEEK_API_KEY"@,
            "sk-..."@,
            "openai-chat-completions"@,
            deepseek_models(),
            None,
        ),
{
    build_compat_provider(
        CompatProviderSpec {
            id: "deepseek",
            display_name: "DeepSeek",
            base_url: "https://api.deepseek.com/v1",
            base_url_var: None,
            env_var: "DEEPSEEK_API_KEY",
            key_placeholder: "sk-...",
            api_label: "openai-chat-completions",
            default_models: default_models(),
            extra_headers: None,
        },
    )
}

/// The catalogue of DeepSeek.
pub open spec fn deepseek_models() -> Seq<ModelView> {
    seq![
        ModelView {
            cost_rates: listing::priced("0.14"@, "0.28"@),
            ..listing::chat_model(
                "deepseek"@,
                "openai-chat-completions"@,
                "deepseek-chat"@,
                "DeepSeek V3 Chat"@,
                64_000,
                8_000,
                64_000,
            )
        },
        ModelView {
            supports_structured_output: false,
            thinking: ModelThinkingLevel::High,
            reasoning: true,
            cost_rates: listing::priced("0.55"@, "2.19"@),
            ..listing::chat_model(
                "deepseek"@,
                "openai-chat-completions"@,
                "deepseek-reasoner"@,
                "DeepSeek R1 Reasoner"@,
                64_000,
                8_000,
                64_000,
            )
        },
    ]
}

fn default_models() -> (r: Vec<Model>)
    ensures
        views::all(r@) == deepseek_models(),
{
    let mut models: Vec<Model> = Vec::new();
    let mut m: Model = new_chat_model(
        "deepseek",
        "openai-chat-completions",
        "deepseek-chat",
        "DeepSeek V3 Chat",
        64_000,
        8_000,
        64_000,
    );
    m.cost_rates = prices("0.14", "0.28");
    models.push(m);
    let mut m: Model = new_chat_model(
        "deepseek",
        "openai-chat-completions",
        "deepseek-reasoner",
        "DeepSeek R1 Reasoner",
        64_000,
        8_000,
        64_000,
    );
    m.supports_structured_output = false;
    m.thinking = ModelThinkingLevel::High;
    m.reasoning = true;
    m.cost_rates = prices("0.55", "2.19");
    models.push(m);
    assert(views::all(models@) =~= deepseek_models());
    models
}

} // verus!
