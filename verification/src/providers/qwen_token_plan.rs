//! Qwen Token Plan.
use vstd::prelude::*;
use crate::providers::compat;
use crate::providers::compat::{build_compat_provider, CompatProviderSpec, GenericCompatProvider};
use crate::providers::listing;
use crate::providers::listing::new_chat_model;
use crate::types::{Model, ModelView};
use crate::views;

verus! {

broadcast use crate::views::group_views;

pub type QwenTokenPlanProvider = GenericCompatProvider;

/// The provider Qwen Token Plan.
pub fn qwen_token_plan_provider() -> (r: QwenTokenPlanProvider)
    ensures
        r@ == compat::described(
            "qwen-token-plan"@,
            "Qwen Token Plan"@,
            "https://api.qwen.ai/v1"@,
            "QWEN_TOKEN_PLAN_API_KEY"@,
            "qwen-..."@,
            "openai-chat-completions"@,
            qwen_token_plan_models(),
            None,
        ),
{
    build_compat_provider(
        CompatProviderSpec {
            id: "qwen-token-plan",
            display_name: "Qwen Token Plan",
            base_url: "https://api.qwen.ai/v1",
            base_url_var: None,
            env_var: "QWEN_TOKEN_PLAN_API_KEY",
            key_placeholder: "qwen-...",
            api_label: "openai-chat-completions",
            default_models: default_models(),
            extra_headers: None,
        },
    )
}

/// The catalogue of Qwen Token Plan.
pub open spec fn qwen_token_plan_models() -> Seq<ModelView> {
    seq![
        listing::chat_model(
            "qwen-token-plan"@,
            "openai-chat-completions"@,
            "qwen-coder-plus"@,
            "Qwen Coder Plus"@,
            128_000,
            8_192,
            128_000,
        ),
        ModelView {
            supports_images: true,
            ..listing::chat_model(
                "qwen-token-plan"@,
                "openai-chat-completions"@,
                "qwen-max"@,
                "Qwen Max"@,
                128_000,
                8_192,
                128_000,
            )
        },
        listing::chat_model(
            "qwen-token-plan"@,
            "openai-chat-completions"@,
            "qwen-turbo"@,
            "Qwen Turbo"@,
            128_000,
            8_192,
            128_000,
        ),
    ]
}

fn default_models() -> (r: Vec<Model>)
    ensures
        views::all(r@) == qwen_token_plan_models(),
{
    let mut models: Vec<Model> = Vec::new();
    let m: Model = new_chat_model(
        "qwen-token-plan",
        "openai-chat-completions",
        "qwen-coder-plus",
        "Qwen Coder Plus",
        128_000,
        8_192,
        128_000,
    );
    models.push(m);
    let mut m: Model = new_chat_model(
        "qwen-token-plan",
        "openai-chat-completions",
        "qwen-max",
        "Qwen Max",
        128_000,
        8_192,
        128_000,
    );
    m.supports_images = true;
    models.push(m);
    let m: Model = new_chat_model(
        "qwen-token-plan",
        "openai-chat-completions",
        "qwen-turbo",
        "Qwen Turbo",
        128_000,
        8_192,
        128_000,
    );
    models.push(m);
    assert(views::all(models@) =~= qwen_token_plan_models());
    models
}

} // verus!
