//! ZAI (Codin).
use vstd::prelude::*;
use crate::providers::compat;
use crate::providers::compat::{build_compat_provider, CompatProviderSpec, GenericCompatProvider};
use crate::providers::listing;
use crate::providers::listing::new_chat_model;
use crate::types::{Model, ModelView};
use crate::views;

verus! {

broadcast use crate::views::group_views;

pub type ZaiProvider = GenericCompatProvider;

/// The provider ZAI (Codin).
pub fn zai_provider() -> (r: ZaiProvider)
    ensures
        r@ == compat::described(
            "zai"@,
            "ZAI (Codin)"@,
            "https://api.zai.ai/v1"@,
            "ZAI_API_KEY"@,
            "zai-..."@,
            "openai-chat-completions"@,
            zai_models(),
            None,
        ),
{
    build_compat_provider(
        CompatProviderSpec {
            id: "zai",
            display_name: "ZAI (Codin)",
            base_url: "https://api.zai.ai/v1",
            base_url_var: None,
            env_var: "ZAI_API_KEY",
            key_placeholder: "zai-...",
            api_label: "openai-chat-completions",
            default_models: default_models(),
            extra_headers: None,
        },
    )
}

/// The catalogue of ZAI (Codin).
pub open spec fn zai_models() -> Seq<ModelView> {
    seq![
        listing::chat_model(
            "zai"@,
            "openai-chat-completions"@,
            "zai-codin"@,
            "ZAI Codin"@,
            128_000,
            32_768,
            128_000,
        ),
    ]
}

fn default_models() -> (r: Vec<Model>)
    ensures
        views::all(r@) == zai_models(),
{
    let mut models: Vec<Model> = Vec::new();
    let m: Model = new_chat_model(
        "zai",
        "openai-chat-completions",
        "zai-codin",
        "ZAI Codin",
        128_000,
        32_768,
        128_000,
    );
    models.push(m);
    assert(views::all(models@) =~= zai_models());
    models
}

} // verus!
