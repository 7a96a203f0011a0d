//! Ant Ling.
use vstd::prelude::*;
use crate::providers::compat;
use crate::providers::compat::{build_compat_provider, CompatProviderSpec, GenericCompatProvider};
use crate::providers::listing;
use crate::providers::listing::new_chat_model;
use crate::types::{Model, ModelView};
use crate::views;

verus! {

broadcast use crate::views::group_views;

pub type AntLingProvider = GenericCompatProvider;

/// The provider Ant Ling.
pub fn ant_ling_provider() -> (r: AntLingProvider)
    ensures
        r@ == compat::described(
            "ant-ling"@,
            "Ant Ling"@,
            "https://api.antling.ai/v1"@,
            "ANT_LING_API_KEY"@,
            "al-..."@,
            "openai-chat-completions"@,
            ant_ling_models(),
            None,
        ),
{
    build_compat_provider(
        CompatProviderSpec {
            id: "ant-ling",
            display_name: "Ant Ling",
            base_url: "https://api.antling.ai/v1",
            base_url_var: None,
            env_var: "ANT_LING_API_KEY",
            key_placeholder: "al-...",
            api_label: "openai-chat-completions",
            default_models: default_models(),
            extra_headers: None,
        },
    )
}

/// The catalogue of Ant Ling.
pub open spec fn ant_ling_models() -> Seq<ModelView> {
    seq![
        listing::chat_model(
            "ant-ling"@,
            "openai-chat-completions"@,
            "ant-ling-coding"@,
            "Ant Ling Coding"@,
            128_000,
            32_768,
            128_000,
        ),
    ]
}

fn default_models() -> (r: Vec<Model>)
    ensures
        views::all(r@) == ant_ling_models(),
{
    let mut models: Vec<Model> = Vec::new();
    let m: Model = new_chat_model(
        "ant-ling",
        "openai-chat-completions",
        "ant-ling-coding",
        "Ant Ling Coding",
        128_000,
        32_768,
        128_000,
    );
    models.push(m);
    assert(views::all(models@) =~= ant_ling_models());
    models
}

} // verus!
