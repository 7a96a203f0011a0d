//! Baseten.
use vstd::prelude::*;
use crate::providers::compat;
use crate::providers::compat::{build_compat_provider, CompatProviderSpec, GenericCompatProvider};
use crate::providers::listing;
use crate::providers::listing::new_chat_model;
use crate::types::{Model, ModelView};
use crate::views;

verus! {

broadcast use crate::views::group_views;

pub type BasetenProvider = GenericCompatProvider;

/// The provider Baseten.
pub fn baseten_provider() -> (r: BasetenProvider)
    ensures
        r@ == compat::described(
            "baseten"@,
            "Baseten"@,
            "https://api.baseten.co/v1"@,
            "BASETEN_API_KEY"@,
            "b-..."@,
            "openai-chat-completions"@,
            baseten_models(),
            None,
        ),
{
    build_compat_provider(
        CompatProviderSpec {
            id: "baseten",
            display_name: "Baseten",
            base_url: "https://api.baseten.co/v1",
            base_url_var: None,
            env_var: "BASETEN_API_KEY",
            key_placeholder: "b-...",
            api_label: "openai-chat-completions",
            default_models: default_models(),
            extra_headers: None,
        },
    )
}

/// The catalogue of Baseten.
pub open spec fn baseten_models() -> Seq<ModelView> {
    seq![
        listing::chat_model(
            "baseten"@,
            "openai-chat-completions"@,
            "deepseek-v3"@,
            "DeepSeek V3 (Baseten)"@,
            64_000,
            8_192,
            64_000,
        ),
        listing::chat_model(
            "baseten"@,
            "openai-chat-completions"@,
            "llama-3.1-405b-instruct"@,
            "Llama 3.1 405B Instruct (Baseten)"@,
            128_000,
            16_384,
            128_000,
        ),
    ]
}

fn default_models() -> (r: Vec<Model>)
    ensures
        views::all(r@) == baseten_models(),
{
    let mut models: Vec<Model> = Vec::new();
    let m: Model = new_chat_model(
        "baseten",
        "openai-chat-completions",
        "deepseek-v3",
        "DeepSeek V3 (Baseten)",
        64_000,
        8_192,
        64_000,
    );
    models.push(m);
    let m: Model = new_chat_model(
        "baseten",
        "openai-chat-completions",
        "llama-3.1-405b-instruct",
        "Llama 3.1 405B Instruct (Baseten)",
        128_000,
        16_384,
        128_000,
    );
    models.push(m);
    assert(views::all(models@) =~= baseten_models());
    models
}

} // verus!
