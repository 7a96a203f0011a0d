//! Cerebras.
use vstd::prelude::*;
use crate::providers::compat;
use crate::providers::compat::{build_compat_provider, CompatProviderSpec, GenericCompatProvider};
use crate::providers::listing;
use crate::providers::listing::new_chat_model;
use crate::types::{Model, ModelView};
use crate::views;

verus! {

broadcast use crate::views::group_views;

pub type CerebrasProvider = GenericCompatProvider;

/// The provider Cerebras.
pub fn cerebras_provider() -> (r: CerebrasProvider)
    ensures
        r@ == compat::described(
            "cerebras"@,
            "Cerebras"@,
            "https://api.cerebras.ai/v1"@,
            "CEREBRAS_API_KEY"@,
            "sk-cerebras-..."@,
            "openai-chat-completions"@,
            cerebras_models(),
            None,
        ),
{
    build_compat_provider(
        CompatProviderSpec {
            id: "cerebras",
            display_name: "Cerebras",
            base_url: "https://api.cerebras.ai/v1",
            base_url_var: None,
            env_var: "CEREBRAS_API_KEY",
            key_placeholder: "sk-cerebras-...",
            api_label: "openai-chat-completions",
            default_models: default_models(),
            extra_headers: None,
        },
    )
}

/// The catalogue of Cerebras.
pub open spec fn cerebras_models() -> Seq<ModelView> {
    seq![
        listing::chat_model(
            "cerebras"@,
            "openai-chat-completions"@,
            "llama3.1-8b"@,
            "Llama 3.1 8B (Cerebras)"@,
            8_000,
            8_000,
            8_000,
        ),
        listing::chat_model(
            "cerebras"@,
            "openai-chat-completions"@,
            "llama3.1-70b"@,
            "Llama 3.1 70B (Cerebras)"@,
            8_000,
            8_000,
            8_000,
        ),
    ]
}

fn default_models() -> (r: Vec<Model>)
    ensures
        views::all(r@) == cerebras_models(),
{
    let mut models: Vec<Model> = Vec::new();
    let m: Model = new_chat_model(
        "cerebras",
        "openai-chat-completions",
        "llama3.1-8b",
        "Llama 3.1 8B (Cerebras)",
        8_000,
        8_000,
        8_000,
    );
    models.push(m);
    let m: Model = new_chat_model(
        "cerebras",
        "openai-chat-completions",
        "llama3.1-70b",
        "Llama 3.1 70B (Cerebras)",
        8_000,
        8_000,
        8_000,
    );
    models.push(m);
    assert(views::all(models@) =~= cerebras_models());
    models
}

} // verus!
