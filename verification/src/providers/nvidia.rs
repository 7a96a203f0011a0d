//! NVIDIA NIM.
use vstd::prelude::*;
use crate::providers::compat;
use crate::providers::compat::{build_compat_provider, CompatProviderSpec, GenericCompatProvider};
use crate::providers::listing;
use crate::providers::listing::new_chat_model;
use crate::types::{Model, ModelView};
use crate::views;

verus! {

broadcast use crate::views::group_views;

pub type NvidiaProvider = GenericCompatProvider;

/// The provider NVIDIA NIM.
pub fn nvidia_provider() -> (r: NvidiaProvider)
    ensures
        r@ == compat::described(
            "nvidia"@,
            "NVIDIA NIM"@,
            "https://integrate.api.nvidia.com/v1"@,
            "NVIDIA_API_KEY"@,
            "nvapi-..."@,
            "openai-chat-completions"@,
            nvidia_models(),
            None,
        ),
{
    build_compat_provider(
        CompatProviderSpec {
            id: "nvidia",
            display_name: "NVIDIA NIM",
            base_url: "https://integrate.api.nvidia.com/v1",
            base_url_var: None,
            env_var: "NVIDIA_API_KEY",
            key_placeholder: "nvapi-...",
            api_label: "openai-chat-completions",
            default_models: default_models(),
            extra_headers: None,
        },
    )
}

/// The catalogue of NVIDIA NIM.
pub open spec fn nvidia_models() -> Seq<ModelView> {
    seq![
        listing::chat_model(
            "nvidia"@,
            "openai-chat-completions"@,
            "meta/llama-3.1-405b-instruct"@,
            "Llama 3.1 405B Instruct (NVIDIA NIM)"@,
            128_000,
            8_000,
            128_000,
        ),
        listing::chat_model(
            "nvidia"@,
            "openai-chat-completions"@,
            "mistralai/mixtral-8x22b-instruct-v0.1"@,
            "Mixtral 8x22B v0.1 (NVIDIA NIM)"@,
            64_000,
            4_096,
            64_000,
        ),
    ]
}

fn default_models() -> (r: Vec<Model>)
    ensures
        views::all(r@) == nvidia_models(),
{
    let mut models: Vec<Model> = Vec::new();
    let m: Model = new_chat_model(
        "nvidia",
        "openai-chat-completions",
        "meta/llama-3.1-405b-instruct",
        "Llama 3.1 405B Instruct (NVIDIA NIM)",
        128_000,
        8_000,
        128_000,
    );
    models.push(m);
    let m: Model = new_chat_model(
        "nvidia",
        "openai-chat-completions",
        "mistralai/mixtral-8x22b-instruct-v0.1",
        "Mixtral 8x22B v0.1 (NVIDIA NIM)",
        64_000,
        4_096,
        64_000,
    );
    models.push(m);
    assert(views::all(models@) =~= nvidia_models());
    models
}

} // verus!
