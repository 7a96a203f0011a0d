//! Moonshot AI (Kimi).
use vstd::prelude::*;
use crate::providers::compat;
use crate::providers::compat::{build_compat_provider, CompatProviderSpec, GenericCompatProvider};
use crate::providers::listing;
use crate::providers::listing::new_chat_model;
use crate::types::{Model, ModelView};
use crate::views;

verus! {

broadcast use crate::views::group_views;

pub type MoonshotProvider = GenericCompatProvider;

/// The provider Moonshot AI (Kimi).
pub fn moonshot_provider() -> (r: MoonshotProvider)
    ensures
        r@ == compat::reached_by(
            compat::described(
                "moonshot"@,
                "Moonshot AI (Kimi)"@,
                "https://api.moonshot.cn/v1"@,
                "MOONSHOT_API_KEY"@,
                "sk-..."@,
                "openai-chat-completions"@,
                moonshot_models(),
                None,
            ),
            "MOONSHOT_BASE_URL"@,
        ),
{
    build_compat_provider(
        CompatProviderSpec {
            id: "moonshot",
            display_name: "Moonshot AI (Kimi)",
            base_url: "https://api.moonshot.cn/v1",
            base_url_var: Some("MOONSHOT_BASE_URL"),
            env_var: "MOONSHOT_API_KEY",
            key_placeholder: "sk-...",
            api_label: "openai-chat-completions",
            default_models: default_models(),
            extra_headers: None,
        },
    )
}

/// The catalogue of Moonshot AI (Kimi).
pub open spec fn moonshot_models() -> Seq<ModelView> {
    seq![
        listing::chat_model(
            "moonshot"@,
            "openai-chat-completions"@,
            "kimi-k3"@,
            "Kimi K3"@,
            256_000,
            8_192,
            256_000,
        ),
        listing::chat_model(
            "moonshot"@,
            "openai-chat-completions"@,
            "moonshot-v1-128k"@,
            "Moonshot V1 128K"@,
            128_000,
            8_192,
            128_000,
        ),
        listing::chat_model(
            "moonshot"@,
            "openai-chat-completions"@,
            "moonshot-v1-32k"@,
            "Moonshot V1 32K"@,
            32_000,
            8_192,
            32_000,
        ),
    ]
}

fn default_models() -> (r: Vec<Model>)
    ensures
        views::all(r@) == moonshot_models(),
{
    let mut models: Vec<Model> = Vec::new();
    let m: Model = new_chat_model(
        "moonshot",
        "openai-chat-completions",
        "kimi-k3",
        "Kimi K3",
        256_000,
        8_192,
        256_000,
    );
    models.push(m);
    let m: Model = new_chat_model(
        "moonshot",
        "openai-chat-completions",
        "moonshot-v1-128k",
        "Moonshot V1 128K",
        128_000,
        8_192,
        128_000,
    );
    models.push(m);
    let m: Model = new_chat_model(
        "moonshot",
        "openai-chat-completions",
        "moonshot-v1-32k",
        "Moonshot V1 32K",
        32_000,
        8_192,
        32_000,
    );
    models.push(m);
    assert(views::all(models@) =~= moonshot_models());
    models
}

} // verus!
