//! Cloudflare AI Gateway.
use vstd::prelude::*;
use crate::providers::compat;
use crate::providers::compat::{build_compat_provider, CompatProviderSpec, GenericCompatProvider};
use crate::providers::listing;
use crate::providers::listing::new_chat_model;
use crate::types::{Model, ModelView};
use crate::views;

verus! {

broadcast use crate::views::group_views;

pub type CloudflareAiGatewayProvider = GenericCompatProvider;

/// The provider Cloudflare AI Gateway.
pub fn cloudflare_ai_gateway_provider() -> (r: CloudflareAiGatewayProvider)
    ensures
        r@ == compat::described(
            "cloudflare-ai-gateway"@,
            "Cloudflare AI Gateway"@,
            "https://gateway.ai.cloudflare.com/v1"@,
            "CLOUDFLARE_API_KEY"@,
            "..."@,
            "openai-chat-completions"@,
            cloudflare_ai_gateway_models(),
            None,
        ),
{
    build_compat_provider(
        CompatProviderSpec {
            id: "cloudflare-ai-gateway",
            display_name: "Cloudflare AI Gateway",
            base_url: "https://gateway.ai.cloudflare.com/v1",
            base_url_var: None,
            env_var: "CLOUDFLARE_API_KEY",
            key_placeholder: "...",
            api_label: "openai-chat-completions",
            default_models: default_models(),
            extra_headers: None,
        },
    )
}

/// The catalogue of Cloudflare AI Gateway.
pub open spec fn cloudflare_ai_gateway_models() -> Seq<ModelView> {
    seq![
        listing::chat_model(
            "cloudflare-ai-gateway"@,
            "openai-chat-completions"@,
            "@cf/meta/llama-3.1-8b-instruct"@,
            "Llama 3.1 8B Instruct (Cloudflare Workers AI via Gateway)"@,
            32_000,
            4_096,
            32_000,
        ),
    ]
}

fn default_models() -> (r: Vec<Model>)
    ensures
        views::all(r@) == cloudflare_ai_gateway_models(),
{
    let mut models: Vec<Model> = Vec::new();
    let m: Model = new_chat_model(
        "cloudflare-ai-gateway",
        "openai-chat-completions",
        "@cf/meta/llama-3.1-8b-instruct",
        "Llama 3.1 8B Instruct (Cloudflare Workers AI via Gateway)",
        32_000,
        4_096,
        32_000,
    );
    models.push(m);
    assert(views::all(models@) =~= cloudflare_ai_gateway_models());
    models
}

} // verus!
