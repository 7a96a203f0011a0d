//! Vercel AI Gateway.
use vstd::prelude::*;
use crate::dict;
use crate::dict::Dict;
use crate::providers::compat;
use crate::providers::compat::{build_compat_provider, CompatProviderSpec, GenericCompatProvider};
use crate::providers::listing;
use crate::providers::listing::new_chat_model;
use crate::types::{Model, ModelView};
use crate::views;

verus! {

broadcast use crate::views::group_views;

pub type VercelAiGatewayProvider = GenericCompatProvider;

/// The headers of every request.
pub open spec fn headers() -> Map<Seq<char>, Seq<char>> {
    Map::<Seq<char>, Seq<char>>::empty().insert(
        "x-vercel-ai-gateway"@,
        "1"@,
    )
}

/// The provider Vercel AI Gateway.
pub fn vercel_ai_gateway_provider() -> (r: VercelAiGatewayProvider)
    ensures
        r@ == compat::described(
            "vercel-ai-gateway"@,
            "Vercel AI Gateway"@,
            "https://ai-gateway.vercel.dev/api/v1"@,
            "AI_GATEWAY_API_KEY"@,
            "vai_..."@,
            "openai-chat-completions"@,
            vercel_ai_gateway_models(),
            Some(headers()),
        ),
{
    let mut extra: Dict<String> = Dict::new();
    extra.insert("x-vercel-ai-gateway", "1".to_owned());
    assert(dict::texts(extra@) =~= headers());
    build_compat_provider(
        CompatProviderSpec {
            id: "vercel-ai-gateway",
            display_name: "Vercel AI Gateway",
            base_url: "https://ai-gateway.vercel.dev/api/v1",
            base_url_var: None,
            env_var: "AI_GATEWAY_API_KEY",
            key_placeholder: "vai_...",
            api_label: "openai-chat-completions",
            default_models: default_models(),
            extra_headers: Some(extra),
        },
    )
}

/// The catalogue of Vercel AI Gateway.
pub open spec fn vercel_ai_gateway_models() -> Seq<ModelView> {
    seq![
        ModelView {
            supports_images: true,
            ..listing::chat_model(
                "vercel-ai-gateway"@,
                "openai-chat-completions"@,
                "gpt-4o-mini"@,
                "GPT-4o Mini (via Vercel AI Gateway)"@,
                128_000,
                16_384,
                128_000,
            )
        },
    ]
}

fn default_models() -> (r: Vec<Model>)
    ensures
        views::all(r@) == vercel_ai_gateway_models(),
{
    let mut models: Vec<Model> = Vec::new();
    let mut m: Model = new_chat_model(
        "vercel-ai-gateway",
        "openai-chat-completions",
        "gpt-4o-mini",
        "GPT-4o Mini (via Vercel AI Gateway)",
        128_000,
        16_384,
        128_000,
    );
    m.supports_images = true;
    models.push(m);
    assert(views::all(models@) =~= vercel_ai_gateway_models());
    models
}

/// Every request says that it is for the gateway, and adds nothing else.
pub proof fn law_requests_name_the_gateway(other: Seq<char>)
    requires
        other != "x-vercel-ai-gateway"@,
    ensures
        headers().contains_key("x-vercel-ai-gateway"@),
        headers()["x-vercel-ai-gateway"@] == "1"@,
        !headers().contains_key(other),
{
}

} // verus!
