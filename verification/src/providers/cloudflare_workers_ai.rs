//! Cloudflare Workers AI.
use vstd::prelude::*;
use crate::providers::compat;
use crate::providers::compat::{build_compat_provider, CompatProviderSpec, GenericCompatProvider};
use crate::providers::listing;
use crate::providers::listing::new_chat_model;
use crate::types::{Model, ModelView};
use crate::views;

verus! {

broadcast use crate::views::group_views;

pub type CloudflareWorkersAiProvider = GenericCompatProvider;

/// The provider Cloudflare Workers AI.
pub fn cloudflare_workers_ai_provider() -> (r: CloudflareWorkersAiProvider)
    ensures
        r@ == compat::described(
            "cloudflare-workers-ai"@,
            "Cloudflare Workers AI"@,
            "https://api.cloudflare.com/client/v4/accounts/ACCOUNT_ID/ai/v1"@,
            "CLOUDFLARE_API_KEY"@,
            "..."@,
            "openai-chat-completions"@,
            cloudflare_workers_ai_models(),
            None,
        ),
{
    build_compat_provider(
        CompatProviderSpec {
            id: "cloudflare-workers-ai",
            display_name: "Cloudflare Workers AI",
            base_url: "https://api.cloudflare.com/client/v4/accounts/ACCOUNT_ID/ai/v1",
            base_url_var: None,
            env_var: "CLOUDFLARE_API_KEY",
            key_placeholder: "...",
            api_label: "openai-chat-completions",
            default_models: default_models(),
            extra_headers: None,
        },
    )
}

/// The catalogue of Cloudflare Workers AI.
pub open spec fn cloudflare_workers_ai_models() -> Seq<ModelView> {
    seq![
        listing::chat_model(
            "cloudflare-workers-ai"@,
            "openai-chat-completions"@,
            "@cf/meta/llama-3.1-8b-instruct"@,
            "Llama 3.1 8B Instruct (Workers AI)"@,
            32_000,
            4_096,
            32_000,
        ),
        listing::chat_model(
            "cloudflare-workers-ai"@,
            "openai-chat-completions"@,
            "@cf/qwen/qwen1.5-14b-chat-awq"@,
            "Qwen 1.5 14B Chat AWQ (Workers AI)"@,
            32_000,
            4_096,
            32_000,
        ),
    ]
}

fn default_models() -> (r: Vec<Model>)
    ensures
        views::all(r@) == cloudflare_workers_ai_models(),
{
    let mut models: Vec<Model> = Vec::new();
    let m: Model = new_chat_model(
        "cloudflare-workers-ai",
        "openai-chat-completions",
        "@cf/meta/llama-3.1-8b-instruct",
        "Llama 3.1 8B Instruct (Workers AI)",
        32_000,
        4_096,
        32_000,
    );
    models.push(m);
    let m: Model = new_chat_model(
        "cloudflare-workers-ai",
        "openai-chat-completions",
        "@cf/qwen/qwen1.5-14b-chat-awq",
        "Qwen 1.5 14B Chat AWQ (Workers AI)",
        32_000,
        4_096,
        32_000,
    );
    models.push(m);
    assert(views::all(models@) =~= cloudflare_workers_ai_models());
    models
}

} // verus!
