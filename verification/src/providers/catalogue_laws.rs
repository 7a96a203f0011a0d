//! What holds of every catalogue.
use vstd::prelude::*;
use crate::providers::ant_ling;
use crate::providers::anthropic;
use crate::providers::azure;
use crate::providers::baseten;
use crate::providers::bedrock;
use crate::providers::cerebras;
use crate::providers::chatgpt_plus;
use crate::providers::claude_pro_max;
use crate::providers::cloudflare_ai_gateway;
use crate::providers::cloudflare_workers_ai;
use crate::providers::deepseek;
use crate::providers::fireworks;
use crate::providers::github_copilot;
use crate::providers::google;
use crate::providers::google_vertex;
use crate::providers::groq;
use crate::providers::listing::MakerView;
use crate::providers::mistral;
use crate::providers::moonshot;
use crate::providers::nvidia;
use crate::providers::openai;
use crate::providers::openrouter;
use crate::providers::openrouter_oauth;
use crate::providers::qwen_token_plan;
use crate::providers::radius;
use crate::providers::vercel_ai_gateway;
use crate::providers::xai;
use crate::providers::xai_subscription;
use crate::providers::zai;
use crate::types::ModelView;

verus! {

/// Whether models are a catalogue of a provider: there are some, each of them is of the provider
/// and speaks its protocol, and none says more than its window holds.
pub open spec fn is_catalogue(models: Seq<ModelView>, provider: Seq<char>, api: Seq<char>) -> bool {
    &&& models.len() > 0
    &&& forall|i: int|
        0 <= i < models.len() ==> {
            let m = #[trigger] models[i];
            &&& m.provider_id == provider
            &&& m.api == api
            &&& m.max_output_tokens is Some
            &&& m.context_window is Some
            &&& m.max_output_tokens->0 <= m.context_window->0
        }
}

/// Every catalogue holds models of its own provider and of its protocol alone.
pub proof fn law_models_are_of_their_provider()
    ensures
        is_catalogue(ant_ling::ant_ling_models(), "ant-ling"@, "openai-chat-completions"@),
        is_catalogue(azure::azure_models(), "azure-openai-responses"@, "azure-openai-responses"@),
        is_catalogue(baseten::baseten_models(), "baseten"@, "openai-chat-completions"@),
        is_catalogue(cerebras::cerebras_models(), "cerebras"@, "openai-chat-completions"@),
        is_catalogue(chatgpt_plus::chatgpt_plus_models(), "chatgpt-plus"@, "openai-codex-responses"@),
        is_catalogue(cloudflare_ai_gateway::cloudflare_ai_gateway_models(), "cloudflare-ai-gateway"@, "openai-chat-completions"@),
        is_catalogue(cloudflare_workers_ai::cloudflare_workers_ai_models(), "cloudflare-workers-ai"@, "openai-chat-completions"@),
        is_catalogue(deepseek::deepseek_models(), "deepseek"@, "openai-chat-completions"@),
        is_catalogue(fireworks::fireworks_models(), "fireworks"@, "openai-chat-completions"@),
        is_catalogue(google::google_models(), "google"@, "google-generative-ai"@),
        is_catalogue(google_vertex::google_vertex_models(), "google-vertex"@, "google-vertex-ai"@),
        is_catalogue(groq::groq_models(), "groq"@, "openai-chat-completions"@),
        is_catalogue(mistral::mistral_models(), "mistral"@, "mistral-conversations"@),
        is_catalogue(moonshot::moonshot_models(), "moonshot"@, "openai-chat-completions"@),
        is_catalogue(nvidia::nvidia_models(), "nvidia"@, "openai-chat-completions"@),
        is_catalogue(openai::openai_models(), "openai"@, "openai-chat-completions"@),
        is_catalogue(qwen_token_plan::qwen_token_plan_models(), "qwen-token-plan"@, "openai-chat-completions"@),
        is_catalogue(radius::radius_models(), "radius"@, "pi-messages"@),
        is_catalogue(vercel_ai_gateway::vercel_ai_gateway_models(), "vercel-ai-gateway"@, "openai-chat-completions"@),
        is_catalogue(xai::xai_models(), "xai"@, "openai-chat-completions"@),
        is_catalogue(xai_subscription::xai_subscription_models(), "xai-subscription"@, "openai-chat-completions"@),
        is_catalogue(zai::zai_models(), "zai"@, "openai-chat-completions"@),
{
}

/// The catalogues with models of a maker hold models of their own provider too, however the maker
/// writes its name.
pub proof fn law_models_of_a_maker_are_of_their_provider(maker: MakerView)
    ensures
        is_catalogue(anthropic::anthropic_models(maker), "anthropic"@, "anthropic-messages"@),
        is_catalogue(bedrock::bedrock_models(maker), "amazon-bedrock"@, "bedrock-converse-stream"@),
        is_catalogue(github_copilot::github_copilot_models(maker), "github-copilot"@, "openai-chat-completions"@),
        is_catalogue(openrouter::openrouter_models(maker), "openrouter"@, "openai-chat-completions"@),
        is_catalogue(openrouter_oauth::openrouter_oauth_models(maker), "openrouter-oauth"@, "openai-chat-completions"@),
        is_catalogue(
            claude_pro_max::claude_pro_max_models(maker),
            maker.word + "-pro-max"@,
            "anthropic-messages"@,
        ),
{
}

} // verus!
