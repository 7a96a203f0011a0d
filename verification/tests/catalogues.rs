//! The catalogues of the providers.
use otter_ai::providers::ant_ling::ant_ling_provider;
use otter_ai::providers::azure::azure_openai_provider;
use otter_ai::providers::baseten::baseten_provider;
use otter_ai::providers::cerebras::cerebras_provider;
use otter_ai::providers::claude_pro_max::claude_pro_max_provider;
use otter_ai::providers::cloudflare_ai_gateway::cloudflare_ai_gateway_provider;
use otter_ai::providers::cloudflare_workers_ai::cloudflare_workers_ai_provider;
use otter_ai::providers::deepseek::deepseek_provider;
use otter_ai::providers::fireworks::fireworks_provider;
use otter_ai::providers::google::google_generative_ai_provider;
use otter_ai::providers::google_vertex::google_vertex_provider;
use otter_ai::providers::listing::MakerName;
use otter_ai::providers::mistral::mistral_provider;
use otter_ai::providers::moonshot::moonshot_provider;
use otter_ai::providers::nvidia::nvidia_provider;
use otter_ai::providers::openrouter_oauth::openrouter_oauth_provider;
use otter_ai::providers::qwen_token_plan::qwen_token_plan_provider;
use otter_ai::providers::radius::radius_provider;
use otter_ai::providers::vercel_ai_gateway::vercel_ai_gateway_provider;
use otter_ai::providers::xai::xai_provider;
use otter_ai::providers::xai_subscription::xai_subscription_provider;
use otter_ai::providers::zai::zai_provider;
use otter_ai::types::{Model, ModelThinkingLevel};

fn maker() -> MakerName {
    MakerName { word: "fam".into(), title: "Fam".into() }
}

fn count(n: Option<u64>) -> String {
    n.map(|n| n.to_string()).unwrap_or_default()
}

fn number(n: &Option<String>) -> String {
    match n {
        Some(n) => format!("{:?}", n.parse::<f64>().unwrap()),
        None => String::new(),
    }
}

/// What a catalogue says of each model. The letters tell whether it takes images,
/// audio, video and documents, calls tools, keeps to a schema, takes a system
/// prompt and reasons.
fn rows(models: &[Model]) -> Vec<String> {
    let mut out = Vec::new();
    for m in models {
        let flags = [
            m.supports_images,
            m.supports_audio,
            m.supports_video,
            m.supports_pdf,
            m.supports_tool_calling,
            m.supports_structured_output,
            m.supports_system_prompt,
            m.reasoning,
        ];
        let flags: String = flags.iter().map(|f| if *f { 'y' } else { 'n' }).collect();
        let thinking = match m.thinking {
            ModelThinkingLevel::Low => "Low",
            ModelThinkingLevel::Medium => "Medium",
            ModelThinkingLevel::High => "High",
            _ => "Off",
        };
        out.push(format!(
            "{}|{}|{}|{}|{}|{}|{}|{}|{}|{}|{}",
            m.id,
            m.name,
            m.api,
            count(m.max_input_tokens),
            count(m.max_output_tokens),
            count(m.context_window),
            flags,
            thinking,
            number(&m.cost_rates.input_per_million),
            number(&m.cost_rates.output_per_million),
            number(&m.default_temperature)
        ));
    }
    out
}

#[test]
fn ant_ling_catalogue() {
    let p = ant_ling_provider();
    assert_eq!(p.id, "ant-ling");
    assert_eq!(p.name, "Ant Ling");
    assert_eq!(p.config.base_url, "https://api.antling.ai/v1");
    assert_eq!(p.config.env_var, "ANT_LING_API_KEY");
    assert_eq!(
        rows(&p.get_models()),
        [
            "ant-ling-coding|Ant Ling Coding|openai-chat-completions|128000|32768|128000|nnnnyyyn|Off|||1.0",
        ]
    );
}

#[test]
fn azure_openai_catalogue() {
    let p = azure_openai_provider();
    assert_eq!(p.id, "azure-openai-responses");
    assert_eq!(p.name, "Azure OpenAI");
    assert_eq!(p.config.base_url, "");
    assert_eq!(p.config.env_var, "AZURE_OPENAI_API_KEY");
    assert_eq!(
        rows(&p.get_models()),
        [
            "gpt-4o-mini|Azure GPT-4o Mini|azure-openai-responses|128000|16384|128000|ynnnyyyn|Off|0.15|0.6|1.0",
            "gpt-4o|Azure GPT-4o|azure-openai-responses|128000|16384|128000|yynnyyyn|Off|2.5|10.0|1.0",
        ]
    );
}

#[test]
fn baseten_catalogue() {
    let p = baseten_provider();
    assert_eq!(p.id, "baseten");
    assert_eq!(p.name, "Baseten");
    assert_eq!(p.config.base_url, "https://api.baseten.co/v1");
    assert_eq!(p.config.env_var, "BASETEN_API_KEY");
    assert_eq!(
        rows(&p.get_models()),
        [
            "deepseek-v3|DeepSeek V3 (Baseten)|openai-chat-completions|64000|8192|64000|nnnnyyyn|Off|||1.0",
            "llama-3.1-405b-instruct|Llama 3.1 405B Instruct (Baseten)|openai-chat-completions|128000|16384|128000|nnnnyyyn|Off|||1.0",
        ]
    );
}

#[test]
fn cerebras_catalogue() {
    let p = cerebras_provider();
    assert_eq!(p.id, "cerebras");
    assert_eq!(p.name, "Cerebras");
    assert_eq!(p.config.base_url, "https://api.cerebras.ai/v1");
    assert_eq!(p.config.env_var, "CEREBRAS_API_KEY");
    assert_eq!(
        rows(&p.get_models()),
        [
            "llama3.1-8b|Llama 3.1 8B (Cerebras)|openai-chat-completions|8000|8000|8000|nnnnyyyn|Off|||1.0",
            "llama3.1-70b|Llama 3.1 70B (Cerebras)|openai-chat-completions|8000|8000|8000|nnnnyyyn|Off|||1.0",
        ]
    );
}

#[test]
fn claude_pro_max_catalogue() {
    let p = claude_pro_max_provider(&maker());
    assert_eq!(p.id, "fam-pro-max");
    assert_eq!(p.name, "Fam Pro/Max");
    assert_eq!(p.config.base_url, "https://api.anthropic.com/v1");
    assert_eq!(p.config.client_id, "9d1c250a-e61b-44a4-8edc-1e6cb45e0f56");
    assert_eq!(
        rows(&p.get_models()),
        [
            "fam-sonnet-4-20250514|Fam Sonnet 4 (Pro/Max)|anthropic-messages|200000|64000|200000|ynnyyyyn|High|||1.0",
            "fam-opus-4-20250514|Fam Opus 4 (Pro/Max)|anthropic-messages|200000|32000|200000|ynnyyyyn|High|||1.0",
            "fam-3-7-sonnet-20250219|Fam 3.7 Sonnet (Pro/Max)|anthropic-messages|200000|64000|200000|ynnyyyyn|High|||1.0",
        ]
    );
}

#[test]
fn cloudflare_ai_gateway_catalogue() {
    let p = cloudflare_ai_gateway_provider();
    assert_eq!(p.id, "cloudflare-ai-gateway");
    assert_eq!(p.name, "Cloudflare AI Gateway");
    assert_eq!(p.config.base_url, "https://gateway.ai.cloudflare.com/v1");
    assert_eq!(p.config.env_var, "CLOUDFLARE_API_KEY");
    assert_eq!(
        rows(&p.get_models()),
        [
            "@cf/meta/llama-3.1-8b-instruct|Llama 3.1 8B Instruct (Cloudflare Workers AI via Gateway)|openai-chat-completions|32000|4096|32000|nnnnyyyn|Off|||1.0",
        ]
    );
}

#[test]
fn cloudflare_workers_ai_catalogue() {
    let p = cloudflare_workers_ai_provider();
    assert_eq!(p.id, "cloudflare-workers-ai");
    assert_eq!(p.name, "Cloudflare Workers AI");
    assert_eq!(p.config.base_url, "https://api.cloudflare.com/client/v4/accounts/ACCOUNT_ID/ai/v1");
    assert_eq!(p.config.env_var, "CLOUDFLARE_API_KEY");
    assert_eq!(
        rows(&p.get_models()),
        [
            "@cf/meta/llama-3.1-8b-instruct|Llama 3.1 8B Instruct (Workers AI)|openai-chat-completions|32000|4096|32000|nnnnyyyn|Off|||1.0",
            "@cf/qwen/qwen1.5-14b-chat-awq|Qwen 1.5 14B Chat AWQ (Workers AI)|openai-chat-completions|32000|4096|32000|nnnnyyyn|Off|||1.0",
        ]
    );
}

#[test]
fn deepseek_catalogue() {
    let p = deepseek_provider();
    assert_eq!(p.id, "deepseek");
    assert_eq!(p.name, "DeepSeek");
    assert_eq!(p.config.base_url, "https://api.deepseek.com/v1");
    assert_eq!(p.config.env_var, "DEEPSEEK_API_KEY");
    assert_eq!(
        rows(&p.get_models()),
        [
            "deepseek-chat|DeepSeek V3 Chat|openai-chat-completions|64000|8000|64000|nnnnyyyn|Off|0.14|0.28|1.0",
            "deepseek-reasoner|DeepSeek R1 Reasoner|openai-chat-completions|64000|8000|64000|nnnnynyy|High|0.55|2.19|1.0",
        ]
    );
}

#[test]
fn fireworks_catalogue() {
    let p = fireworks_provider();
    assert_eq!(p.id, "fireworks");
    assert_eq!(p.name, "Fireworks AI");
    assert_eq!(p.config.base_url, "https://api.fireworks.ai/inference/v1");
    assert_eq!(p.config.env_var, "FIREWORKS_API_KEY");
    assert_eq!(
        rows(&p.get_models()),
        [
            "accounts/fireworks/models/llama-v3p1-405b-instruct|Llama 3.1 405B Instruct (Fireworks)|openai-chat-completions|128000|16384|128000|nnnnyyyn|Off|3.0|3.0|1.0",
            "accounts/fireworks/models/llama-v3p1-70b-instruct|Llama 3.1 70B Instruct (Fireworks)|openai-chat-completions|128000|8192|128000|nnnnyyyn|Off|0.9|0.9|1.0",
            "accounts/fireworks/models/deepseek-v3|DeepSeek V3 (Fireworks)|openai-chat-completions|64000|8192|64000|nnnnyyyn|Off|||1.0",
        ]
    );
}

#[test]
fn google_generative_ai_catalogue() {
    let p = google_generative_ai_provider();
    assert_eq!(
        rows(&p.get_models()),
        [
            "gemini-2.5-pro|Gemini 2.5 Pro|google-generative-ai|1000000|65536|1000000|yyyyyyyn|Off|1.25|5.0|1.0",
            "gemini-2.0-flash|Gemini 2.0 Flash|google-generative-ai|1000000|65536|1000000|yyyyyyyn|Off|0.1|0.4|1.0",
        ]
    );
}

#[test]
fn google_vertex_catalogue() {
    let p = google_vertex_provider();
    assert_eq!(
        rows(&p.get_models()),
        [
            "gemini-2.5-pro|Gemini 2.5 Pro (Vertex AI)|google-vertex-ai|1000000|65536|1000000|yyyyyyyn|Off|1.25|5.0|1.0",
            "gemini-2.0-flash|Gemini 2.0 Flash (Vertex AI)|google-vertex-ai|1000000|65536|1000000|yyyyyyyn|Off|0.1|0.4|1.0",
        ]
    );
}

#[test]
fn mistral_catalogue() {
    let p = mistral_provider();
    assert_eq!(p.id, "mistral");
    assert_eq!(p.name, "Mistral");
    assert_eq!(p.config.base_url, "https://api.mistral.ai/v1");
    assert_eq!(p.config.env_var, "MISTRAL_API_KEY");
    assert_eq!(
        rows(&p.get_models()),
        [
            "mistral-large-latest|Mistral Large|mistral-conversations|128000|8000|128000|nnnnyyyn|Off|2.0|6.0|0.7",
            "mistral-small-latest|Mistral Small|mistral-conversations|32000|8000|32000|nnnnyyyn|Off|0.2|0.6|0.7",
            "codestral-latest|Codestral|mistral-conversations|80000|8000|80000|nnnnyyyn|Off|0.2|0.6|0.7",
        ]
    );
}

#[test]
fn moonshot_catalogue() {
    let p = moonshot_provider();
    assert_eq!(p.id, "moonshot");
    assert_eq!(p.name, "Moonshot AI (Kimi)");
    assert_eq!(p.config.base_url, "https://api.moonshot.cn/v1");
    assert_eq!(p.config.env_var, "MOONSHOT_API_KEY");
    assert_eq!(
        rows(&p.get_models()),
        [
            "kimi-k3|Kimi K3|openai-chat-completions|256000|8192|256000|nnnnyyyn|Off|||1.0",
            "moonshot-v1-128k|Moonshot V1 128K|openai-chat-completions|128000|8192|128000|nnnnyyyn|Off|||1.0",
            "moonshot-v1-32k|Moonshot V1 32K|openai-chat-completions|32000|8192|32000|nnnnyyyn|Off|||1.0",
        ]
    );
}

#[test]
fn nvidia_catalogue() {
    let p = nvidia_provider();
    assert_eq!(p.id, "nvidia");
    assert_eq!(p.name, "NVIDIA NIM");
    assert_eq!(p.config.base_url, "https://integrate.api.nvidia.com/v1");
    assert_eq!(p.config.env_var, "NVIDIA_API_KEY");
    assert_eq!(
        rows(&p.get_models()),
        [
            "meta/llama-3.1-405b-instruct|Llama 3.1 405B Instruct (NVIDIA NIM)|openai-chat-completions|128000|8000|128000|nnnnyyyn|Off|||1.0",
            "mistralai/mixtral-8x22b-instruct-v0.1|Mixtral 8x22B v0.1 (NVIDIA NIM)|openai-chat-completions|64000|4096|64000|nnnnyyyn|Off|||1.0",
        ]
    );
}

#[test]
fn openrouter_oauth_catalogue() {
    let p = openrouter_oauth_provider(&maker());
    assert_eq!(p.id, "openrouter-oauth");
    assert_eq!(p.name, "OpenRouter (OAuth)");
    assert_eq!(p.config.base_url, "https://openrouter.ai/api/v1");
    assert_eq!(p.config.client_id, "app-openrouter-oauth");
    assert_eq!(
        rows(&p.get_models()),
        [
            "anthropic/fam-3.7-sonnet|Fam 3.7 Sonnet (OpenRouter OAuth)|openai-chat-completions|200000|64000|200000|ynnyyyyn|High|||1.0",
            "openai/gpt-4o|GPT-4o (OpenRouter OAuth)|openai-chat-completions|128000|16384|128000|ynnnyyyn|Off|||1.0",
        ]
    );
}

#[test]
fn qwen_token_plan_catalogue() {
    let p = qwen_token_plan_provider();
    assert_eq!(p.id, "qwen-token-plan");
    assert_eq!(p.name, "Qwen Token Plan");
    assert_eq!(p.config.base_url, "https://api.qwen.ai/v1");
    assert_eq!(p.config.env_var, "QWEN_TOKEN_PLAN_API_KEY");
    assert_eq!(
        rows(&p.get_models()),
        [
            "qwen-coder-plus|Qwen Coder Plus|openai-chat-completions|128000|8192|128000|nnnnyyyn|Off|||1.0",
            "qwen-max|Qwen Max|openai-chat-completions|128000|8192|128000|ynnnyyyn|Off|||1.0",
            "qwen-turbo|Qwen Turbo|openai-chat-completions|128000|8192|128000|nnnnyyyn|Off|||1.0",
        ]
    );
}

#[test]
fn radius_catalogue() {
    let p = radius_provider();
    assert_eq!(p.id, "radius");
    assert_eq!(p.name, "Radius");
    assert_eq!(p.config.base_url, "https://api.radius.ai/v1");
    assert_eq!(p.config.client_id, "radius-cli");
    assert_eq!(
        rows(&p.get_models()),
        [
            "radius-auto|Radius Auto (gateway-selected)|pi-messages|128000|32768|128000|ynnyyyyn|Off|||1.0",
        ]
    );
}

#[test]
fn vercel_ai_gateway_catalogue() {
    let p = vercel_ai_gateway_provider();
    assert_eq!(p.id, "vercel-ai-gateway");
    assert_eq!(p.name, "Vercel AI Gateway");
    assert_eq!(p.config.base_url, "https://ai-gateway.vercel.dev/api/v1");
    assert_eq!(p.config.env_var, "AI_GATEWAY_API_KEY");
    assert_eq!(
        rows(&p.get_models()),
        [
            "gpt-4o-mini|GPT-4o Mini (via Vercel AI Gateway)|openai-chat-completions|128000|16384|128000|ynnnyyyn|Off|||1.0",
        ]
    );
}

#[test]
fn xai_catalogue() {
    let p = xai_provider();
    assert_eq!(p.id, "xai");
    assert_eq!(p.name, "xAI");
    assert_eq!(p.config.base_url, "https://api.x.ai/v1");
    assert_eq!(p.config.env_var, "XAI_API_KEY");
    assert_eq!(
        rows(&p.get_models()),
        [
            "grok-4|Grok 4|openai-chat-completions|1048576|131072|1048576|nnnnyyyy|Medium|3.0|15.0|1.0",
            "grok-3-mini-fast|Grok 3 Mini Fast|openai-chat-completions|128000|8192|128000|nnnnyyyn|Off|0.1|0.3|1.0",
        ]
    );
}

#[test]
fn xai_subscription_catalogue() {
    let p = xai_subscription_provider();
    assert_eq!(p.id, "xai-subscription");
    assert_eq!(p.name, "xAI (Grok/X subscription)");
    assert_eq!(p.config.base_url, "https://api.x.ai/v1");
    assert_eq!(p.config.client_id, "xai-cli");
    assert_eq!(
        rows(&p.get_models()),
        [
            "grok-4|Grok 4 (subscription)|openai-chat-completions|1048576|131072|1048576|nnnnyyyy|Medium|||1.0",
            "grok-3|Grok 3 (subscription)|openai-chat-completions|131072|16384|131072|nnnnyyyn|Off|||1.0",
        ]
    );
}

#[test]
fn zai_catalogue() {
    let p = zai_provider();
    assert_eq!(p.id, "zai");
    assert_eq!(p.name, "ZAI (Codin)");
    assert_eq!(p.config.base_url, "https://api.zai.ai/v1");
    assert_eq!(p.config.env_var, "ZAI_API_KEY");
    assert_eq!(
        rows(&p.get_models()),
        [
            "zai-codin|ZAI Codin|openai-chat-completions|128000|32768|128000|nnnnyyyn|Off|||1.0",
        ]
    );
}
