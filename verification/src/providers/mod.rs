pub mod ant_ling;
pub mod anthropic;
pub mod azure;
pub mod baseten;
pub mod bedrock;
pub mod catalogue_laws;
pub mod cerebras;
pub mod chatgpt_plus;
pub mod claude_pro_max;
pub mod cloudflare_ai_gateway;
pub mod cloudflare_workers_ai;
pub mod compat;
pub mod deepseek;
pub mod fireworks;
pub mod github_copilot;
pub mod google;
pub mod google_vertex;
pub mod groq;
pub mod listing;
pub mod mistral;
pub mod moonshot;
pub mod nvidia;
pub mod openai;
pub mod openrouter;
pub mod openrouter_oauth;
pub mod qwen_token_plan;
pub mod radius;
pub mod vercel_ai_gateway;
pub mod xai;
pub mod xai_subscription;
pub mod zai;
