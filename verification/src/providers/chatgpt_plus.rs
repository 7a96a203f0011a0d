//! ChatGPT Plus/Pro (Codex).
use vstd::prelude::*;
use crate::dict;
use crate::dict::Dict;
use crate::oauth::provider::{build_oauth_provider, GenericOAuthProvider, OAuthProviderSpec};
use crate::providers::listing;
use crate::providers::listing::{add_tier, cache_prices, new_chat_model};
use crate::types::{Model, ModelCostRatesView, ModelThinkingLevel, ModelView};
use crate::views;

verus! {

broadcast use crate::views::group_views;

pub type ChatGptPlusProvider = GenericOAuthProvider;

/// What people allow the provider to do.
pub open spec fn scopes() -> Seq<Seq<char>> {
    seq!["openid"@, "profile"@, "email"@, "offline_access"@]
}

/// The provider ChatGPT Plus/Pro (Codex).
pub fn chatgpt_plus_provider() -> (r: ChatGptPlusProvider)
    ensures
        r.id@ == "chatgpt-plus"@,
        r.name@ == "ChatGPT Plus/Pro (Codex)"@,
        r.config.base_url@ == "https://chatgpt.com/backend-api"@,
        r.config.client_id@ == "app_EMoamEEZ73f0CkXaXp7hrann"@,
        views::all(r.config.scopes@) == scopes(),
        views::opt(r.config.auth_url) == Some("https://auth.openai.com/oauth/authorize"@),
        views::opt(r.config.token_url) == Some("https://auth.openai.com/oauth/token"@),
        r.config.device_auth_url is None,
        views::opt(r.config.redirect_uri) == Some("http://localhost:1455/auth/callback"@),
        views::opt(r.config.login_label) == Some("ChatGPT Plus/Pro"@),
        r.config.display_name@ == "ChatGPT Plus/Pro (Codex)"@,
        r.config.is_subscription == true,
        r.config.api_label@ == "openai-codex-responses"@,
        r.config.extra_headers is None,
        views::all(r.config.default_models@) == listing::all_filled_in(
            chatgpt_plus_models(),
            "chatgpt-plus"@,
            "openai-codex-responses"@,
        ),
{
    let mut scope_list: Vec<String> = Vec::new();
    scope_list.push("openid".to_owned());
    scope_list.push("profile".to_owned());
    scope_list.push("email".to_owned());
    scope_list.push("offline_access".to_owned());
    assert(views::all(scope_list@) =~= scopes());
    build_oauth_provider(
        OAuthProviderSpec {
            id: "chatgpt-plus",
            display_name: "ChatGPT Plus/Pro (Codex)",
            base_url: "https://chatgpt.com/backend-api",
            client_id: "app_EMoamEEZ73f0CkXaXp7hrann",
            scopes: scope_list,
            auth_url: Some("https://auth.openai.com/oauth/authorize"),
            token_url: Some("https://auth.openai.com/oauth/token"),
            device_auth_url: None,
            redirect_uri: Some("http://localhost:1455/auth/callback"),
            is_subscription: true,
            login_label: Some("ChatGPT Plus/Pro"),
            api_label: "openai-codex-responses",
            default_models: default_models(),
            extra_headers: None,
        },
    )
}

/// How a model spells thinking levels.
pub open spec fn codex_map() -> Map<Seq<char>, Seq<char>> {
    Map::<Seq<char>, Seq<char>>::empty().insert("xhigh"@, "xhigh"@).insert("minimal"@, "low"@)
}

fn codex_map_texts() -> (r: Dict<String>)
    ensures
        dict::texts(r@) == codex_map(),
{
    let mut m: Dict<String> = Dict::new();
    m.insert("xhigh", "xhigh".to_owned());
    m.insert("minimal", "low".to_owned());
    assert(dict::texts(m@) =~= codex_map());
    m
}

/// How a model spells thinking levels.
pub open spec fn codex_map_max() -> Map<Seq<char>, Seq<char>> {
    Map::<Seq<char>, Seq<char>>::empty().insert("xhigh"@, "xhigh"@).insert("max"@, "max"@).insert("minimal"@, "low"@)
}

fn codex_map_max_texts() -> (r: Dict<String>)
    ensures
        dict::texts(r@) == codex_map_max(),
{
    let mut m: Dict<String> = Dict::new();
    m.insert("xhigh", "xhigh".to_owned());
    m.insert("max", "max".to_owned());
    m.insert("minimal", "low".to_owned());
    assert(dict::texts(m@) =~= codex_map_max());
    m
}

/// The catalogue of ChatGPT Plus/Pro (Codex).
pub open spec fn chatgpt_plus_models() -> Seq<ModelView> {
    seq![
        ModelView {
            thinking: ModelThinkingLevel::High,
            reasoning: true,
            cost_rates: listing::cache_priced("1.75"@, "14.0"@, "0.175"@, "0.0"@),
            thinking_level_map: Some(codex_map()),
            ..listing::chat_model(
                "chatgpt-plus"@,
                "openai-codex-responses"@,
                "gpt-5.3-codex-spark"@,
                "GPT-5.3 Codex Spark"@,
                128_000,
                128_000,
                128_000,
            )
        },
        ModelView {
            supports_images: true,
            thinking: ModelThinkingLevel::High,
            reasoning: true,
            cost_rates: ModelCostRatesView {
                tiers: seq![listing::tier(272_000, "5.0"@, "22.5"@, "0.5"@, "0.0"@)],
                ..listing::cache_priced("2.5"@, "15.0"@, "0.25"@, "0.0"@)
            },
            thinking_level_map: Some(codex_map()),
            ..listing::chat_model(
                "chatgpt-plus"@,
                "openai-codex-responses"@,
                "gpt-5.4"@,
                "GPT-5.4"@,
                272_000,
                128_000,
                272_000,
            )
        },
        ModelView {
            supports_images: true,
            thinking: ModelThinkingLevel::High,
            reasoning: true,
            cost_rates: listing::cache_priced("0.75"@, "4.5"@, "0.075"@, "0.0"@),
            thinking_level_map: Some(codex_map()),
            ..listing::chat_model(
                "chatgpt-plus"@,
                "openai-codex-responses"@,
                "gpt-5.4-mini"@,
                "GPT-5.4 mini"@,
                272_000,
                128_000,
                272_000,
            )
        },
        ModelView {
            supports_images: true,
            thinking: ModelThinkingLevel::High,
            reasoning: true,
            cost_rates: ModelCostRatesView {
                tiers: seq![listing::tier(272_000, "10.0"@, "45.0"@, "1.0"@, "0.0"@)],
                ..listing::cache_priced("5.0"@, "30.0"@, "0.5"@, "0.0"@)
            },
            thinking_level_map: Some(codex_map()),
            ..listing::chat_model(
                "chatgpt-plus"@,
                "openai-codex-responses"@,
                "gpt-5.5"@,
                "GPT-5.5"@,
                272_000,
                128_000,
                272_000,
            )
        },
        ModelView {
            supports_images: true,
            thinking: ModelThinkingLevel::High,
            reasoning: true,
            cost_rates: ModelCostRatesView {
                tiers: seq![listing::tier(272_000, "0.4"@, "1.8"@, "0.04"@, "0.5"@)],
                ..listing::cache_priced("0.2"@, "1.2"@, "0.02"@, "0.25"@)
            },
            thinking_level_map: Some(codex_map_max()),
            ..listing::chat_model(
                "chatgpt-plus"@,
                "openai-codex-responses"@,
                "gpt-5.6-luna"@,
                "GPT-5.6 Luna"@,
                272_000,
                128_000,
                272_000,
            )
        },
        ModelView {
            supports_images: true,
            thinking: ModelThinkingLevel::High,
            reasoning: true,
            cost_rates: ModelCostRatesView {
                tiers: seq![listing::tier(272_000, "10.0"@, "45.0"@, "1.0"@, "12.5"@)],
                ..listing::cache_priced("5.0"@, "30.0"@, "0.5"@, "6.25"@)
            },
            thinking_level_map: Some(codex_map_max()),
            ..listing::chat_model(
                "chatgpt-plus"@,
                "openai-codex-responses"@,
                "gpt-5.6-sol"@,
                "GPT-5.6 Sol"@,
                272_000,
                128_000,
                272_000,
            )
        },
        ModelView {
            supports_images: true,
            thinking: ModelThinkingLevel::High,
            reasoning: true,
            cost_rates: ModelCostRatesView {
                tiers: seq![listing::tier(272_000, "4.0"@, "18.0"@, "0.4"@, "5.0"@)],
                ..listing::cache_priced("2.0"@, "12.0"@, "0.2"@, "2.5"@)
            },
            thinking_level_map: Some(codex_map_max()),
            ..listing::chat_model(
                "chatgpt-plus"@,
                "openai-codex-responses"@,
                "gpt-5.6-terra"@,
                "GPT-5.6 Terra"@,
                272_000,
                128_000,
                272_000,
            )
        },
    ]
}

fn default_models() -> (r: Vec<Model>)
    ensures
        views::all(r@) == chatgpt_plus_models(),
{
    let mut models: Vec<Model> = Vec::new();
    let mut m: Model = new_chat_model(
        "chatgpt-plus",
        "openai-codex-responses",
        "gpt-5.3-codex-spark",
        "GPT-5.3 Codex Spark",
        128_000,
        128_000,
        128_000,
    );
    m.thinking = ModelThinkingLevel::High;
    m.reasoning = true;
    m.cost_rates = cache_prices("1.75", "14.0", "0.175", "0.0");
    m.thinking_level_map = Some(codex_map_texts());
    models.push(m);
    let mut m: Model = new_chat_model(
        "chatgpt-plus",
        "openai-codex-responses",
        "gpt-5.4",
        "GPT-5.4",
        272_000,
        128_000,
        272_000,
    );
    m.supports_images = true;
    m.thinking = ModelThinkingLevel::High;
    m.reasoning = true;
    m.cost_rates = cache_prices("2.5", "15.0", "0.25", "0.0");
    add_tier(&mut m.cost_rates, 272_000, "5.0", "22.5", "0.5", "0.0");
    m.thinking_level_map = Some(codex_map_texts());
    models.push(m);
    let mut m: Model = new_chat_model(
        "chatgpt-plus",
        "openai-codex-responses",
        "gpt-5.4-mini",
        "GPT-5.4 mini",
        272_000,
        128_000,
        272_000,
    );
    m.supports_images = true;
    m.thinking = ModelThinkingLevel::High;
    m.reasoning = true;
    m.cost_rates = cache_prices("0.75", "4.5", "0.075", "0.0");
    m.thinking_level_map = Some(codex_map_texts());
    models.push(m);
    let mut m: Model = new_chat_model(
        "chatgpt-plus",
        "openai-codex-responses",
        "gpt-5.5",
        "GPT-5.5",
        272_000,
        128_000,
        272_000,
    );
    m.supports_images = true;
    m.thinking = ModelThinkingLevel::High;
    m.reasoning = true;
    m.cost_rates = cache_prices("5.0", "30.0", "0.5", "0.0");
    add_tier(&mut m.cost_rates, 272_000, "10.0", "45.0", "1.0", "0.0");
    m.thinking_level_map = Some(codex_map_texts());
    models.push(m);
    let mut m: Model = new_chat_model(
        "chatgpt-plus",
        "openai-codex-responses",
        "gpt-5.6-luna",
        "GPT-5.6 Luna",
        272_000,
        128_000,
        272_000,
    );
    m.supports_images = true;
    m.thinking = ModelThinkingLevel::High;
    m.reasoning = true;
    m.cost_rates = cache_prices("0.2", "1.2", "0.02", "0.25");
    add_tier(&mut m.cost_rates, 272_000, "0.4", "1.8", "0.04", "0.5");
    m.thinking_level_map = Some(codex_map_max_texts());
    models.push(m);
    let mut m: Model = new_chat_model(
        "chatgpt-plus",
        "openai-codex-responses",
        "gpt-5.6-sol",
        "GPT-5.6 Sol",
        272_000,
        128_000,
        272_000,
    );
    m.supports_images = true;
    m.thinking = ModelThinkingLevel::High;
    m.reasoning = true;
    m.cost_rates = cache_prices("5.0", "30.0", "0.5", "6.25");
    add_tier(&mut m.cost_rates, 272_000, "10.0", "45.0", "1.0", "12.5");
    m.thinking_level_map = Some(codex_map_max_texts());
    models.push(m);
    let mut m: Model = new_chat_model(
        "chatgpt-plus",
        "openai-codex-responses",
        "gpt-5.6-terra",
        "GPT-5.6 Terra",
        272_000,
        128_000,
        272_000,
    );
    m.supports_images = true;
    m.thinking = ModelThinkingLevel::High;
    m.reasoning = true;
    m.cost_rates = cache_prices("2.0", "12.0", "0.2", "2.5");
    add_tier(&mut m.cost_rates, 272_000, "4.0", "18.0", "0.4", "5.0");
    m.thinking_level_map = Some(codex_map_max_texts());
    models.push(m);
    assert(views::all(models@) =~= chatgpt_plus_models());
    models
}

/// The models spell the highest effort as it is and have no minimal one, which is low to them.
pub proof fn law_models_spell_efforts(other: Seq<char>)
    requires
        other != "xhigh"@,
        other != "minimal"@,
        other != "max"@,
    ensures
        codex_map().contains_key("xhigh"@) && codex_map()["xhigh"@] == "xhigh"@,
        codex_map().contains_key("minimal"@) && codex_map()["minimal"@] == "low"@,
        !codex_map().contains_key("max"@),
        !codex_map().contains_key(other),
        codex_map_max().contains_key("xhigh"@) && codex_map_max()["xhigh"@] == "xhigh"@,
        codex_map_max().contains_key("max"@) && codex_map_max()["max"@] == "max"@,
        codex_map_max().contains_key("minimal"@) && codex_map_max()["minimal"@] == "low"@,
        !codex_map_max().contains_key(other),
{
    reveal_strlit("xhigh");
    reveal_strlit("minimal");
    reveal_strlit("max");
    assert("xhigh"@.len() == 5 && "minimal"@.len() == 7 && "max"@.len() == 3);
}

} // verus!
