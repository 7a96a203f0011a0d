//! xAI (Grok/X subscription).
use vstd::prelude::*;
use crate::oauth::provider::{build_oauth_provider, GenericOAuthProvider, OAuthProviderSpec};
use crate::providers::listing;
use crate::providers::listing::new_chat_model;
use crate::types::{Model, ModelThinkingLevel, ModelView};
use crate::views;

verus! {

broadcast use crate::views::group_views;

pub type XaiSubscriptionProvider = GenericOAuthProvider;

/// What people allow the provider to do.
pub open spec fn scopes() -> Seq<Seq<char>> {
    seq!["openid"@, "profile"@, "offline_access"@]
}

/// The provider xAI (Grok/X subscription).
pub fn xai_subscription_provider() -> (r: XaiSubscriptionProvider)
    ensures
        r.id@ == "xai-subscription"@,
        r.name@ == "xAI (Grok/X subscription)"@,
        r.config.base_url@ == "https://api.x.ai/v1"@,
        r.config.client_id@ == "xai-cli"@,
        views::all(r.config.scopes@) == scopes(),
        r.config.auth_url is None,
        views::opt(r.config.token_url) == Some("https://xai.com/oauth/token"@),
        views::opt(r.config.device_auth_url) == Some("https://xai.com/oauth/device/code"@),
        r.config.redirect_uri is None,
        views::opt(r.config.login_label) == Some("xAI subscription"@),
        r.config.display_name@ == "xAI (Grok/X subscription)"@,
        r.config.is_subscription == true,
        r.config.api_label@ == "openai-chat-completions"@,
        r.config.extra_headers is None,
        views::all(r.config.default_models@) == listing::all_filled_in(
            xai_subscription_models(),
            "xai-subscription"@,
            "openai-chat-completions"@,
        ),
{
    let mut scope_list: Vec<String> = Vec::new();
    scope_list.push("openid".to_owned());
    scope_list.push("profile".to_owned());
    scope_list.push("offline_access".to_owned());
    assert(views::all(scope_list@) =~= scopes());
    build_oauth_provider(
        OAuthProviderSpec {
            id: "xai-subscription",
            display_name: "xAI (Grok/X subscription)",
            base_url: "https://api.x.ai/v1",
            client_id: "xai-cli",
            scopes: scope_list,
            auth_url: None,
            token_url: Some("https://xai.com/oauth/token"),
            device_auth_url: Some("https://xai.com/oauth/device/code"),
            redirect_uri: None,
            is_subscription: true,
            login_label: Some("xAI subscription"),
            api_label: "openai-chat-completions",
            default_models: default_models(),
            extra_headers: None,
        },
    )
}

/// The catalogue of xAI (Grok/X subscription).
pub open spec fn xai_subscription_models() -> Seq<ModelView> {
    seq![
        ModelView {
            thinking: ModelThinkingLevel::Medium,
            reasoning: true,
            ..listing::chat_model(
                "xai-subscription"@,
                "openai-chat-completions"@,
                "grok-4"@,
                "Grok 4 (subscription)"@,
                1_048_576,
                131_072,
                1_048_576,
            )
        },
        listing::chat_model(
            "xai-subscription"@,
            "openai-chat-completions"@,
            "grok-3"@,
            "Grok 3 (subscription)"@,
            131_072,
            16_384,
            131_072,
        ),
    ]
}

fn default_models() -> (r: Vec<Model>)
    ensures
        views::all(r@) == xai_subscription_models(),
{
    let mut models: Vec<Model> = Vec::new();
    let mut m: Model = new_chat_model(
        "xai-subscription",
        "openai-chat-completions",
        "grok-4",
        "Grok 4 (subscription)",
        1_048_576,
        131_072,
        1_048_576,
    );
    m.thinking = ModelThinkingLevel::Medium;
    m.reasoning = true;
    models.push(m);
    let m: Model = new_chat_model(
        "xai-subscription",
        "openai-chat-completions",
        "grok-3",
        "Grok 3 (subscription)",
        131_072,
        16_384,
        131_072,
    );
    models.push(m);
    assert(views::all(models@) =~= xai_subscription_models());
    models
}

} // verus!
