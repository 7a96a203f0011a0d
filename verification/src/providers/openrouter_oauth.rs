//! OpenRouter (OAuth).
use vstd::prelude::*;
use crate::oauth::provider::{build_oauth_provider, GenericOAuthProvider, OAuthProviderSpec};
use crate::providers::listing;
use crate::providers::listing::{new_chat_model, MakerName, MakerView};
use crate::text::{concat, concat3};
use crate::types::{Model, ModelThinkingLevel, ModelView};
use crate::views;

verus! {

broadcast use crate::views::group_views;

pub type OpenRouterOauthProvider = GenericOAuthProvider;

/// What people allow the provider to do.
pub open spec fn scopes() -> Seq<Seq<char>> {
    seq!["openid"@, "profile"@]
}

/// The provider OpenRouter (OAuth).
///
/// `maker` says how the name of the family of models is written, in ids and addresses and in
/// titles.
pub fn openrouter_oauth_provider(maker: &MakerName) -> (r: OpenRouterOauthProvider)
    ensures
        r.id@ == "openrouter-oauth"@,
        r.name@ == "OpenRouter (OAuth)"@,
        r.config.base_url@ == "https://openrouter.ai/api/v1"@,
        r.config.client_id@ == "app-openrouter-oauth"@,
        views::all(r.config.scopes@) == scopes(),
        views::opt(r.config.auth_url) == Some("https://openrouter.ai/auth"@),
        views::opt(r.config.token_url) == Some("https://openrouter.ai/api/v1/auth/keys"@),
        r.config.device_auth_url is None,
        views::opt(r.config.redirect_uri) == Some("http://localhost:1455/callback"@),
        views::opt(r.config.login_label) == Some("Sign in with OpenRouter"@),
        r.config.display_name@ == "OpenRouter (OAuth)"@,
        r.config.is_subscription == false,
        r.config.api_label@ == "openai-chat-completions"@,
        r.config.extra_headers is None,
        views::all(r.config.default_models@) == listing::all_filled_in(
            openrouter_oauth_models(maker@),
            "openrouter-oauth"@,
            "openai-chat-completions"@,
        ),
{
    let mut scope_list: Vec<String> = Vec::new();
    scope_list.push("openid".to_owned());
    scope_list.push("profile".to_owned());
    assert(views::all(scope_list@) =~= scopes());
    build_oauth_provider(
        OAuthProviderSpec {
            id: "openrouter-oauth",
            display_name: "OpenRouter (OAuth)",
            base_url: "https://openrouter.ai/api/v1",
            client_id: "app-openrouter-oauth",
            scopes: scope_list,
            auth_url: Some("https://openrouter.ai/auth"),
            token_url: Some("https://openrouter.ai/api/v1/auth/keys"),
            device_auth_url: None,
            redirect_uri: Some("http://localhost:1455/callback"),
            is_subscription: false,
            login_label: Some("Sign in with OpenRouter"),
            api_label: "openai-chat-completions",
            default_models: default_models(maker),
            extra_headers: None,
        },
    )
}

/// The catalogue of OpenRouter (OAuth).
pub open spec fn openrouter_oauth_models(maker: MakerView) -> Seq<ModelView> {
    seq![
        ModelView {
            supports_images: true,
            supports_pdf: true,
            thinking: ModelThinkingLevel::High,
            ..listing::chat_model(
                "openrouter-oauth"@,
                "openai-chat-completions"@,
                "anthropic/"@ + maker.word + "-3.7-sonnet"@,
                maker.title + " 3.7 Sonnet (OpenRouter OAuth)"@,
                200_000,
                64_000,
                200_000,
            )
        },
        ModelView {
            supports_images: true,
            ..listing::chat_model(
                "openrouter-oauth"@,
                "openai-chat-completions"@,
                "openai/gpt-4o"@,
                "GPT-4o (OpenRouter OAuth)"@,
                128_000,
                16_384,
                128_000,
            )
        },
    ]
}

fn default_models(maker: &MakerName) -> (r: Vec<Model>)
    ensures
        views::all(r@) == openrouter_oauth_models(maker@),
{
    let mut models: Vec<Model> = Vec::new();
    let mut m: Model = new_chat_model(
        "openrouter-oauth",
        "openai-chat-completions",
        concat3("anthropic/", maker.word.as_str(), "-3.7-sonnet").as_str(),
        concat(maker.title.as_str(), " 3.7 Sonnet (OpenRouter OAuth)").as_str(),
        200_000,
        64_000,
        200_000,
    );
    m.supports_images = true;
    m.supports_pdf = true;
    m.thinking = ModelThinkingLevel::High;
    models.push(m);
    let mut m: Model = new_chat_model(
        "openrouter-oauth",
        "openai-chat-completions",
        "openai/gpt-4o",
        "GPT-4o (OpenRouter OAuth)",
        128_000,
        16_384,
        128_000,
    );
    m.supports_images = true;
    models.push(m);
    assert(views::all(models@) =~= openrouter_oauth_models(maker@));
    models
}

} // verus!
