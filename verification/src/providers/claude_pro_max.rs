//! The subscription of the maker of a family of models.
use vstd::prelude::*;
use crate::oauth::provider::{build_oauth_provider, GenericOAuthProvider, OAuthProviderSpec};
use crate::providers::listing;
use crate::providers::listing::{new_chat_model, MakerName, MakerView};
use crate::text::{concat, concat3};
use crate::types::{Model, ModelThinkingLevel, ModelView};
use crate::views;

verus! {

broadcast use crate::views::group_views;

pub type ClaudeProMaxProvider = GenericOAuthProvider;

/// What people allow the provider to do.
pub open spec fn scopes() -> Seq<Seq<char>> {
    seq!["org:create_api_key"@]
}

/// The provider of the subscription.
///
/// `maker` says how the name of the family of models is written, in ids and addresses and in
/// titles.
pub fn claude_pro_max_provider(maker: &MakerName) -> (r: ClaudeProMaxProvider)
    ensures
        r.id@ == maker@.word + "-pro-max"@,
        r.name@ == maker@.title + " Pro/Max"@,
        r.config.base_url@ == "https://api.anthropic.com/v1"@,
        r.config.client_id@ == "9d1c250a-e61b-44a4-8edc-1e6cb45e0f56"@,
        views::all(r.config.scopes@) == scopes(),
        views::opt(r.config.auth_url) == Some("https://"@ + maker@.word + ".ai/oauth/authorize"@),
        views::opt(r.config.token_url) == Some("https://"@ + maker@.word + ".ai/oauth/token"@),
        r.config.device_auth_url is None,
        views::opt(r.config.redirect_uri) == Some("https://console.anthropic.com/oauth/code/callback"@),
        views::opt(r.config.login_label) == Some(maker@.title + " Pro/Max"@),
        r.config.display_name@ == maker@.title + " Pro/Max"@,
        r.config.is_subscription == true,
        r.config.api_label@ == "anthropic-messages"@,
        r.config.extra_headers is None,
        views::all(r.config.default_models@) == listing::all_filled_in(
            claude_pro_max_models(maker@),
            maker@.word + "-pro-max"@,
            "anthropic-messages"@,
        ),
{
    let mut scope_list: Vec<String> = Vec::new();
    scope_list.push("org:create_api_key".to_owned());
    assert(views::all(scope_list@) =~= scopes());
    let id: String = concat(maker.word.as_str(), "-pro-max");
    let title: String = concat(maker.title.as_str(), " Pro/Max");
    let auth_url: String = concat3("https://", maker.word.as_str(), ".ai/oauth/authorize");
    let token_url: String = concat3("https://", maker.word.as_str(), ".ai/oauth/token");
    build_oauth_provider(
        OAuthProviderSpec {
            id: id.as_str(),
            display_name: title.as_str(),
            base_url: "https://api.anthropic.com/v1",
            client_id: "9d1c250a-e61b-44a4-8edc-1e6cb45e0f56",
            scopes: scope_list,
            auth_url: Some(auth_url.as_str()),
            token_url: Some(token_url.as_str()),
            device_auth_url: None,
            redirect_uri: Some("https://console.anthropic.com/oauth/code/callback"),
            is_subscription: true,
            login_label: Some(title.as_str()),
            api_label: "anthropic-messages",
            default_models: default_models(maker),
            extra_headers: None,
        },
    )
}

/// The catalogue of the subscription.
pub open spec fn claude_pro_max_models(maker: MakerView) -> Seq<ModelView> {
    seq![
        ModelView {
            supports_images: true,
            supports_pdf: true,
            thinking: ModelThinkingLevel::High,
            ..listing::chat_model(
                maker.word + "-pro-max"@,
                "anthropic-messages"@,
                maker.word + "-sonnet-4-20250514"@,
                maker.title + " Sonnet 4 (Pro/Max)"@,
                200_000,
                64_000,
                200_000,
            )
        },
        ModelView {
            supports_images: true,
            supports_pdf: true,
            thinking: ModelThinkingLevel::High,
            ..listing::chat_model(
                maker.word + "-pro-max"@,
                "anthropic-messages"@,
                maker.word + "-opus-4-20250514"@,
                maker.title + " Opus 4 (Pro/Max)"@,
                200_000,
                32_000,
                200_000,
            )
        },
        ModelView {
            supports_images: true,
            supports_pdf: true,
            thinking: ModelThinkingLevel::High,
            ..listing::chat_model(
                maker.word + "-pro-max"@,
                "anthropic-messages"@,
                maker.word + "-3-7-sonnet-20250219"@,
                maker.title + " 3.7 Sonnet (Pro/Max)"@,
                200_000,
                64_000,
                200_000,
            )
        },
    ]
}

fn default_models(maker: &MakerName) -> (r: Vec<Model>)
    ensures
        views::all(r@) == claude_pro_max_models(maker@),
{
    let mut models: Vec<Model> = Vec::new();
    let mut m: Model = new_chat_model(
        concat(maker.word.as_str(), "-pro-max").as_str(),
        "anthropic-messages",
        concat(maker.word.as_str(), "-sonnet-4-20250514").as_str(),
        concat(maker.title.as_str(), " Sonnet 4 (Pro/Max)").as_str(),
        200_000,
        64_000,
        200_000,
    );
    m.supports_images = true;
    m.supports_pdf = true;
    m.thinking = ModelThinkingLevel::High;
    models.push(m);
    let mut m: Model = new_chat_model(
        concat(maker.word.as_str(), "-pro-max").as_str(),
        "anthropic-messages",
        concat(maker.word.as_str(), "-opus-4-20250514").as_str(),
        concat(maker.title.as_str(), " Opus 4 (Pro/Max)").as_str(),
        200_000,
        32_000,
        200_000,
    );
    m.supports_images = true;
    m.supports_pdf = true;
    m.thinking = ModelThinkingLevel::High;
    models.push(m);
    let mut m: Model = new_chat_model(
        concat(maker.word.as_str(), "-pro-max").as_str(),
        "anthropic-messages",
        concat(maker.word.as_str(), "-3-7-sonnet-20250219").as_str(),
        concat(maker.title.as_str(), " 3.7 Sonnet (Pro/Max)").as_str(),
        200_000,
        64_000,
        200_000,
    );
    m.supports_images = true;
    m.supports_pdf = true;
    m.thinking = ModelThinkingLevel::High;
    models.push(m);
    assert(views::all(models@) =~= claude_pro_max_models(maker@));
    models
}

} // verus!
