//! Radius.
use vstd::prelude::*;
use crate::oauth::provider::{build_oauth_provider, GenericOAuthProvider, OAuthProviderSpec};
use crate::providers::listing;
use crate::providers::listing::new_chat_model;
use crate::types::{Model, ModelView};
use crate::views;

verus! {

broadcast use crate::views::group_views;

pub type RadiusProvider = GenericOAuthProvider;

/// What people allow the provider to do.
pub open spec fn scopes() -> Seq<Seq<char>> {
    seq!["openid"@, "profile"@, "offline_access"@]
}

/// The provider Radius.
pub fn radius_provider() -> (r: RadiusProvider)
    ensures
        r.id@ == "radius"@,
        r.name@ == "Radius"@,
        r.config.base_url@ == "https://api.radius.ai/v1"@,
        r.config.client_id@ == "radius-cli"@,
        views::all(r.config.scopes@) == scopes(),
        views::opt(r.config.auth_url) == Some("https://auth.radius.ai/authorize"@),
        views::opt(r.config.token_url) == Some("https://auth.radius.ai/oauth/token"@),
        r.config.device_auth_url is None,
        views::opt(r.config.redirect_uri) == Some("http://localhost:1455/callback"@),
        views::opt(r.config.login_label) == Some("Radius"@),
        r.config.display_name@ == "Radius"@,
        r.config.is_subscription == false,
        r.config.api_label@ == "pi-messages"@,
        r.config.extra_headers is None,
        views::all(r.config.default_models@) == listing::all_filled_in(
            radius_models(),
            "radius"@,
            "pi-messages"@,
        ),
{
    let mut scope_list: Vec<String> = Vec::new();
    scope_list.push("openid".to_owned());
    scope_list.push("profile".to_owned());
    scope_list.push("offline_access".to_owned());
    assert(views::all(scope_list@) =~= scopes());
    build_oauth_provider(
        OAuthProviderSpec {
            id: "radius",
            display_name: "Radius",
            base_url: "https://api.radius.ai/v1",
            client_id: "radius-cli",
            scopes: scope_list,
            auth_url: Some("https://auth.radius.ai/authorize"),
            token_url: Some("https://auth.radius.ai/oauth/token"),
            device_auth_url: None,
            redirect_uri: Some("http://localhost:1455/callback"),
            is_subscription: false,
            login_label: Some("Radius"),
            api_label: "pi-messages",
            default_models: default_models(),
            extra_headers: None,
        },
    )
}

/// The catalogue of Radius.
pub open spec fn radius_models() -> Seq<ModelView> {
    seq![
        ModelView {
            supports_images: true,
            supports_pdf: true,
            ..listing::chat_model(
                "radius"@,
                "pi-messages"@,
                "radius-auto"@,
                "Radius Auto (gateway-selected)"@,
                128_000,
                32_768,
                128_000,
            )
        },
    ]
}

fn default_models() -> (r: Vec<Model>)
    ensures
        views::all(r@) == radius_models(),
{
    let mut models: Vec<Model> = Vec::new();
    let mut m: Model = new_chat_model(
        "radius",
        "pi-messages",
        "radius-auto",
        "Radius Auto (gateway-selected)",
        128_000,
        32_768,
        128_000,
    );
    m.supports_images = true;
    m.supports_pdf = true;
    models.push(m);
    assert(views::all(models@) =~= radius_models());
    models
}

} // verus!
