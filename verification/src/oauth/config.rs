//! The description of a provider that a user signs in to.
use vstd::prelude::*;
use crate::types::{Model, ProviderHeaders};

verus! {

/// Endpoints, client and catalogue of a provider that a user signs in to.
pub struct OAuthProviderConfig {
    pub base_url: String,
    pub client_id: String,
    pub scopes: Vec<String>,
    /// Where a browser asks for authorization.
    pub auth_url: Option<String>,
    /// Where a code or a refresh token is exchanged for an access token.
    pub token_url: Option<String>,
    /// Where a device asks for authorization.
    pub device_auth_url: Option<String>,
    /// Where the browser is sent with the code.
    pub redirect_uri: Option<String>,
    pub display_name: String,
    pub is_subscription: bool,
    pub login_label: Option<String>,
    /// The wire protocol of the provider.
    pub api_label: String,
    /// Headers of every request.
    pub extra_headers: Option<ProviderHeaders>,
    pub default_models: Vec<Model>,
}

} // verus!
