//! Credentials, and what requests are authorised with.
use vstd::prelude::*;
use crate::dict;
use crate::dict::Dict;
use crate::json::{clone_json, Json, JsonView};
use crate::text::concat;
use crate::types;
use crate::types::{CancellationToken, ProviderEnv, ProviderHeaders};
use crate::views;
use crate::views::clone_opt_text;

verus! {

/// What a request is authorised with.
pub struct ModelAuth {
    pub api_key: Option<String>,
    pub headers: Option<ProviderHeaders>,
    pub base_url: Option<String>,
}

#[verifier::ext_equal]
pub struct ModelAuthView {
    pub api_key: Option<Seq<char>>,
    pub headers: Option<Map<Seq<char>, Seq<char>>>,
    pub base_url: Option<Seq<char>>,
}

impl View for ModelAuth {
    type V = ModelAuthView;

    open spec fn view(&self) -> ModelAuthView {
        ModelAuthView {
            api_key: views::opt(self.api_key),
            headers: types::opt_texts(self.headers),
            base_url: views::opt(self.base_url),
        }
    }
}

/// Nothing to authorise a request with.
pub open spec fn no_auth() -> ModelAuthView {
    ModelAuthView { api_key: None, headers: None, base_url: None }
}

impl Default for ModelAuth {
    fn default() -> (r: ModelAuth)
        ensures
            r@ == no_auth(),
    {
        ModelAuth { api_key: None, headers: None, base_url: None }
    }
}

/// A copy of a map of texts, where there is one.
pub fn clone_opt_texts(o: &Option<Dict<String>>) -> (r: Option<Dict<String>>)
    ensures
        types::opt_texts(r) == types::opt_texts(*o),
{
    match o {
        Some(m) => Some(m.clone_texts()),
        None => None,
    }
}

impl Clone for ModelAuth {
    fn clone(&self) -> (r: ModelAuth)
        ensures
            r@ == self@,
    {
        ModelAuth {
            api_key: clone_opt_text(&self.api_key),
            headers: clone_opt_texts(&self.headers),
            base_url: clone_opt_text(&self.base_url),
        }
    }
}

/// A key, with the environment that belongs to it.
pub struct ApiKeyCredential {
    pub kind: String,
    pub key: Option<String>,
    pub env: Option<ProviderEnv>,
}

#[verifier::ext_equal]
pub struct ApiKeyCredentialView {
    pub kind: Seq<char>,
    pub key: Option<Seq<char>>,
    pub env: Option<Map<Seq<char>, Seq<char>>>,
}

impl View for ApiKeyCredential {
    type V = ApiKeyCredentialView;

    open spec fn view(&self) -> ApiKeyCredentialView {
        ApiKeyCredentialView {
            kind: self.kind@,
            key: views::opt(self.key),
            env: types::opt_texts(self.env),
        }
    }
}

impl Default for ApiKeyCredential {
    fn default() -> (r: ApiKeyCredential)
        ensures
            r@ == (ApiKeyCredentialView { kind: "api_key"@, key: None, env: None }),
    {
        ApiKeyCredential { kind: "api_key".to_owned(), key: None, env: None }
    }
}

impl Clone for ApiKeyCredential {
    fn clone(&self) -> (r: ApiKeyCredential)
        ensures
            r@ == self@,
    {
        ApiKeyCredential {
            kind: self.kind.clone(),
            key: clone_opt_text(&self.key),
            env: clone_opt_texts(&self.env),
        }
    }
}

/// A key alone.
pub open spec fn plain_key(key: Seq<char>) -> ApiKeyCredentialView {
    ApiKeyCredentialView { kind: "api_key"@, key: Some(key), env: None }
}

impl ApiKeyCredential {
    /// A key alone.
    pub fn from_key(key: String) -> (r: ApiKeyCredential)
        ensures
            r@ == plain_key(key@),
    {
        ApiKeyCredential { kind: "api_key".to_owned(), key: Some(key), env: None }
    }
}

/// The tokens of a sign-in; `expires` is in milliseconds since the epoch.
pub struct OAuthCredentials {
    pub refresh: String,
    pub access: String,
    pub expires: i64,
    /// An object with whatever else belongs to the sign-in.
    pub extra: Json,
}

/// A sign-in.
pub struct OAuthCredential {
    pub kind: String,
    pub inner: OAuthCredentials,
}

#[verifier::ext_equal]
pub struct OAuthView {
    pub kind: Seq<char>,
    pub refresh: Seq<char>,
    pub access: Seq<char>,
    pub expires: i64,
    pub extra: JsonView,
}

impl View for OAuthCredential {
    type V = OAuthView;

    open spec fn view(&self) -> OAuthView {
        OAuthView {
            kind: self.kind@,
            refresh: self.inner.refresh@,
            access: self.inner.access@,
            expires: self.inner.expires,
            extra: self.inner.extra@,
        }
    }
}

impl Clone for OAuthCredential {
    fn clone(&self) -> (r: OAuthCredential)
        ensures
            r@ == self@,
    {
        OAuthCredential {
            kind: self.kind.clone(),
            inner: OAuthCredentials {
                refresh: self.inner.refresh.clone(),
                access: self.inner.access.clone(),
                expires: self.inner.expires,
                extra: clone_json(&self.inner.extra),
            },
        }
    }
}

/// What a provider is signed in to with.
pub enum Credential {
    ApiKey(ApiKeyCredential),
    OAuth(OAuthCredential),
}

pub enum CredentialView {
    ApiKey(ApiKeyCredentialView),
    OAuth(OAuthView),
}

impl View for Credential {
    type V = CredentialView;

    open spec fn view(&self) -> CredentialView {
        match *self {
            Credential::ApiKey(k) => CredentialView::ApiKey(k@),
            Credential::OAuth(o) => CredentialView::OAuth(o@),
        }
    }
}

impl Clone for Credential {
    fn clone(&self) -> (r: Credential)
        ensures
            r@ == self@,
    {
        match self {
            Credential::ApiKey(k) => Credential::ApiKey(k.clone()),
            Credential::OAuth(o) => Credential::OAuth(o.clone()),
        }
    }
}

/// The name of a kind of credential.
pub open spec fn credential_kind(c: CredentialView) -> Seq<char> {
    match c {
        CredentialView::ApiKey(_) => "api_key"@,
        CredentialView::OAuth(_) => "oauth"@,
    }
}

impl Credential {
    /// A key alone.
    pub fn api_key(key: String) -> (r: Credential)
        ensures
            r@ == CredentialView::ApiKey(plain_key(key@)),
    {
        Credential::ApiKey(ApiKeyCredential::from_key(key))
    }

    /// The name of the kind of a credential.
    pub fn kind(&self) -> (r: &'static str)
        ensures
            r@ == credential_kind(self@),
    {
        match self {
            Credential::ApiKey(_) => "api_key",
            Credential::OAuth(_) => "oauth",
        }
    }
}

/// That a provider is signed in to, and how.
pub struct CredentialInfo {
    pub provider_id: String,
    pub kind: String,
}

pub struct CredentialInfoView {
    pub provider_id: Seq<char>,
    pub kind: Seq<char>,
}

impl View for CredentialInfo {
    type V = CredentialInfoView;

    open spec fn view(&self) -> CredentialInfoView {
        CredentialInfoView { provider_id: self.provider_id@, kind: self.kind@ }
    }
}

/// What an operation on credentials may be told.
pub struct AuthOperationOptions {
    pub signal: Option<CancellationToken>,
}

impl Default for AuthOperationOptions {
    fn default() -> (r: AuthOperationOptions)
        ensures
            r.signal is None,
    {
        AuthOperationOptions { signal: None }
    }
}

/// What a request is authorised with, and where that comes from.
pub struct AuthResult {
    pub auth: ModelAuth,
    pub env: Option<ProviderEnv>,
    pub source: Option<String>,
}

#[verifier::ext_equal]
pub struct AuthResultView {
    pub auth: ModelAuthView,
    pub env: Option<Map<Seq<char>, Seq<char>>>,
    pub source: Option<Seq<char>>,
}

impl View for AuthResult {
    type V = AuthResultView;

    open spec fn view(&self) -> AuthResultView {
        AuthResultView {
            auth: self.auth@,
            env: types::opt_texts(self.env),
            source: views::opt(self.source),
        }
    }
}

/// That a request could be authorised, and how.
pub struct AuthCheck {
    pub source: Option<String>,
    pub kind: String,
}

pub type AuthType = String;

/// A choice that the user is offered.
pub struct AuthSelectOption {
    pub id: String,
    pub label: String,
    pub description: Option<String>,
}

/// What the user is asked.
pub enum AuthPrompt {
    Text { message: String, placeholder: Option<String>, signal: Option<CancellationToken> },
    Secret { message: String, placeholder: Option<String>, signal: Option<CancellationToken> },
    Select {
        message: String,
        options: Vec<AuthSelectOption>,
        signal: Option<CancellationToken>,
    },
    ManualCode { message: String, placeholder: Option<String>, signal: Option<CancellationToken> },
}

/// A link that the user is shown.
pub struct AuthInfoLink {
    pub url: String,
    pub label: Option<String>,
}

/// What the user is told while signing in.
pub enum AuthEvent {
    Info { message: String, links: Vec<AuthInfoLink> },
    AuthUrl { url: String, instructions: Option<String> },
    DeviceCode {
        user_code: String,
        verification_uri: String,
        interval_seconds: Option<u64>,
        expires_in_seconds: Option<u64>,
    },
    Progress { message: String },
}

/// What can be asked of the surroundings.
pub trait AuthContext {
    fn env(&self, name: &str) -> (r: Option<String>);

    fn file_exists(&self, path: &str) -> (r: bool);
}

/// Whether the surroundings gave this answer when they were asked for a variable.
pub open spec fn env_holds<C: AuthContext>(
    ctx: &C,
    name: Seq<char>,
    answer: Option<String>,
) -> bool {
    exists|n: &str| n@ == name && #[trigger] call_ensures(C::env, (ctx, n), answer)
}

/// Asks the surroundings for a variable.
pub fn ask_env<C: AuthContext>(ctx: &C, name: &str) -> (r: Option<String>)
    ensures
        env_holds(ctx, name@, r),
{
    let r: Option<String> = ctx.env(name);
    assert(call_ensures(C::env, (ctx, name), r));
    r
}

/// Someone who is signing in.
pub trait AuthInteraction {
    fn signal(&self) -> (r: Option<CancellationToken>);

    fn prompt(&self, prompt: AuthPrompt) -> (r: Result<String, String>);

    fn notify(&self, event: AuthEvent);
}

/// A way to authorise requests with a key.
pub trait ApiKeyAuth {
    fn name(&self) -> (r: &str);

    fn login<I: AuthInteraction>(&self, interaction: &I) -> (r: Result<ApiKeyCredential, String>);

    fn check<C: AuthContext>(
        &self,
        ctx: &C,
        credential: Option<&ApiKeyCredential>,
        signal: &CancellationToken,
    ) -> (r: Option<AuthCheck>);

    fn resolve<C: AuthContext>(
        &self,
        ctx: &C,
        credential: Option<&ApiKeyCredential>,
        signal: &CancellationToken,
    ) -> (r: Option<AuthResult>);
}

/// The key that counts: that of the credential, else that of the environment.
pub open spec fn key_found(
    credential: Option<ApiKeyCredentialView>,
    env_key: Option<Seq<char>>,
) -> Option<Seq<char>> {
    match credential {
        Some(c) => views::first_of(c.key, env_key),
        None => env_key,
    }
}

/// Where a key is said to come from: the store where a credential was given, else
/// the variable of the environment.
pub open spec fn key_source(
    credential: Option<ApiKeyCredentialView>,
    env_key: Option<Seq<char>>,
    env_var: Seq<char>,
) -> Option<Seq<char>> {
    if key_found(credential, env_key) is None {
        None
    } else if credential is Some {
        Some("credential_store"@)
    } else {
        Some("env:"@ + env_var)
    }
}

/// What a provider with keys authorises requests with.
pub open spec fn key_result(
    credential: Option<ApiKeyCredentialView>,
    env_key: Option<Seq<char>>,
    env_var: Seq<char>,
    headers: Option<Map<Seq<char>, Seq<char>>>,
    base_url: Seq<char>,
) -> AuthResultView {
    AuthResultView {
        auth: ModelAuthView {
            api_key: key_found(credential, env_key),
            headers,
            base_url: Some(base_url),
        },
        env: None,
        source: key_source(credential, env_key, env_var),
    }
}

/// The view of a credential that may be missing.
pub open spec fn opt_key(credential: Option<&ApiKeyCredential>) -> Option<ApiKeyCredentialView> {
    match credential {
        Some(c) => Some(c@),
        None => None,
    }
}

/// What a provider with keys authorises requests with.
pub fn resolve_key(
    credential: Option<&ApiKeyCredential>,
    env_key: Option<String>,
    env_var: &str,
    headers: Option<ProviderHeaders>,
    base_url: String,
) -> (r: AuthResult)
    ensures
        r@ == key_result(
            opt_key(credential),
            views::opt(env_key),
            env_var@,
            types::opt_texts(headers),
            base_url@,
        ),
{
    let stored: Option<String> = match credential {
        Some(c) => clone_opt_text(&c.key),
        None => None,
    };
    let key: Option<String> = match stored {
        Some(k) => Some(k),
        None => env_key,
    };
    let source: Option<String> = if key.is_none() {
        None
    } else if credential.is_some() {
        Some("credential_store".to_owned())
    } else {
        Some(concat("env:", env_var))
    };
    AuthResult {
        auth: ModelAuth { api_key: key, headers, base_url: Some(base_url) },
        env: None,
        source,
    }
}

/// A key that is stored counts more than one of the environment, and the source says
/// which of them it was wherever a key was found.
pub proof fn law_stored_key_counts_more(
    credential: ApiKeyCredentialView,
    env_key: Option<Seq<char>>,
    env_var: Seq<char>,
    headers: Option<Map<Seq<char>, Seq<char>>>,
    base_url: Seq<char>,
)
    requires
        credential.key is Some,
    ensures
        ({
            let r = key_result(Some(credential), env_key, env_var, headers, base_url);
            r.auth.api_key == credential.key && r.source == Some("credential_store"@)
        }),
{
}

/// Without a stored key that of the environment is used, and its source is the variable; the
/// headers and the address are those of the provider, and without any key no source is named.
pub proof fn law_environment_key_counts_otherwise(
    env_key: Option<Seq<char>>,
    env_var: Seq<char>,
    headers: Option<Map<Seq<char>, Seq<char>>>,
    base_url: Seq<char>,
    credential: Option<ApiKeyCredentialView>,
)
    ensures
        ({
            let r = key_result(credential, env_key, env_var, headers, base_url);
            &&& r.auth.headers == headers
            &&& r.auth.base_url == Some(base_url)
            &&& r.env is None
            &&& credential is None || credential->0.key is None ==> r.auth.api_key == env_key
            &&& credential is None && env_key is Some ==> r.source == Some("env:"@ + env_var)
            &&& r.auth.api_key is None ==> r.source is None
        }),
{
}

/// A stored credential without a key leaves the key to the environment, and still counts as the
/// source; without one the variable is the source.
pub proof fn law_source_follows_the_credential(
    credential: ApiKeyCredentialView,
    env_key: Seq<char>,
    env_var: Seq<char>,
    headers: Option<Map<Seq<char>, Seq<char>>>,
    base_url: Seq<char>,
)
    requires
        credential.key is None,
    ensures
        ({
            let r = key_result(Some(credential), Some(env_key), env_var, headers, base_url);
            r.auth.api_key == Some(env_key) && r.source == Some("credential_store"@)
        }),
        ({
            let r = key_result(Some(credential), None, env_var, headers, base_url);
            r.auth.api_key is None && r.source is None
        }),
{
}

/// A key alone holds the key and nothing else, and is told from a sign-in by its kind.
pub proof fn law_kinds_of_credentials(key: Seq<char>, a: ApiKeyCredentialView, o: OAuthView)
    ensures
        plain_key(key).key == Some(key),
        plain_key(key).env is None,
        credential_kind(CredentialView::ApiKey(a)) == "api_key"@,
        credential_kind(CredentialView::OAuth(o)) == "oauth"@,
{
}

} // verus!
