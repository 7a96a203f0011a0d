//! Signing in, and staying signed in.
use vstd::prelude::*;
use crate::auth::types::{
    clone_opt_texts, AuthResult, AuthResultView, ModelAuth, ModelAuthView, OAuthCredential,
    OAuthCredentials, OAuthView,
};
use crate::codex::token;
use crate::codex::token::extract_account_id;
use crate::json;
use crate::json::{clone_json, Json, JsonView};
use crate::json_text;
use crate::json_text::parse_json;
use crate::oauth::config::OAuthProviderConfig;
use crate::oauth::urlcode;
use crate::oauth::urlcode::{parse_authorization_input, urlencode};
use crate::text;
use crate::text::{concat, concat3, decimal, join, same_text};
use crate::views;

verus! {

broadcast use crate::views::group_views;

/// Where a browser is sent to where the provider does not say.
pub const DEFAULT_BROWSER_REDIRECT: &'static str = "http://localhost:1455/auth/callback";

/// Where a code is sent to where the provider does not say and no browser waits.
pub const DEFAULT_REDIRECT: &'static str = "http://localhost:1455/callback";

/// The wire protocol of the Codex service.
pub const CODEX_API: &'static str = "openai-codex-responses";

/// Where the browser is sent with the code.
pub open spec fn browser_redirect(c: OAuthProviderConfig) -> Seq<char> {
    views::or(views::opt(c.redirect_uri), DEFAULT_BROWSER_REDIRECT@)
}

/// The parameters that a browser asks for authorization with.
pub open spec fn login_parameters(
    c: OAuthProviderConfig,
    challenge: Seq<char>,
    state: Seq<char>,
) -> Seq<(Seq<char>, Seq<char>)> {
    let always = seq![
        ("response_type"@, "code"@),
        ("client_id"@, c.client_id@),
        ("redirect_uri"@, browser_redirect(c)),
        ("scope"@, text::joined(views::all(c.scopes@), " "@)),
        ("code_challenge"@, challenge),
        ("code_challenge_method"@, "S256"@),
        ("state"@, state),
    ];
    if c.api_label@ == CODEX_API@ {
        always + seq![
            ("id_token_add_organizations"@, "true"@),
            ("codex_cli_simplified_flow"@, "true"@),
            ("originator"@, "pi"@),
        ]
    } else {
        always
    }
}

/// A parameter as it is encoded.
pub open spec fn encoded_parameter(p: (Seq<char>, Seq<char>)) -> Seq<char> {
    urlcode::url_encoded(p.0) + "="@ + urlcode::url_encoded(p.1)
}

/// Parameters as they are encoded.
pub open spec fn encoded_query(params: Seq<(Seq<char>, Seq<char>)>) -> Seq<char> {
    text::joined(params.map_values(|p: (Seq<char>, Seq<char>)| encoded_parameter(p)), "&"@)
}

/// Where a browser asks for authorization.
pub open spec fn browser_url(c: OAuthProviderConfig, challenge: Seq<char>, state: Seq<char>) -> Seq<
    char,
> {
    views::or(views::opt(c.auth_url), Seq::empty()) + "?"@ + encoded_query(
        login_parameters(c, challenge, state),
    )
}

fn push_parameter(
    parts: &mut Vec<String>,
    name: &str,
    value: &str,
)
    ensures
        views::all(final(parts)@) == views::all(old(parts)@).push(
            encoded_parameter((name@, value@)),
        ),
{
    let part: String = concat3(urlencode(name).as_str(), "=", urlencode(value).as_str());
    parts.push(part);
}

fn browser_redirect_exec(c: &OAuthProviderConfig) -> (r: String)
    ensures
        r@ == browser_redirect(*c),
{
    match &c.redirect_uri {
        Some(u) => u.clone(),
        None => DEFAULT_BROWSER_REDIRECT.to_owned(),
    }
}

/// What someone who signs in with a browser is shown and asked.
pub struct BrowserLogin {
    pub url: String,
    pub instructions: String,
    pub prompt: String,
    pub placeholder: String,
}

/// Prepares a sign-in with a browser.
pub fn start_browser_login(c: &OAuthProviderConfig, challenge: &str, state: &str) -> (r: BrowserLogin)
    ensures
        r.url@ == browser_url(*c, challenge@, state@),
        r.instructions@ == "A browser window should open. Complete login for "@ + c.display_name@
            + " to finish."@,
        r.prompt@
            == "Complete login in your browser, or paste the authorization code / redirect URL here:"@,
        r.placeholder@ == browser_redirect(*c),
{
    let redirect: String = browser_redirect_exec(c);
    let scope: String = join(&c.scopes, " ");
    let mut parts: Vec<String> = Vec::new();
    push_parameter(&mut parts, "response_type", "code");
    push_parameter(&mut parts, "client_id", c.client_id.as_str());
    push_parameter(&mut parts, "redirect_uri", redirect.as_str());
    push_parameter(&mut parts, "scope", scope.as_str());
    push_parameter(&mut parts, "code_challenge", challenge);
    push_parameter(&mut parts, "code_challenge_method", "S256");
    push_parameter(&mut parts, "state", state);
    if same_text(c.api_label.as_str(), CODEX_API) {
        push_parameter(&mut parts, "id_token_add_organizations", "true");
        push_parameter(&mut parts, "codex_cli_simplified_flow", "true");
        push_parameter(&mut parts, "originator", "pi");
    }
    assert(views::all(parts@) =~= login_parameters(*c, challenge@, state@).map_values(
        |p: (Seq<char>, Seq<char>)| encoded_parameter(p),
    ));
    let mut url: String = match &c.auth_url {
        Some(u) => u.clone(),
        None => String::new(),
    };
    url.append("?");
    url.append(join(&parts, "&").as_str());
    BrowserLogin {
        url,
        instructions: concat3(
            "A browser window should open. Complete login for ",
            c.display_name.as_str(),
            " to finish.",
        ),
        prompt:
            "Complete login in your browser, or paste the authorization code / redirect URL here:".to_owned(),
        placeholder: redirect,
    }
}

/// The code that the page of the browser brought.
pub fn code_from_callback(outcome: Option<Result<String, String>>) -> (r: Result<String, String>)
    ensures
        match outcome {
            Some(Ok(code)) => r is Ok && r->Ok_0@ == code@,
            Some(Err(e)) => r is Err && r->Err_0@ == "OAuth callback error: "@ + e@,
            None => r is Err && r->Err_0@ == "OAuth callback server shut down unexpectedly"@,
        },
{
    match outcome {
        Some(Ok(code)) => Ok(code),
        Some(Err(e)) => Err(concat("OAuth callback error: ", e.as_str())),
        None => Err("OAuth callback server shut down unexpectedly".to_owned()),
    }
}

/// The code out of what was read of a pasted text: another state is refused, and so is
/// a missing code.
pub open spec fn accepted_code(
    code: Option<Seq<char>>,
    brought: Option<Seq<char>>,
    state: Seq<char>,
) -> Result<Seq<char>, Seq<char>> {
    if brought is Some && brought->0 != state {
        Err("OAuth state mismatch"@)
    } else {
        match code {
            Some(c) => Ok(c),
            None => Err("Missing authorization code"@),
        }
    }
}

/// Checks what was read of a pasted text.
pub fn accept_code(code: Option<String>, brought: Option<String>, state: &str) -> (r: Result<
    String,
    String,
>)
    ensures
        match r {
            Ok(c) => accepted_code(views::opt(code), views::opt(brought), state@) == Ok::<
                Seq<char>,
                Seq<char>,
            >(c@),
            Err(e) => accepted_code(views::opt(code), views::opt(brought), state@) == Err::<
                Seq<char>,
                Seq<char>,
            >(e@),
        },
{
    if let Some(s) = &brought {
        if !same_text(s.as_str(), state) {
            return Err("OAuth state mismatch".to_owned());
        }
    }
    match code {
        Some(c) => Ok(c),
        None => Err("Missing authorization code".to_owned()),
    }
}

/// The code that someone pasted.
pub fn code_from_input(input: &str, state: &str) -> (r: Result<String, String>)
    ensures
        ({
            let (code, brought) = urlcode::pasted(input@);
            match r {
                Ok(c) => accepted_code(code, brought, state@) == Ok::<Seq<char>, Seq<char>>(c@),
                Err(e) => accepted_code(code, brought, state@) == Err::<Seq<char>, Seq<char>>(e@),
            }
        }),
{
    let (code, brought): (Option<String>, Option<String>) = parse_authorization_input(input);
    accept_code(code, brought, state)
}

/// A request for tokens: where to, and its body.
pub struct TokenRequest {
    pub url: String,
    pub body: String,
}

/// The body of a request that exchanges a code for tokens.
pub open spec fn exchange_body(
    c: OAuthProviderConfig,
    code: Seq<char>,
    verifier: Seq<char>,
) -> Seq<char> {
    "grant_type=authorization_code&client_id="@ + urlcode::url_encoded(c.client_id@) + "&code="@
        + urlcode::url_encoded(code) + "&code_verifier="@ + urlcode::url_encoded(verifier)
        + "&redirect_uri="@ + urlcode::url_encoded(browser_redirect(c))
}

fn no_token_url(c: &OAuthProviderConfig) -> (r: String)
    ensures
        r@ == "No token URL configured for "@ + c.display_name@,
{
    concat("No token URL configured for ", c.display_name.as_str())
}

/// The request that exchanges a code for tokens.
pub fn exchange_request(c: &OAuthProviderConfig, code: &str, verifier: &str) -> (r: Result<
    TokenRequest,
    String,
>)
    ensures
        match c.token_url {
            Some(u) => r is Ok && r->Ok_0.url@ == u@ && r->Ok_0.body@ == exchange_body(
                *c,
                code@,
                verifier@,
            ),
            None => r is Err && r->Err_0@ == "No token URL configured for "@ + c.display_name@,
        },
{
    match &c.token_url {
        Some(u) => {
            let mut body: String = concat(
                "grant_type=authorization_code&client_id=",
                urlencode(c.client_id.as_str()).as_str(),
            );
            body.append("&code=");
            body.append(urlencode(code).as_str());
            body.append("&code_verifier=");
            body.append(urlencode(verifier).as_str());
            body.append("&redirect_uri=");
            body.append(urlencode(browser_redirect_exec(c).as_str()).as_str());
            Ok(TokenRequest { url: u.clone(), body })
        },
        None => Err(no_token_url(c)),
    }
}

/// The body of a request that renews tokens.
pub open spec fn refresh_body(c: OAuthProviderConfig, refresh: Seq<char>) -> Seq<char> {
    "grant_type=refresh_token&refresh_token="@ + urlcode::url_encoded(refresh) + "&client_id="@
        + urlcode::url_encoded(c.client_id@)
}

/// The request that renews tokens.
pub fn refresh_request(c: &OAuthProviderConfig, credential: &OAuthCredential) -> (r: Result<
    TokenRequest,
    String,
>)
    ensures
        match c.token_url {
            Some(u) => if credential@.refresh.len() == 0 {
                r is Err && r->Err_0@ == "No refresh token available for "@ + c.display_name@
            } else {
                r is Ok && r->Ok_0.url@ == u@ && r->Ok_0.body@ == refresh_body(
                    *c,
                    credential@.refresh,
                )
            },
            None => r is Err && r->Err_0@ == "No token URL configured for "@ + c.display_name@,
        },
{
    match &c.token_url {
        Some(u) => {
            if credential.inner.refresh.as_str().is_empty() {
                return Err(
                    concat("No refresh token available for ", c.display_name.as_str()),
                );
            }
            let mut body: String = concat(
                "grant_type=refresh_token&refresh_token=",
                urlencode(credential.inner.refresh.as_str()).as_str(),
            );
            body.append("&client_id=");
            body.append(urlencode(c.client_id.as_str()).as_str());
            Ok(TokenRequest { url: u.clone(), body })
        },
        None => Err(no_token_url(c)),
    }
}

/// What tokens are asked for.
#[derive(Debug, Clone, Copy, PartialEq, Eq, Structural)]
pub enum TokenPurpose {
    Exchange,
    Refresh,
}

/// The name of what tokens are asked for.
pub open spec fn purpose_name(p: TokenPurpose) -> Seq<char> {
    match p {
        TokenPurpose::Exchange => "exchange"@,
        TokenPurpose::Refresh => "refresh"@,
    }
}

fn purpose_text(p: TokenPurpose) -> (r: &'static str)
    ensures
        r@ == purpose_name(p),
{
    match p {
        TokenPurpose::Exchange => "exchange",
        TokenPurpose::Refresh => "refresh",
    }
}

/// What is said of a request for tokens that could not be made.
pub fn token_request_failed(c: &OAuthProviderConfig, p: TokenPurpose, error: &str) -> (r: String)
    ensures
        r@ == c.display_name@ + " token "@ + purpose_name(p) + " error: "@ + error@,
{
    let mut m: String = concat3(c.display_name.as_str(), " token ", purpose_text(p));
    m.append(" error: ");
    m.append(error);
    m
}

/// What is said of a request for tokens that was refused.
pub fn token_request_refused(c: &OAuthProviderConfig, p: TokenPurpose, status: u16, body: &str) -> (r:
    String)
    ensures
        r@ == c.display_name@ + " token "@ + purpose_name(p) + " failed ("@ + text::decimal_text(
            status as nat,
        ) + "): "@ + body@,
{
    let mut m: String = concat3(c.display_name.as_str(), " token ", purpose_text(p));
    m.append(" failed (");
    m.append(decimal(status as u64).as_str());
    m.append("): ");
    m.append(body);
    m
}

/// What is said of an answer to a request for tokens that is no JSON.
pub open spec fn invalid_answer(c: &OAuthProviderConfig, p: TokenPurpose, error: Seq<char>) -> Seq<
    char,
> {
    "Invalid token "@ + purpose_name(p) + " response for "@ + c.display_name@ + ": "@ + error
}

/// What is said of an answer to a request for tokens that is no JSON.
pub fn token_response_invalid(c: &OAuthProviderConfig, p: TokenPurpose, error: &str) -> (r: String)
    ensures
        r@ == invalid_answer(c, p, error@),
{
    let mut m: String = concat3("Invalid token ", purpose_text(p), " response for ");
    m.append(c.display_name.as_str());
    m.append(": ");
    m.append(error);
    m
}

/// What is said of an answer to a request for tokens that lacks a field.
pub open spec fn token_field_missing(p: TokenPurpose, field: Seq<char>) -> Seq<char> {
    "Token "@ + purpose_name(p) + " response missing "@ + field
}

fn missing_field(p: TokenPurpose, field: &str) -> (r: String)
    ensures
        r@ == token_field_missing(p, field@),
{
    let mut m: String = concat3("Token ", purpose_text(p), " response missing ");
    m.append(field);
    m
}

/// How long tokens are good, as an answer says it.
pub open spec fn lifetime(answer: JsonView) -> Option<i64> {
    match answer.get("expires_in"@) {
        Some(v) => v.signed(),
        None => None,
    }
}

/// When tokens end that are good for so many seconds from `now`.
pub open spec fn end_of(now: i64, seconds: i64) -> int {
    now + seconds * 1000
}

/// Whether the time when the tokens of an answer end can be told.
pub open spec fn end_fits(answer: JsonView, now: i64) -> bool {
    match lifetime(answer) {
        Some(s) => i64::MIN <= end_of(now, s) <= i64::MAX,
        None => true,
    }
}

/// Whether the time when the tokens of an answer end can be told.
pub fn end_is_representable(answer: &Json, now: i64) -> (r: bool)
    ensures
        r == end_fits(answer@, now),
{
    let seconds: Option<i64> = match answer.get("expires_in") {
        Some(v) => v.as_i64(),
        None => None,
    };
    match seconds {
        Some(s) => {
            let end: i128 = (now as i128) + (s as i128) * 1000;
            (i64::MIN as i128) <= end && end <= (i64::MAX as i128)
        },
        None => true,
    }
}

/// What else belongs to a sign-in, with the account that its token names.
pub open spec fn with_account(
    extra: JsonView,
    account: Result<Seq<char>, Seq<char>>,
) -> JsonView {
    match account {
        Ok(id) => extra.with("account_id"@, json::jtext(id)),
        Err(_) => extra,
    }
}

/// The sign-in that an answer to a request for tokens makes, given the account that
/// its token names.
pub open spec fn sign_in(
    answer: JsonView,
    p: TokenPurpose,
    extra: JsonView,
    account: Result<Seq<char>, Seq<char>>,
    now: i64,
) -> Result<OAuthView, Seq<char>> {
    match answer.field_text("access_token"@) {
        None => Err(token_field_missing(p, "access_token"@)),
        Some(access) => match answer.field_text("refresh_token"@) {
            None => Err(token_field_missing(p, "refresh_token"@)),
            Some(refresh) => match lifetime(answer) {
                None => Err(token_field_missing(p, "expires_in"@)),
                Some(s) => Ok(
                    OAuthView {
                        kind: "oauth"@,
                        refresh,
                        access,
                        expires: end_of(now, s) as i64,
                        extra: with_account(extra, account),
                    },
                ),
            },
        },
    }
}

/// The sign-in that an answer to a request for tokens makes, given the account that
/// its token names.
pub fn sign_in_with_account(
    answer: &Json,
    p: TokenPurpose,
    extra: &Json,
    account: Result<String, String>,
    now: i64,
) -> (r: Result<OAuthCredential, String>)
    requires
        end_fits(answer@, now),
    ensures
        ({
            let named = match account {
                Ok(id) => Ok::<Seq<char>, Seq<char>>(id@),
                Err(e) => Err(e@),
            };
            match r {
                Ok(c) => sign_in(answer@, p, extra@, named, now) == Ok::<OAuthView, Seq<char>>(c@),
                Err(e) => sign_in(answer@, p, extra@, named, now) == Err::<OAuthView, Seq<char>>(
                    e@,
                ),
            }
        }),
{
    let access: &str = match answer.field_str("access_token") {
        Some(s) => s,
        None => return Err(missing_field(p, "access_token")),
    };
    let refresh: &str = match answer.field_str("refresh_token") {
        Some(s) => s,
        None => return Err(missing_field(p, "refresh_token")),
    };
    let seconds: i64 = match answer.get("expires_in") {
        Some(v) => match v.as_i64() {
            Some(s) => s,
            None => return Err(missing_field(p, "expires_in")),
        },
        None => return Err(missing_field(p, "expires_in")),
    };
    let mut more: Json = clone_json(extra);
    if let Ok(id) = account {
        more.set("account_id", Json::string(id));
    }
    let end: i128 = (now as i128) + (seconds as i128) * 1000;
    Ok(
        OAuthCredential {
            kind: "oauth".to_owned(),
            inner: OAuthCredentials {
                refresh: refresh.to_owned(),
                access: access.to_owned(),
                expires: end as i64,
                extra: more,
            },
        },
    )
}

/// The account that the token of an answer names.
pub open spec fn named_account(answer: JsonView) -> Result<Seq<char>, Seq<char>> {
    match answer.field_text("access_token"@) {
        Some(access) => token::token_account_id(access),
        None => Err(Seq::empty()),
    }
}

/// The sign-in that an answer to a request for tokens makes. What else belonged to the
/// sign-in before stays with it.
pub fn sign_in_from_answer(answer: &Json, p: TokenPurpose, extra: &Json, now: i64) -> (r: Result<
    OAuthCredential,
    String,
>)
    requires
        end_fits(answer@, now),
    ensures
        match r {
            Ok(c) => sign_in(answer@, p, extra@, named_account(answer@), now) == Ok::<
                OAuthView,
                Seq<char>,
            >(c@),
            Err(e) => sign_in(answer@, p, extra@, named_account(answer@), now) == Err::<
                OAuthView,
                Seq<char>,
            >(e@),
        },
{
    let account: Result<String, String> = match answer.field_str("access_token") {
        Some(access) => extract_account_id(access),
        None => {
            let none: String = String::new();
            assert(none@ =~= Seq::<char>::empty());
            Err(none)
        },
    };
    sign_in_with_account(answer, p, extra, account, now)
}

/// The sign-in that the text of an answer to a request for tokens makes; none where the
/// answer reads as JSON but the time when its tokens end cannot be told.
pub fn sign_in_from_text(
    c: &OAuthProviderConfig,
    text: &str,
    p: TokenPurpose,
    extra: &Json,
    now: i64,
) -> (r: Option<Result<OAuthCredential, String>>)
    ensures
        match json_text::json_of_text(text@) {
            Ok(answer) => if end_fits(answer, now) {
                r is Some && match r->0 {
                    Ok(o) => sign_in(answer, p, extra@, named_account(answer), now) == Ok::<
                        OAuthView,
                        Seq<char>,
                    >(o@),
                    Err(e) => sign_in(answer, p, extra@, named_account(answer), now) == Err::<
                        OAuthView,
                        Seq<char>,
                    >(e@),
                }
            } else {
                r is None
            },
            Err(e) => r is Some && r->0 is Err && r->0->Err_0@ == invalid_answer(c, p, e),
        },
{
    match parse_json(text) {
        Ok(answer) => if end_is_representable(&answer, now) {
            Some(sign_in_from_answer(&answer, p, extra, now))
        } else {
            None
        },
        Err(e) => Some(Err(token_response_invalid(c, p, e.as_str()))),
    }
}

/// How someone signs in.
pub enum LoginPlan {
    /// With a browser that is waited for.
    Browser,
    /// By pasting a code, having been shown an address.
    Paste { url: String, instructions: String },
    /// By pasting a token, having been told so.
    Token { message: String },
}

pub enum LoginPlanView {
    Browser,
    Paste { url: Seq<char>, instructions: Seq<char> },
    Token { message: Seq<char> },
}

impl View for LoginPlan {
    type V = LoginPlanView;

    open spec fn view(&self) -> LoginPlanView {
        match *self {
            LoginPlan::Browser => LoginPlanView::Browser,
            LoginPlan::Paste { url, instructions } => LoginPlanView::Paste {
                url: url@,
                instructions: instructions@,
            },
            LoginPlan::Token { message } => LoginPlanView::Token { message: message@ },
        }
    }
}

/// Where authorization is asked for where no browser is waited for.
pub open spec fn auth_address(c: OAuthProviderConfig) -> Seq<char> {
    views::or(views::opt(c.auth_url), Seq::empty()) + "?client_id="@ + c.client_id@
        + "&redirect_uri="@ + views::or(views::opt(c.redirect_uri), DEFAULT_REDIRECT@)
        + "&response_type=code&scope="@ + text::joined(views::all(c.scopes@), " "@)
}

/// Where authorization is asked for where no browser is waited for.
pub fn build_auth_url(c: &OAuthProviderConfig) -> (r: String)
    ensures
        r@ == auth_address(*c),
{
    let mut url: String = match &c.auth_url {
        Some(u) => u.clone(),
        None => String::new(),
    };
    url.append("?client_id=");
    url.append(c.client_id.as_str());
    url.append("&redirect_uri=");
    match &c.redirect_uri {
        Some(u) => {
            url.append(u.as_str());
        },
        None => {
            url.append(DEFAULT_REDIRECT);
        },
    }
    url.append("&response_type=code&scope=");
    url.append(join(&c.scopes, " ").as_str());
    url
}

/// How someone signs in to a provider: a device where it takes one, else a browser
/// where codes can be exchanged, else by hand.
pub open spec fn planned_login(c: OAuthProviderConfig) -> LoginPlanView {
    match c.device_auth_url {
        Some(u) => LoginPlanView::Paste {
            url: u@,
            instructions: "Open "@ + u@ + " to start device authorization for "@ + c.display_name@
                + ", then paste the code below."@,
        },
        None => if c.auth_url is Some && c.token_url is Some {
            LoginPlanView::Browser
        } else if c.auth_url is Some {
            LoginPlanView::Paste {
                url: auth_address(c),
                instructions: "Open this URL to authorize "@ + c.display_name@
                    + ", then paste the redirect URL or authorization code below."@,
            }
        } else {
            LoginPlanView::Token {
                message: "Manual login for "@ + c.display_name@
                    + ". Paste an OAuth access token below."@,
            }
        },
    }
}

/// Decides how someone signs in to a provider.
pub fn plan_login(c: &OAuthProviderConfig) -> (r: LoginPlan)
    ensures
        r@ == planned_login(*c),
{
    match &c.device_auth_url {
        Some(u) => {
            let mut instructions: String = concat3(
                "Open ",
                u.as_str(),
                " to start device authorization for ",
            );
            instructions.append(c.display_name.as_str());
            instructions.append(", then paste the code below.");
            LoginPlan::Paste { url: u.clone(), instructions }
        },
        None => if c.auth_url.is_some() && c.token_url.is_some() {
            LoginPlan::Browser
        } else if c.auth_url.is_some() {
            LoginPlan::Paste {
                url: build_auth_url(c),
                instructions: concat3(
                    "Open this URL to authorize ",
                    c.display_name.as_str(),
                    ", then paste the redirect URL or authorization code below.",
                ),
            }
        } else {
            LoginPlan::Token {
                message: concat3(
                    "Manual login for ",
                    c.display_name.as_str(),
                    ". Paste an OAuth access token below.",
                ),
            }
        },
    }
}

/// What someone who pastes a code is asked.
pub fn paste_prompt(c: &OAuthProviderConfig) -> (r: String)
    ensures
        r@ == "Paste the authorization code or token for "@ + c.display_name@ + ":"@,
{
    concat3("Paste the authorization code or token for ", c.display_name.as_str(), ":")
}

/// The sign-in out of a code that was pasted. It has ended already, so that it is
/// renewed when it is first used.
pub open spec fn pasted_sign_in(c: OAuthProviderConfig, code: Seq<char>) -> OAuthView {
    OAuthView {
        kind: "oauth"@,
        refresh: Seq::empty(),
        access: code,
        expires: 0,
        extra: JsonView::object().with_opt(
            "token_url"@,
            match c.token_url {
                Some(u) => Some(json::jtext(u@)),
                None => None,
            },
        ),
    }
}

/// The sign-in out of a code that was pasted.
pub fn sign_in_from_paste(c: &OAuthProviderConfig, code: String) -> (r: OAuthCredential)
    ensures
        r@ == pasted_sign_in(*c, code@),
{
    let mut extra: Json = Json::object();
    if let Some(u) = &c.token_url {
        extra.set("token_url", Json::text(u.as_str()));
    }
    let refresh: String = String::new();
    assert(refresh@ =~= Seq::<char>::empty());
    OAuthCredential {
        kind: "oauth".to_owned(),
        inner: OAuthCredentials { refresh, access: code, expires: 0, extra },
    }
}

/// What requests are authorised with by a sign-in.
pub open spec fn sign_in_auth(c: OAuthProviderConfig, access: Seq<char>) -> ModelAuthView {
    ModelAuthView {
        api_key: Some(access),
        headers: crate::types::opt_texts(c.extra_headers),
        base_url: Some(c.base_url@),
    }
}

/// What requests are authorised with by a sign-in.
pub fn to_auth(c: &OAuthProviderConfig, credential: &OAuthCredential) -> (r: ModelAuth)
    ensures
        r@ == sign_in_auth(*c, credential@.access),
{
    ModelAuth {
        api_key: Some(credential.inner.access.clone()),
        headers: clone_opt_texts(&c.extra_headers),
        base_url: Some(c.base_url.clone()),
    }
}

/// What requests are authorised with by a sign-in, and that it comes from the store.
pub fn resolve_oauth_auth(c: &OAuthProviderConfig, credential: &OAuthCredential) -> (r: AuthResult)
    ensures
        r@ == (AuthResultView {
            auth: sign_in_auth(*c, credential@.access),
            env: None,
            source: Some("credential_store"@),
        }),
{
    AuthResult {
        auth: to_auth(c, credential),
        env: None,
        source: Some("credential_store".to_owned()),
    }
}

/// A code that comes with another state than the one sent is never exchanged.
pub proof fn law_other_state_is_refused(
    code: Option<Seq<char>>,
    brought: Seq<char>,
    state: Seq<char>,
)
    requires
        brought != state,
    ensures
        accepted_code(code, Some(brought), state) is Err,
{
}

/// A renewal keeps what else belongs to a sign-in, but for the account, which is the
/// one that the new token names, where it names one.
pub proof fn law_renewal_keeps_the_rest(
    answer: JsonView,
    extra: JsonView,
    account: Result<Seq<char>, Seq<char>>,
    now: i64,
    name: Seq<char>,
)
    requires
        sign_in(answer, TokenPurpose::Refresh, extra, account, now) is Ok,
        extra is Object,
        name != "account_id"@,
    ensures
        sign_in(answer, TokenPurpose::Refresh, extra, account, now)->Ok_0.extra.get(name)
            == extra.get(name),
{
}

} // verus!
