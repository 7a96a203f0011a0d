//! What a request to a provider is authorised with.
use vstd::prelude::*;
use crate::auth::types;
use crate::auth::types::{
    clone_opt_texts, AuthResult, AuthResultView, Credential, CredentialView, ModelAuth,
    ModelAuthView, OAuthCredential, OAuthView,
};
use crate::dict;
use crate::dict::Dict;
use crate::text;
use crate::text::{concat, concat3};
use crate::types::ProviderHeaders;
use crate::views;
use crate::views::clone_opt_text;

verus! {

broadcast use crate::views::group_views;

/// What a caller puts in place of what would be found.
pub struct AuthResolutionOverrides {
    pub credential: Option<Credential>,
    pub base_url: Option<String>,
    pub headers: Option<ProviderHeaders>,
}

impl Default for AuthResolutionOverrides {
    fn default() -> (r: AuthResolutionOverrides)
        ensures
            r.credential is None,
            r.base_url is None,
            r.headers is None,
    {
        AuthResolutionOverrides { credential: None, base_url: None, headers: None }
    }
}

/// What went wrong, by its kind.
pub enum ModelsErrorCode {
    Auth(String),
    NotFound(String),
    Network(String),
    InvalidResponse(String),
    Provider(String),
    Other(String),
}

#[verifier::ext_equal]
pub enum ErrorCodeView {
    Auth(Seq<char>),
    NotFound(Seq<char>),
    Network(Seq<char>),
    InvalidResponse(Seq<char>),
    Provider(Seq<char>),
    Other(Seq<char>),
}

impl View for ModelsErrorCode {
    type V = ErrorCodeView;

    open spec fn view(&self) -> ErrorCodeView {
        match *self {
            ModelsErrorCode::Auth(s) => ErrorCodeView::Auth(s@),
            ModelsErrorCode::NotFound(s) => ErrorCodeView::NotFound(s@),
            ModelsErrorCode::Network(s) => ErrorCodeView::Network(s@),
            ModelsErrorCode::InvalidResponse(s) => ErrorCodeView::InvalidResponse(s@),
            ModelsErrorCode::Provider(s) => ErrorCodeView::Provider(s@),
            ModelsErrorCode::Other(s) => ErrorCodeView::Other(s@),
        }
    }
}

/// What an error says.
pub open spec fn error_message(code: ErrorCodeView) -> Seq<char> {
    match code {
        ErrorCodeView::Auth(s) => "auth error: "@ + s,
        ErrorCodeView::NotFound(s) => "not found: "@ + s,
        ErrorCodeView::Network(s) => "network error: "@ + s,
        ErrorCodeView::InvalidResponse(s) => "invalid response: "@ + s,
        ErrorCodeView::Provider(s) => "provider error: "@ + s,
        ErrorCodeView::Other(s) => s,
    }
}

impl ModelsErrorCode {
    /// What an error says.
    pub fn message(&self) -> (r: String)
        ensures
            r@ == error_message(self@),
    {
        match self {
            ModelsErrorCode::Auth(s) => concat("auth error: ", s.as_str()),
            ModelsErrorCode::NotFound(s) => concat("not found: ", s.as_str()),
            ModelsErrorCode::Network(s) => concat("network error: ", s.as_str()),
            ModelsErrorCode::InvalidResponse(s) => concat("invalid response: ", s.as_str()),
            ModelsErrorCode::Provider(s) => concat("provider error: ", s.as_str()),
            ModelsErrorCode::Other(s) => s.clone(),
        }
    }
}

/// What went wrong, and what lies behind it.
pub struct ModelsError {
    pub code: ModelsErrorCode,
    pub source: Option<String>,
}

#[verifier::ext_equal]
pub struct ModelsErrorView {
    pub code: ErrorCodeView,
    pub source: Option<Seq<char>>,
}

impl View for ModelsError {
    type V = ModelsErrorView;

    open spec fn view(&self) -> ModelsErrorView {
        ModelsErrorView { code: self.code@, source: views::opt(self.source) }
    }
}

impl ModelsError {
    /// What the error says.
    pub fn message(&self) -> (r: String)
        ensures
            r@ == error_message(self.code@),
    {
        self.code.message()
    }
}

/// How long before it ends a sign-in is renewed: five minutes.
pub const REFRESH_SKEW_MS: i64 = 300_000;

/// Whether a sign-in ends soon, or does not say when it ends.
pub open spec fn ends_soon(expires: i64, now: i64) -> bool {
    expires == 0 || expires < now + REFRESH_SKEW_MS
}

/// The next step towards what a request is authorised with.
pub enum AuthStep {
    /// Renew the sign-in, keep the renewed one and convert it.
    Refresh(OAuthCredential),
    /// Convert the sign-in.
    Convert(OAuthCredential),
    /// This was found.
    Found(AuthResult),
    /// Ask the provider for what lies around.
    Ambient,
}

pub enum AuthStepView {
    Refresh(OAuthView),
    Convert(OAuthView),
    Found(AuthResultView),
    Ambient,
}

impl View for AuthStep {
    type V = AuthStepView;

    open spec fn view(&self) -> AuthStepView {
        match *self {
            AuthStep::Refresh(o) => AuthStepView::Refresh(o@),
            AuthStep::Convert(o) => AuthStepView::Convert(o@),
            AuthStep::Found(r) => AuthStepView::Found(r@),
            AuthStep::Ambient => AuthStepView::Ambient,
        }
    }
}

/// Nothing was found.
pub open spec fn nothing_found() -> AuthResultView {
    AuthResultView { auth: types::no_auth(), env: None, source: None }
}

/// The first step: a sign-in counts where the provider takes it, and is renewed where
/// it ends soon and can be; a stored key counts for every provider; otherwise a
/// provider that takes keys looks around.
pub open spec fn first_step(
    takes_oauth: bool,
    takes_key: bool,
    stored: Option<CredentialView>,
    now: i64,
) -> AuthStepView {
    match stored {
        Some(CredentialView::OAuth(o)) => if takes_oauth {
            if ends_soon(o.expires, now) && o.refresh.len() > 0 {
                AuthStepView::Refresh(o)
            } else {
                AuthStepView::Convert(o)
            }
        } else if takes_key {
            AuthStepView::Ambient
        } else {
            AuthStepView::Found(nothing_found())
        },
        Some(CredentialView::ApiKey(k)) => AuthStepView::Found(
            AuthResultView {
                auth: ModelAuthView { api_key: k.key, ..types::no_auth() },
                env: k.env,
                source: Some("credential_store"@),
            },
        ),
        None => if takes_key {
            AuthStepView::Ambient
        } else {
            AuthStepView::Found(nothing_found())
        },
    }
}

fn nothing() -> (r: AuthResult)
    ensures
        r@ == nothing_found(),
{
    AuthResult { auth: ModelAuth::default(), env: None, source: None }
}

/// Decides the first step.
pub fn plan_resolution(
    takes_oauth: bool,
    takes_key: bool,
    stored: &Option<Credential>,
    now: i64,
) -> (r: AuthStep)
    ensures
        r@ == first_step(takes_oauth, takes_key, views::opt(*stored), now),
{
    match stored {
        Some(Credential::OAuth(o)) => if takes_oauth {
            let soon: bool = o.inner.expires == 0 || (o.inner.expires as i128) < (now as i128)
                + (REFRESH_SKEW_MS as i128);
            if soon && !o.inner.refresh.as_str().is_empty() {
                AuthStep::Refresh(o.clone())
            } else {
                AuthStep::Convert(o.clone())
            }
        } else if takes_key {
            AuthStep::Ambient
        } else {
            AuthStep::Found(nothing())
        },
        Some(Credential::ApiKey(k)) => AuthStep::Found(
            AuthResult {
                auth: ModelAuth {
                    api_key: clone_opt_text(&k.key),
                    headers: None,
                    base_url: None,
                },
                env: clone_opt_texts(&k.env),
                source: Some("credential_store".to_owned()),
            },
        ),
        None => if takes_key {
            AuthStep::Ambient
        } else {
            AuthStep::Found(nothing())
        },
    }
}

/// Goes on behind a renewal: the renewed sign-in is kept and converted, unless the
/// renewal failed.
pub fn after_refresh(provider_id: &str, outcome: Result<OAuthCredential, String>) -> (r: Result<
    OAuthCredential,
    ModelsError,
>)
    ensures
        match outcome {
            Ok(o) => r is Ok && r->Ok_0@ == o@,
            Err(e) => r is Err && r->Err_0@ == renewal_error(provider_id@, e@),
        },
{
    match outcome {
        Ok(o) => Ok(o),
        Err(e) => {
            let mut m: String = concat3("OAuth token refresh failed for ", provider_id, ": ");
            m.append(e.as_str());
            Err(ModelsError { code: ModelsErrorCode::Auth(m), source: Some(e) })
        },
    }
}

/// Goes on behind a conversion: what was found comes from the store, unless the
/// conversion failed.
pub fn after_conversion(provider_id: &str, outcome: Result<ModelAuth, String>) -> (r: Result<
    AuthResult,
    ModelsError,
>)
    ensures
        match outcome {
            Ok(a) => r is Ok && r->Ok_0@ == (AuthResultView {
                auth: a@,
                env: None,
                source: Some("credential_store"@),
            }),
            Err(e) => r is Err && r->Err_0@ == conversion_error(provider_id@, e@),
        },
{
    match outcome {
        Ok(auth) => Ok(
            AuthResult { auth, env: None, source: Some("credential_store".to_owned()) },
        ),
        Err(e) => {
            let mut m: String = concat3(
                "OAuth credential conversion failed for ",
                provider_id,
                ": ",
            );
            m.append(e.as_str());
            Err(ModelsError { code: ModelsErrorCode::Auth(m), source: Some(e) })
        },
    }
}

/// Goes on behind a look around.
pub fn after_ambient(outcome: Option<AuthResult>) -> (r: AuthResult)
    ensures
        r@ == (match outcome {
            Some(a) => a@,
            None => nothing_found(),
        }),
{
    match outcome {
        Some(a) => a,
        None => nothing(),
    }
}

/// What a request is authorised with, given what was found and what the caller put in
/// its place.
pub open spec fn overridden(
    found: AuthResultView,
    base_url: Option<Seq<char>>,
    headers: Option<Map<Seq<char>, Seq<char>>>,
) -> AuthResultView {
    AuthResultView {
        auth: ModelAuthView {
            api_key: found.auth.api_key,
            base_url: views::first_of(base_url, found.auth.base_url),
            headers: match headers {
                Some(h) => Some(
                    views::or(found.auth.headers, Map::empty()).union_prefer_right(h),
                ),
                None => found.auth.headers,
            },
        },
        env: found.env,
        source: Some(views::or(found.source, "ambient"@)),
    }
}

/// Puts texts over others.
pub fn merge_texts(base: &mut Dict<String>, over: &Dict<String>)
    ensures
        dict::texts(final(base)@) == dict::texts(old(base)@).union_prefer_right(
            dict::texts(over@),
        ),
{
    let ghost had = dict::texts(base@);
    let ghost m = dict::texts(over@);
    let keys: Vec<String> = over.keys();
    let ghost names = views::all(keys@);
    let mut i: usize = 0;
    proof {
        views::lemma_take_all(names);
    }
    while i < keys.len()
        invariant
            i <= keys@.len(),
            names == views::all(keys@),
            m == dict::texts(over@),
            forall|k: Seq<char>| #[trigger] over@.contains_key(k) <==> names.contains(k),
            forall|k: Seq<char>| #[trigger]
                dict::texts(base@).contains_key(k) <==> had.contains_key(k) || names.take(
                    i as int,
                ).contains(k),
            forall|k: Seq<char>| #[trigger]
                dict::texts(base@).contains_key(k) ==> dict::texts(base@)[k] == (if names.take(
                    i as int,
                ).contains(k) {
                    m[k]
                } else {
                    had[k]
                }),
        decreases keys@.len() - i,
    {
        proof {
            views::lemma_take_step(names, i as int);
        }
        let ghost before = dict::texts(base@);
        let ghost key = names[i as int];
        assert(keys@[i as int]@ == key);
        assert(names.contains(key));
        assert(over@.contains_key(key));
        if let Some(v) = over.get_text(keys[i].as_str()) {
            let value: String = v.to_owned();
            base.insert(keys[i].as_str(), value);
            assert(dict::texts(base@) =~= before.insert(key, m[key]));
        }
        proof {
            assert forall|k: Seq<char>|
                names.take(i + 1).contains(k) == (names.take(i as int).contains(k) || k == key) by {
                if names.take(i as int).contains(k) {
                    let n = choose|n: int|
                        0 <= n < names.take(i as int).len() && names.take(i as int)[n] == k;
                    assert(names.take(i + 1)[n] == k);
                }
                if k == key {
                    assert(names.take(i + 1).last() == key);
                }
            }
        }
        i = i + 1;
    }
    proof {
        views::lemma_take_all(names);
        assert forall|k: Seq<char>| #[trigger] m.contains_key(k) <==> names.contains(k) by {
            assert(over@.contains_key(k) <==> names.contains(k));
        }
        assert(dict::texts(base@) =~= had.union_prefer_right(m));
    }
}

/// Puts what the caller gave in the place of what was found.
pub fn apply_overrides(
    found: AuthResult,
    base_url: Option<String>,
    headers: Option<ProviderHeaders>,
) -> (r: AuthResult)
    ensures
        r@ == overridden(found@, views::opt(base_url), crate::types::opt_texts(headers)),
{
    let mut auth: ModelAuth = found.auth;
    if base_url.is_some() {
        auth.base_url = base_url;
    }
    if let Some(h) = headers {
        let mut merged: Dict<String> = match auth.headers {
            Some(m) => m,
            None => {
                let none: Dict<String> = Dict::new();
                assert(dict::texts(none@) =~= Map::<Seq<char>, Seq<char>>::empty());
                none
            },
        };
        merge_texts(&mut merged, &h);
        auth.headers = Some(merged);
    }
    let source: String = match found.source {
        Some(s) => s,
        None => "ambient".to_owned(),
    };
    let r: AuthResult = AuthResult { auth, env: found.env, source: Some(source) };
    assert(r@ =~= overridden(found@, views::opt(base_url), crate::types::opt_texts(headers)));
    r
}

/// How far the search for what a request is authorised with has come.
pub enum ResolutionPhase {
    /// The stored credential is read.
    Reading,
    /// A sign-in is renewed.
    Renewing,
    /// A renewed sign-in is kept.
    Keeping(OAuthCredential),
    /// A sign-in is converted.
    Converting,
    /// The provider looks around.
    Looking,
    /// The search is over.
    Finished,
}

#[verifier::ext_equal]
pub enum PhaseView {
    Reading,
    Renewing,
    Keeping(OAuthView),
    Converting,
    Looking,
    Finished,
}

impl View for ResolutionPhase {
    type V = PhaseView;

    open spec fn view(&self) -> PhaseView {
        match *self {
            ResolutionPhase::Reading => PhaseView::Reading,
            ResolutionPhase::Renewing => PhaseView::Renewing,
            ResolutionPhase::Keeping(o) => PhaseView::Keeping(o@),
            ResolutionPhase::Converting => PhaseView::Converting,
            ResolutionPhase::Looking => PhaseView::Looking,
            ResolutionPhase::Finished => PhaseView::Finished,
        }
    }
}

/// The search for what a request to a provider is authorised with.
pub struct Resolution {
    pub provider_id: String,
    /// Whether the provider takes sign-ins.
    pub takes_oauth: bool,
    /// Whether the provider takes keys.
    pub takes_key: bool,
    /// What the caller puts in place of the base URL that is found.
    pub base_url: Option<String>,
    /// What the caller lays over the headers that are found.
    pub headers: Option<ProviderHeaders>,
    pub phase: ResolutionPhase,
}

#[verifier::ext_equal]
pub struct ResolutionView {
    pub provider_id: Seq<char>,
    pub takes_oauth: bool,
    pub takes_key: bool,
    pub base_url: Option<Seq<char>>,
    pub headers: Option<Map<Seq<char>, Seq<char>>>,
    pub phase: PhaseView,
}

impl View for Resolution {
    type V = ResolutionView;

    open spec fn view(&self) -> ResolutionView {
        ResolutionView {
            provider_id: self.provider_id@,
            takes_oauth: self.takes_oauth,
            takes_key: self.takes_key,
            base_url: views::opt(self.base_url),
            headers: crate::types::opt_texts(self.headers),
            phase: self.phase@,
        }
    }
}

/// What happened.
pub enum ResolutionEvent {
    /// The stored credential was read.
    Stored { credential: Option<Credential>, now: i64 },
    /// The sign-in was renewed, or was not.
    Renewed(Result<OAuthCredential, String>),
    /// The renewed sign-in was kept, as far as that works.
    Kept,
    /// The sign-in was converted, or was not.
    Converted(Result<ModelAuth, String>),
    /// The provider looked around.
    Seen(Option<AuthResult>),
}

#[verifier::ext_equal]
pub enum ResolutionEventView {
    Stored { credential: Option<CredentialView>, now: i64 },
    Renewed(Result<OAuthView, Seq<char>>),
    Kept,
    Converted(Result<ModelAuthView, Seq<char>>),
    Seen(Option<AuthResultView>),
}

impl View for ResolutionEvent {
    type V = ResolutionEventView;

    open spec fn view(&self) -> ResolutionEventView {
        match *self {
            ResolutionEvent::Stored { credential, now } => ResolutionEventView::Stored {
                credential: views::opt(credential),
                now,
            },
            ResolutionEvent::Renewed(r) => ResolutionEventView::Renewed(
                match r {
                    Ok(o) => Ok(o@),
                    Err(e) => Err(e@),
                },
            ),
            ResolutionEvent::Kept => ResolutionEventView::Kept,
            ResolutionEvent::Converted(r) => ResolutionEventView::Converted(
                match r {
                    Ok(a) => Ok(a@),
                    Err(e) => Err(e@),
                },
            ),
            ResolutionEvent::Seen(r) => ResolutionEventView::Seen(views::opt(r)),
        }
    }
}

/// What is to be done.
pub enum ResolutionAction {
    /// Read the stored credential.
    Read,
    Renew(OAuthCredential),
    Keep(OAuthCredential),
    Convert(OAuthCredential),
    /// Ask the provider for what lies around.
    LookAround,
    /// Take this.
    Finish(Result<AuthResult, ModelsError>),
    /// Nothing: what happened is not what was waited for.
    Ignore,
}

#[verifier::ext_equal]
pub enum ResolutionActionView {
    Read,
    Renew(OAuthView),
    Keep(OAuthView),
    Convert(OAuthView),
    LookAround,
    Finish(Result<AuthResultView, ModelsErrorView>),
    Ignore,
}

impl View for ResolutionAction {
    type V = ResolutionActionView;

    open spec fn view(&self) -> ResolutionActionView {
        match *self {
            ResolutionAction::Read => ResolutionActionView::Read,
            ResolutionAction::Renew(o) => ResolutionActionView::Renew(o@),
            ResolutionAction::Keep(o) => ResolutionActionView::Keep(o@),
            ResolutionAction::Convert(o) => ResolutionActionView::Convert(o@),
            ResolutionAction::LookAround => ResolutionActionView::LookAround,
            ResolutionAction::Finish(r) => ResolutionActionView::Finish(
                match r {
                    Ok(a) => Ok(a@),
                    Err(e) => Err(e@),
                },
            ),
            ResolutionAction::Ignore => ResolutionActionView::Ignore,
        }
    }
}

/// The error of a renewal that failed.
pub open spec fn renewal_error(provider_id: Seq<char>, e: Seq<char>) -> ModelsErrorView {
    ModelsErrorView {
        code: ErrorCodeView::Auth("OAuth token refresh failed for "@ + provider_id + ": "@ + e),
        source: Some(e),
    }
}

/// The error of a conversion that failed.
pub open spec fn conversion_error(provider_id: Seq<char>, e: Seq<char>) -> ModelsErrorView {
    ModelsErrorView {
        code: ErrorCodeView::Auth(
            "OAuth credential conversion failed for "@ + provider_id + ": "@ + e,
        ),
        source: Some(e),
    }
}

/// The end of a search: what the caller gave is laid over what was found.
pub open spec fn concluded(v: ResolutionView, r: Result<AuthResultView, ModelsErrorView>) -> (
    ResolutionView,
    ResolutionActionView,
) {
    (
        ResolutionView { base_url: None, headers: None, phase: PhaseView::Finished, ..v },
        ResolutionActionView::Finish(
            match r {
                Ok(found) => Ok(overridden(found, v.base_url, v.headers)),
                Err(e) => Err(e),
            },
        ),
    )
}

/// How a search goes on from the credential that counts.
pub open spec fn planned(v: ResolutionView, stored: Option<CredentialView>, now: i64) -> (
    ResolutionView,
    ResolutionActionView,
) {
    match first_step(v.takes_oauth, v.takes_key, stored, now) {
        AuthStepView::Refresh(o) => (
            ResolutionView { phase: PhaseView::Renewing, ..v },
            ResolutionActionView::Renew(o),
        ),
        AuthStepView::Convert(o) => (
            ResolutionView { phase: PhaseView::Converting, ..v },
            ResolutionActionView::Convert(o),
        ),
        AuthStepView::Ambient => (
            ResolutionView { phase: PhaseView::Looking, ..v },
            ResolutionActionView::LookAround,
        ),
        AuthStepView::Found(r) => concluded(v, Ok(r)),
    }
}

/// How a search goes on: a renewed sign-in is kept, and converted behind that, whether it
/// could be kept or not; a failure ends the search.
pub open spec fn advanced(v: ResolutionView, event: ResolutionEventView) -> (
    ResolutionView,
    ResolutionActionView,
) {
    match (v.phase, event) {
        (PhaseView::Reading, ResolutionEventView::Stored { credential, now }) => planned(
            v,
            credential,
            now,
        ),
        (PhaseView::Renewing, ResolutionEventView::Renewed(Ok(o))) => (
            ResolutionView { phase: PhaseView::Keeping(o), ..v },
            ResolutionActionView::Keep(o),
        ),
        (PhaseView::Renewing, ResolutionEventView::Renewed(Err(e))) => concluded(
            v,
            Err(renewal_error(v.provider_id, e)),
        ),
        (PhaseView::Keeping(o), ResolutionEventView::Kept) => (
            ResolutionView { phase: PhaseView::Converting, ..v },
            ResolutionActionView::Convert(o),
        ),
        (PhaseView::Converting, ResolutionEventView::Converted(Ok(a))) => concluded(
            v,
            Ok(AuthResultView { auth: a, env: None, source: Some("credential_store"@) }),
        ),
        (PhaseView::Converting, ResolutionEventView::Converted(Err(e))) => concluded(
            v,
            Err(conversion_error(v.provider_id, e)),
        ),
        (PhaseView::Looking, ResolutionEventView::Seen(r)) => concluded(
            v,
            Ok(views::or(r, nothing_found())),
        ),
        _ => (v, ResolutionActionView::Ignore),
    }
}

impl Resolution {
    /// Begins the search for what a request is authorised with: a credential that the caller
    /// gives counts, and none is read.
    pub fn begin(
        provider_id: &str,
        takes_oauth: bool,
        takes_key: bool,
        overrides: AuthResolutionOverrides,
        now: i64,
    ) -> (r: (Resolution, ResolutionAction))
        ensures
            ({
                let v = ResolutionView {
                    provider_id: provider_id@,
                    takes_oauth,
                    takes_key,
                    base_url: views::opt(overrides.base_url),
                    headers: crate::types::opt_texts(overrides.headers),
                    phase: PhaseView::Reading,
                };
                (r.0@, r.1@) == match overrides.credential {
                    Some(c) => planned(v, Some(c@), now),
                    None => (v, ResolutionActionView::Read),
                }
            }),
    {
        let start: Resolution = Resolution {
            provider_id: provider_id.to_owned(),
            takes_oauth,
            takes_key,
            base_url: overrides.base_url,
            headers: overrides.headers,
            phase: ResolutionPhase::Reading,
        };
        match overrides.credential {
            Some(c) => start.plan(Some(c), now),
            None => (start, ResolutionAction::Read),
        }
    }

    fn plan(self, stored: Option<Credential>, now: i64) -> (r: (Resolution, ResolutionAction))
        ensures
            (r.0@, r.1@) == planned(self@, views::opt(stored), now),
    {
        match plan_resolution(self.takes_oauth, self.takes_key, &stored, now) {
            AuthStep::Refresh(o) => (
                Resolution { phase: ResolutionPhase::Renewing, ..self },
                ResolutionAction::Renew(o),
            ),
            AuthStep::Convert(o) => (
                Resolution { phase: ResolutionPhase::Converting, ..self },
                ResolutionAction::Convert(o),
            ),
            AuthStep::Ambient => (
                Resolution { phase: ResolutionPhase::Looking, ..self },
                ResolutionAction::LookAround,
            ),
            AuthStep::Found(found) => self.conclude(Ok(found)),
        }
    }

    fn conclude(self, found: Result<AuthResult, ModelsError>) -> (r: (Resolution, ResolutionAction))
        ensures
            (r.0@, r.1@) == concluded(
                self@,
                match found {
                    Ok(a) => Ok(a@),
                    Err(e) => Err(e@),
                },
            ),
    {
        let Resolution { provider_id, takes_oauth, takes_key, base_url, headers, phase: _ } = self;
        let end: Result<AuthResult, ModelsError> = match found {
            Ok(a) => Ok(apply_overrides(a, base_url, headers)),
            Err(e) => Err(e),
        };
        (
            Resolution {
                provider_id,
                takes_oauth,
                takes_key,
                base_url: None,
                headers: None,
                phase: ResolutionPhase::Finished,
            },
            ResolutionAction::Finish(end),
        )
    }

    /// Goes on with the search.
    pub fn step(self, event: ResolutionEvent) -> (r: (Resolution, ResolutionAction))
        ensures
            (r.0@, r.1@) == advanced(self@, event@),
    {
        match (&self.phase, event) {
            (ResolutionPhase::Reading, ResolutionEvent::Stored { credential, now }) => self.plan(
                credential,
                now,
            ),
            (ResolutionPhase::Renewing, ResolutionEvent::Renewed(outcome)) => {
                match after_refresh(self.provider_id.as_str(), outcome) {
                    Ok(o) => {
                        let kept: OAuthCredential = o.clone();
                        (
                            Resolution { phase: ResolutionPhase::Keeping(o), ..self },
                            ResolutionAction::Keep(kept),
                        )
                    },
                    Err(e) => self.conclude(Err(e)),
                }
            },
            (ResolutionPhase::Keeping(o), ResolutionEvent::Kept) => {
                let kept: OAuthCredential = o.clone();
                (
                    Resolution { phase: ResolutionPhase::Converting, ..self },
                    ResolutionAction::Convert(kept),
                )
            },
            (ResolutionPhase::Converting, ResolutionEvent::Converted(outcome)) => {
                let found: Result<AuthResult, ModelsError> = after_conversion(
                    self.provider_id.as_str(),
                    outcome,
                );
                self.conclude(found)
            },
            (ResolutionPhase::Looking, ResolutionEvent::Seen(seen)) => self.conclude(
                Ok(after_ambient(seen)),
            ),
            _ => (self, ResolutionAction::Ignore),
        }
    }
}

/// How many events a search can still wait for.
pub open spec fn events_left(phase: PhaseView) -> nat {
    match phase {
        PhaseView::Reading => 4,
        PhaseView::Renewing => 3,
        PhaseView::Keeping(_) => 2,
        PhaseView::Converting => 1,
        PhaseView::Looking => 1,
        PhaseView::Finished => 0,
    }
}

/// Every search ends: each event that it waited for leaves fewer to wait for, and it is over
/// when, and only when, it says what to take.
pub proof fn law_search_ends(v: ResolutionView, event: ResolutionEventView)
    ensures
        ({
            let (after, action) = advanced(v, event);
            &&& action is Ignore || events_left(after.phase) < events_left(v.phase)
            &&& action is Ignore ==> after == v
            &&& action is Finish <==> after.phase is Finished && !(action is Ignore)
            &&& v.phase is Finished ==> action is Ignore
        }),
{
}

/// A sign-in that was renewed is kept before it is used, and it is the renewed one that is
/// used: neither what the caller gave nor the provider changes on the way.
pub proof fn law_renewed_sign_in_is_kept_and_used(v: ResolutionView, o: OAuthView)
    requires
        v.phase is Renewing,
    ensures
        ({
            let (keeping, kept) = advanced(v, ResolutionEventView::Renewed(Ok(o)));
            let (converting, used) = advanced(keeping, ResolutionEventView::Kept);
            &&& kept == ResolutionActionView::Keep(o)
            &&& used == ResolutionActionView::Convert(o)
            &&& converting == (ResolutionView { phase: PhaseView::Converting, ..v })
        }),
{
}

/// Whatever was found, what the caller gave is laid over it.
pub proof fn law_search_lays_overrides_over(v: ResolutionView, event: ResolutionEventView)
    requires
        advanced(v, event).1 matches ResolutionActionView::Finish(Ok(_)),
    ensures
        exists|found: AuthResultView|
            advanced(v, event).1 == ResolutionActionView::Finish(
                Ok(#[trigger] overridden(found, v.base_url, v.headers)),
            ),
{
    match (v.phase, event) {
        (PhaseView::Reading, ResolutionEventView::Stored { credential, now }) => {
            if let AuthStepView::Found(r) = first_step(
                v.takes_oauth,
                v.takes_key,
                credential,
                now,
            ) {
                assert(advanced(v, event).1 == ResolutionActionView::Finish(
                    Ok(overridden(r, v.base_url, v.headers)),
                ));
            }
        },
        (PhaseView::Converting, ResolutionEventView::Converted(Ok(a))) => {
            let r = AuthResultView { auth: a, env: None, source: Some("credential_store"@) };
            assert(advanced(v, event).1 == ResolutionActionView::Finish(
                Ok(overridden(r, v.base_url, v.headers)),
            ));
        },
        (PhaseView::Looking, ResolutionEventView::Seen(r)) => {
            assert(advanced(v, event).1 == ResolutionActionView::Finish(
                Ok(overridden(views::or(r, nothing_found()), v.base_url, v.headers)),
            ));
        },
        _ => {},
    }
}

/// Every request says where what it is authorised with comes from, and what the caller
/// gave always counts.
pub proof fn law_overrides_count(
    found: AuthResultView,
    base_url: Option<Seq<char>>,
    headers: Option<Map<Seq<char>, Seq<char>>>,
    name: Seq<char>,
)
    ensures
        overridden(found, base_url, headers).source is Some,
        base_url is Some ==> overridden(found, base_url, headers).auth.base_url == base_url,
        headers is Some && headers->0.contains_key(name) ==> {
            let h = overridden(found, base_url, headers).auth.headers;
            h is Some && h->0.contains_key(name) && h->0[name] == headers->0[name]
        },
{
}

/// A sign-in that is good for more than the time that it is renewed ahead is used as
/// it is.
pub proof fn law_good_sign_in_is_not_renewed(o: OAuthView, takes_key: bool, now: i64)
    requires
        o.expires != 0,
        o.expires >= now + REFRESH_SKEW_MS,
    ensures
        first_step(true, takes_key, Some(CredentialView::OAuth(o)), now) == AuthStepView::Convert(
            o,
        ),
{
}

/// A sign-in that can be renewed is renewed whenever it does not say when it ends, has ended, or
/// ends within five minutes, and at no other time; otherwise it is used as it is. Once its
/// renewal is due it stays due.
pub proof fn law_due_sign_in_is_renewed(o: OAuthView, takes_key: bool, now: i64, later: i64)
    ensures
        o.refresh.len() > 0 && (o.expires == 0 || o.expires < now + 300_000) ==> first_step(
            true,
            takes_key,
            Some(CredentialView::OAuth(o)),
            now,
        ) == AuthStepView::Refresh(o),
        o.refresh.len() == 0 || o.expires != 0 && o.expires >= now + 300_000 ==> first_step(
            true,
            takes_key,
            Some(CredentialView::OAuth(o)),
            now,
        ) == AuthStepView::Convert(o),
        o.refresh.len() > 0 && o.expires < now ==> first_step(
            true,
            takes_key,
            Some(CredentialView::OAuth(o)),
            now,
        ) is Refresh,
        now <= later && first_step(true, takes_key, Some(CredentialView::OAuth(o)), now) is Refresh
            ==> first_step(true, takes_key, Some(CredentialView::OAuth(o)), later) is Refresh,
{
}

/// A stored key is used by every provider, with what the environment of the key says; a provider
/// that cannot use what is stored looks around where it takes keys, and finds nothing where it
/// does not.
pub proof fn law_stored_key_is_used(
    takes_oauth: bool,
    takes_key: bool,
    k: types::ApiKeyCredentialView,
    o: OAuthView,
    now: i64,
)
    ensures
        ({
            let step = first_step(takes_oauth, takes_key, Some(CredentialView::ApiKey(k)), now);
            &&& step is Found
            &&& step->Found_0.auth.api_key == k.key
            &&& step->Found_0.auth.base_url is None
            &&& step->Found_0.auth.headers is None
            &&& step->Found_0.env == k.env
            &&& step->Found_0.source == Some("credential_store"@)
        }),
        first_step(takes_oauth, true, None, now) is Ambient,
        first_step(false, true, Some(CredentialView::OAuth(o)), now) is Ambient,
        ({
            let step = first_step(takes_oauth, false, None, now);
            step is Found && step->Found_0.auth.api_key is None && step->Found_0.source is None
        }),
        ({
            let step = first_step(false, false, Some(CredentialView::OAuth(o)), now);
            step is Found && step->Found_0.auth.api_key is None && step->Found_0.source is None
        }),
{
}

/// What the search waits for is what it asked for: a stored sign-in that is due is renewed, one
/// that is good is converted, and without anything stored the provider looks around.
pub proof fn law_search_follows_what_is_stored(
    v: ResolutionView,
    o: OAuthView,
    k: types::ApiKeyCredentialView,
    now: i64,
)
    requires
        v.phase is Reading,
    ensures
        ({
            let stored = |c: Option<CredentialView>|
                advanced(v, ResolutionEventView::Stored { credential: c, now });
            &&& v.takes_oauth && o.refresh.len() > 0 && (o.expires == 0 || o.expires < now
                + 300_000) ==> stored(Some(CredentialView::OAuth(o))).1
                == ResolutionActionView::Renew(o)
            &&& v.takes_oauth && (o.refresh.len() == 0 || o.expires != 0 && o.expires >= now
                + 300_000) ==> stored(Some(CredentialView::OAuth(o))).1
                == ResolutionActionView::Convert(o)
            &&& v.takes_key ==> stored(None).1 is LookAround
            &&& stored(Some(CredentialView::ApiKey(k))).1 is Finish
            &&& stored(Some(CredentialView::ApiKey(k))).1->Finish_0 is Ok
            &&& stored(
                Some(CredentialView::ApiKey(k)),
            ).1->Finish_0->Ok_0.auth.api_key == k.key
        }),
{
}

/// What a request is authorised with is what the conversion of the sign-in or a look around gave:
/// the key and the environment are the found ones, and headers that the caller says nothing of
/// stay.
pub proof fn law_search_takes_what_is_found(
    v: ResolutionView,
    a: ModelAuthView,
    r: AuthResultView,
    name: Seq<char>,
)
    ensures
        v.phase is Converting ==> {
            let (after, action) = advanced(v, ResolutionEventView::Converted(Ok(a)));
            &&& action is Finish
            &&& action->Finish_0 is Ok
            &&& action->Finish_0->Ok_0.auth.api_key == a.api_key
            &&& action->Finish_0->Ok_0.source == Some("credential_store"@)
            &&& v.base_url is None ==> action->Finish_0->Ok_0.auth.base_url == a.base_url
            &&& v.headers is None ==> action->Finish_0->Ok_0.auth.headers == a.headers
            &&& v.headers is Some && a.headers is Some && a.headers->0.contains_key(name)
                && !v.headers->0.contains_key(name) ==> {
                let h = action->Finish_0->Ok_0.auth.headers;
                h is Some && h->0.contains_key(name) && h->0[name] == a.headers->0[name]
            }
        },
        v.phase is Looking ==> {
            let (after, action) = advanced(v, ResolutionEventView::Seen(Some(r)));
            &&& action is Finish
            &&& action->Finish_0 is Ok
            &&& action->Finish_0->Ok_0.auth.api_key == r.auth.api_key
            &&& action->Finish_0->Ok_0.env == r.env
            &&& r.source is Some ==> action->Finish_0->Ok_0.source == r.source
            &&& r.source is None ==> action->Finish_0->Ok_0.source == Some("ambient"@)
            &&& v.base_url is None ==> action->Finish_0->Ok_0.auth.base_url == r.auth.base_url
            &&& v.headers is None ==> action->Finish_0->Ok_0.auth.headers == r.auth.headers
        },
{
}

/// A renewal or a conversion that fails ends the search with a failure that names the provider
/// and says what went wrong.
pub proof fn law_failures_are_told(v: ResolutionView, e: Seq<char>)
    ensures
        v.phase is Renewing ==> {
            let action = advanced(v, ResolutionEventView::Renewed(Err(e))).1;
            &&& action is Finish
            &&& action->Finish_0 is Err
            &&& action->Finish_0->Err_0.source == Some(e)
            &&& action->Finish_0->Err_0.code is Auth
            &&& text::ends(
                action->Finish_0->Err_0.code->Auth_0,
                v.provider_id + ": "@ + e,
            )
        },
        v.phase is Converting ==> {
            let action = advanced(v, ResolutionEventView::Converted(Err(e))).1;
            &&& action is Finish
            &&& action->Finish_0 is Err
            &&& action->Finish_0->Err_0.source == Some(e)
            &&& action->Finish_0->Err_0.code is Auth
            &&& text::ends(
                action->Finish_0->Err_0.code->Auth_0,
                v.provider_id + ": "@ + e,
            )
        },
{
    let tail = v.provider_id + ": "@ + e;
    let a = "OAuth token refresh failed for "@ + v.provider_id + ": "@ + e;
    let b = "OAuth credential conversion failed for "@ + v.provider_id + ": "@ + e;
    assert(a.skip(a.len() - tail.len()) =~= tail);
    assert(b.skip(b.len() - tail.len()) =~= tail);
}

/// A failure says of which kind it is and then what happened; one of no kind says only what
/// happened.
pub proof fn law_failure_says_its_kind(s: Seq<char>)
    ensures
        error_message(ErrorCodeView::Auth(s)) == "auth error: "@ + s,
        error_message(ErrorCodeView::NotFound(s)) == "not found: "@ + s,
        error_message(ErrorCodeView::Network(s)) == "network error: "@ + s,
        error_message(ErrorCodeView::InvalidResponse(s)) == "invalid response: "@ + s,
        error_message(ErrorCodeView::Provider(s)) == "provider error: "@ + s,
        error_message(ErrorCodeView::Other(s)) == s,
{
}

} // verus!
