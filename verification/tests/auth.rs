//! Credentials: how they are kept, found and used.
use otter_ai::auth::context::{default_provider_auth_context, expand_home};
use otter_ai::auth::resolve::{
    after_ambient, after_conversion, after_refresh, apply_overrides, merge_texts, plan_resolution,
    AuthResolutionOverrides, AuthStep, ModelsError, ModelsErrorCode, Resolution, ResolutionAction,
    ResolutionEvent,
};
use otter_ai::auth::store::{
    change_credential, credentials_from_text, credentials_text, find_credential, list_credentials,
    parse_loose_credential,
};
use otter_ai::auth::types::{
    resolve_key, ApiKeyCredential, AuthContext, AuthResult, Credential, ModelAuth,
    OAuthCredential, OAuthCredentials,
};
use otter_ai::dict::Dict;
use otter_ai::json::Json;
use otter_ai::json_text::{parse_json, print_json};

fn json(text: &str) -> Json {
    parse_json(text).ok().unwrap()
}

fn sign_in(refresh: &str, expires: i64) -> OAuthCredential {
    OAuthCredential {
        kind: "oauth".into(),
        inner: OAuthCredentials {
            refresh: refresh.into(),
            access: "acc".into(),
            expires,
            extra: json("{\"account_id\":\"x\"}"),
        },
    }
}

#[test]
fn hand_written_sign_in_is_read() {
    let v = json(
        "{\"type\":\"oauth\",\"access_token\":\"a\",\"refresh_token\":\"r\",\"expires_at\":\"1970-01-01T00:00:01Z\",\"scope\":\"s\"}",
    );
    match parse_loose_credential(&v) {
        Some(Credential::OAuth(o)) => {
            assert_eq!(o.inner.access, "a");
            assert_eq!(o.inner.refresh, "r");
            assert_eq!(o.inner.expires, 1000);
            assert_eq!(o.inner.extra.field_str("scope"), Some("s"));
        }
        _ => panic!("expected a sign-in"),
    }
    assert!(parse_loose_credential(&json("{\"type\":\"oauth\"}")).is_none());
    assert!(parse_loose_credential(&json("{\"type\":\"other\"}")).is_none());
    assert!(parse_loose_credential(&json("3")).is_none());
}

#[test]
fn keys_are_read_under_both_names() {
    for kind in ["api", "api_key"] {
        let v = json(&format!("{{\"type\":\"{}\",\"key\":\"k\",\"env\":{{\"A\":\"1\"}}}}", kind));
        match parse_loose_credential(&v) {
            Some(Credential::ApiKey(k)) => {
                assert_eq!(k.kind, "api_key");
                assert_eq!(k.key.as_deref(), Some("k"));
                assert_eq!(k.env.unwrap().get_text("A"), Some("1"));
            }
            _ => panic!("expected a key"),
        }
    }
}

#[test]
fn credentials_are_read_back() {
    let mut all: Dict<Credential> = Dict::new();
    change_credential(&mut all, "openai", Some(Credential::api_key("k".into())));
    change_credential(&mut all, "chatgpt", Some(Credential::OAuth(sign_in("r", 7))));
    let text = credentials_text(&all);
    assert!(text.contains("\n"));
    let back = credentials_from_text(&text);
    assert_eq!(back.len(), 2);
    match back.get("chatgpt") {
        Some(Credential::OAuth(o)) => {
            assert_eq!(o.inner.access, "acc");
            assert_eq!(o.inner.expires, 7);
            assert_eq!(print_json(&o.inner.extra), "{\"account_id\":\"x\"}");
        }
        _ => panic!("expected a sign-in"),
    }
    assert_eq!(credentials_from_text("nonsense").len(), 0);
    assert_eq!(credentials_from_text("[1]").len(), 0);
}

#[test]
fn credential_is_found_under_an_alias() {
    let mut all: Dict<Credential> = Dict::new();
    change_credential(&mut all, "openai", Some(Credential::api_key("k".into())));
    assert!(find_credential(&all, "chatgpt-plus").is_some());
    assert!(find_credential(&all, "groq").is_none());
    let infos = list_credentials(&all);
    assert_eq!(infos.len(), 1);
    assert_eq!(infos[0].provider_id, "openai");
    change_credential(&mut all, "openai", None);
    assert!(find_credential(&all, "openai").is_none());
}

#[test]
fn sign_in_is_renewed_in_time() {
    let soon = Some(Credential::OAuth(sign_in("r", 1_000)));
    assert!(matches!(plan_resolution(true, false, &soon, 0), AuthStep::Refresh(_)));
    let far = Some(Credential::OAuth(sign_in("r", 300_000)));
    assert!(matches!(plan_resolution(true, false, &far, 0), AuthStep::Convert(_)));
    let unable = Some(Credential::OAuth(sign_in("", 1)));
    assert!(matches!(plan_resolution(true, false, &unable, 5), AuthStep::Convert(_)));
    assert!(matches!(plan_resolution(false, true, &far, 0), AuthStep::Ambient));
    match plan_resolution(false, false, &far, 0) {
        AuthStep::Found(r) => assert!(r.auth.api_key.is_none()),
        _ => panic!("expected nothing"),
    }
    match plan_resolution(false, true, &Some(Credential::api_key("k".into())), 0) {
        AuthStep::Found(r) => {
            assert_eq!(r.auth.api_key.as_deref(), Some("k"));
            assert_eq!(r.source.as_deref(), Some("credential_store"));
        }
        _ => panic!("expected the key"),
    }
}

#[test]
fn failures_are_told_with_the_provider() {
    let e = after_refresh("p", Err("boom".into())).err().unwrap();
    assert_eq!(e.message(), "auth error: OAuth token refresh failed for p: boom");
    assert_eq!(e.source.as_deref(), Some("boom"));
    let e = after_conversion("p", Err("boom".into())).err().unwrap();
    assert_eq!(e.message(), "auth error: OAuth credential conversion failed for p: boom");
    let ok = after_conversion("p", Ok(ModelAuth::default())).ok().unwrap();
    assert_eq!(ok.source.as_deref(), Some("credential_store"));
    assert!(after_refresh("p", Ok(sign_in("r", 1))).is_ok());
    assert!(after_ambient(None).source.is_none());
    for (code, text) in [
        (ModelsErrorCode::NotFound("x".into()), "not found: x"),
        (ModelsErrorCode::Network("x".into()), "network error: x"),
        (ModelsErrorCode::InvalidResponse("x".into()), "invalid response: x"),
        (ModelsErrorCode::Provider("x".into()), "provider error: x"),
        (ModelsErrorCode::Other("x".into()), "x"),
    ] {
        assert_eq!(ModelsError { code, source: None }.message(), text);
    }
}

#[test]
fn overrides_count_more() {
    let mut headers: Dict<String> = Dict::new();
    headers.insert("a", "1".to_string());
    headers.insert("b", "1".to_string());
    let found = AuthResult {
        auth: ModelAuth { api_key: Some("k".into()), headers: Some(headers), base_url: Some("u".into()) },
        env: None,
        source: None,
    };
    let mut over: Dict<String> = Dict::new();
    over.insert("b", "2".to_string());
    let r = apply_overrides(found, Some("v".into()), Some(over));
    assert_eq!(r.auth.base_url.as_deref(), Some("v"));
    let h = r.auth.headers.unwrap();
    assert_eq!(h.get_text("a"), Some("1"));
    assert_eq!(h.get_text("b"), Some("2"));
    let mut base: Dict<String> = Dict::new();
    merge_texts(&mut base, &h);
    assert_eq!(base.len(), 2);
}

#[test]
fn stored_key_counts_more_than_the_environment() {
    let stored = ApiKeyCredential::from_key("s".into());
    let r = resolve_key(Some(&stored), Some("e".into()), "VAR", None, "u".into());
    assert_eq!(r.auth.api_key.as_deref(), Some("s"));
    assert_eq!(r.source.as_deref(), Some("credential_store"));
    let r = resolve_key(None, Some("e".into()), "VAR", None, "u".into());
    assert_eq!(r.auth.api_key.as_deref(), Some("e"));
    assert_eq!(r.source.as_deref(), Some("env:VAR"));
    let r = resolve_key(None, None, "VAR", None, "u".into());
    assert!(r.source.is_none());
}

#[test]
fn surroundings_are_asked() {
    let mut vars: Dict<String> = Dict::new();
    vars.insert("A", "1".to_string());
    let ctx = default_provider_auth_context(vars, vec!["/f".to_string()]);
    assert_eq!(ctx.env("A").as_deref(), Some("1"));
    assert!(ctx.env("B").is_none());
    assert_eq!(expand_home("~/x", Some("/h")), "/h/x");
    assert_eq!(expand_home("/x", Some("/h")), "/x");
}

fn no_overrides() -> AuthResolutionOverrides {
    AuthResolutionOverrides { credential: None, base_url: None, headers: None }
}

fn found(action: ResolutionAction) -> AuthResult {
    match action {
        ResolutionAction::Finish(Ok(r)) => r,
        _ => panic!("expected an end that found something"),
    }
}

fn failure(action: ResolutionAction) -> String {
    match action {
        ResolutionAction::Finish(Err(e)) => e.message(),
        _ => panic!("expected an end that failed"),
    }
}

#[test]
fn renewed_sign_in_is_kept_and_then_used() {
    let over = AuthResolutionOverrides { base_url: Some("v".into()), ..no_overrides() };
    let (s, a) = Resolution::begin("p", true, false, over, 0);
    assert!(matches!(a, ResolutionAction::Read));
    let old = Some(Credential::OAuth(sign_in("r", 1_000)));
    let (s, a) = s.step(ResolutionEvent::Stored { credential: old, now: 0 });
    assert!(matches!(a, ResolutionAction::Renew(o) if o.inner.expires == 1_000));
    let (s, a) = s.step(ResolutionEvent::Renewed(Ok(sign_in("r", 9_000_000))));
    assert!(matches!(a, ResolutionAction::Keep(o) if o.inner.expires == 9_000_000));
    let (s, a) = s.step(ResolutionEvent::Kept);
    assert!(matches!(a, ResolutionAction::Convert(o) if o.inner.expires == 9_000_000));
    let auth = ModelAuth { api_key: Some("k".into()), base_url: Some("u".into()), ..Default::default() };
    let (s, a) = s.step(ResolutionEvent::Converted(Ok(auth)));
    let r = found(a);
    assert_eq!(r.auth.api_key.as_deref(), Some("k"));
    assert_eq!(r.auth.base_url.as_deref(), Some("v"));
    assert_eq!(r.source.as_deref(), Some("credential_store"));
    let (_, a) = s.step(ResolutionEvent::Kept);
    assert!(matches!(a, ResolutionAction::Ignore));
}

#[test]
fn failed_renewal_or_conversion_ends_the_search() {
    let old = || Some(Credential::OAuth(sign_in("r", 1_000)));
    let (s, _) = Resolution::begin("p", true, false, no_overrides(), 0);
    let (s, _) = s.step(ResolutionEvent::Stored { credential: old(), now: 0 });
    let (_, a) = s.step(ResolutionEvent::Renewed(Err("boom".into())));
    assert_eq!(failure(a), "auth error: OAuth token refresh failed for p: boom");
    let over = AuthResolutionOverrides {
        credential: Some(Credential::OAuth(sign_in("r", 300_000))),
        ..no_overrides()
    };
    let (s, a) = Resolution::begin("p", true, false, over, 0);
    assert!(matches!(a, ResolutionAction::Convert(_)));
    let (s, a) = s.step(ResolutionEvent::Seen(None));
    assert!(matches!(a, ResolutionAction::Ignore));
    let (_, a) = s.step(ResolutionEvent::Converted(Err("boom".into())));
    assert_eq!(failure(a), "auth error: OAuth credential conversion failed for p: boom");
}

#[test]
fn given_key_counts_and_otherwise_the_surroundings() {
    let over = AuthResolutionOverrides {
        credential: Some(Credential::api_key("given".into())),
        ..no_overrides()
    };
    let (_, a) = Resolution::begin("p", false, true, over, 0);
    assert_eq!(found(a).auth.api_key.as_deref(), Some("given"));
    let (s, _) = Resolution::begin("p", false, true, no_overrides(), 0);
    let (s, a) = s.step(ResolutionEvent::Stored { credential: None, now: 0 });
    assert!(matches!(a, ResolutionAction::LookAround));
    let (_, a) = s.step(ResolutionEvent::Seen(None));
    assert!(found(a).auth.api_key.is_none());
    let (s, _) = Resolution::begin("p", false, false, no_overrides(), 0);
    let (_, a) = s.step(ResolutionEvent::Stored { credential: None, now: 0 });
    assert_eq!(found(a).source.as_deref(), Some("ambient"));
}
