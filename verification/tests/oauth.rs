//! Signing in with a browser.
use otter_ai::auth::types::{OAuthCredential, OAuthCredentials};
use otter_ai::dict::Dict;
use otter_ai::json::Json;
use otter_ai::json_text::{parse_json, print_json};
use otter_ai::oauth::callback::{
    answer_request, head_is_complete, html_response_head, oauth_page_html, request_target,
};
use otter_ai::oauth::config::OAuthProviderConfig;
use otter_ai::oauth::login::{
    accept_code, build_auth_url, code_from_callback, code_from_input, end_is_representable,
    exchange_request, plan_login, refresh_request, resolve_oauth_auth, sign_in_from_answer,
    sign_in_from_paste, sign_in_from_text, start_browser_login, token_request_failed,
    token_request_refused, token_response_invalid, LoginPlan, TokenPurpose,
};
use otter_ai::oauth::pkce::{create_state, generate_pkce, pkce_from};
use otter_ai::oauth::urlcode::{
    get_parameter, parse_authorization_input, parse_query, redirect_uri_parts, url_decode, urlencode,
};
use otter_ai::random::{id_from, random_id};

fn json(text: &str) -> Json {
    parse_json(text).ok().unwrap()
}

fn config() -> OAuthProviderConfig {
    OAuthProviderConfig {
        base_url: "https://b".into(),
        client_id: "c i".into(),
        scopes: vec!["s1".into(), "s2".into()],
        auth_url: Some("https://auth".into()),
        token_url: Some("https://token".into()),
        device_auth_url: None,
        redirect_uri: None,
        display_name: "Name".into(),
        is_subscription: true,
        login_label: None,
        api_label: "openai-codex-responses".into(),
        extra_headers: None,
        default_models: vec![],
    }
}

#[test]
fn urls_are_encoded_and_decoded() {
    assert_eq!(urlencode("a b&c=é~"), "a%20b%26c%3D%C3%A9~");
    assert_eq!(url_decode("a%20b+c%C3%A9"), "a b cé");
    assert_eq!(url_decode("100%"), "100%");
    assert_eq!(url_decode(&urlencode("a+b %é/")), "a+b %é/");
    let q = parse_query("a=1&b=x%20y&c");
    assert_eq!(get_parameter(&q, "b").as_deref(), Some("x y"));
    assert_eq!(get_parameter(&q, "d"), None);
}

#[test]
fn pasted_texts_are_read() {
    assert_eq!(
        parse_authorization_input("http://localhost:1455/cb?code=c&state=s"),
        (Some("c".to_string()), Some("s".to_string()))
    );
    assert_eq!(parse_authorization_input("c#s"), (Some("c".to_string()), Some("s".to_string())));
    assert_eq!(parse_authorization_input("plain"), (Some("plain".to_string()), None));
    assert_eq!(parse_authorization_input("  "), (Some("".to_string()), None));
    assert_eq!(code_from_input("c#other", "s"), Err("OAuth state mismatch".to_string()));
    assert_eq!(code_from_input("c#s", "s"), Ok("c".to_string()));
    assert_eq!(accept_code(None, None, "s"), Err("Missing authorization code".to_string()));
    assert_eq!(
        redirect_uri_parts("http://localhost:1455/auth/callback"),
        Some(("localhost".to_string(), 1455, "/auth/callback".to_string()))
    );
}

#[test]
fn challenge_is_the_digest_of_the_verifier() {
    // The example of the standard.
    let bytes: [u8; 32] = [
        116, 24, 223, 180, 151, 153, 224, 37, 79, 250, 96, 125, 216, 173, 187, 186, 22, 212, 37, 77,
        105, 214, 191, 240, 91, 88, 5, 88, 83, 132, 141, 121,
    ];
    let (verifier, challenge) = pkce_from(&bytes);
    assert_eq!(verifier, "dBjftJeZ4CVP-mB92K27uhbUJU1p1r_wW1gFWFOEjXk");
    assert_eq!(challenge, "E9Melhoa2OwvFrEMTJguCHaoeK1t8URWbuGJSstw-cM");
    let (v1, _) = generate_pkce();
    let (v2, _) = generate_pkce();
    assert_ne!(v1, v2);
    assert_eq!(v1.len(), 43);
    assert_ne!(create_state(), create_state());
}

#[test]
fn random_ids_have_their_shape() {
    assert_eq!(id_from("tool", 7, &[0, 255, 16, 1, 9]), "tool:7:00ff1001");
    let id = random_id("p", 5);
    assert!(id.starts_with("p:5:"));
    assert_eq!(id.len(), 4 + 8);
    assert_ne!(id, random_id("p", 5));
}

#[test]
fn browser_is_sent_to_the_provider() {
    let b = start_browser_login(&config(), "ch", "st");
    assert_eq!(
        b.url,
        "https://auth?response_type=code&client_id=c%20i&redirect_uri=http%3A%2F%2Flocalhost%3A1455%2Fauth%2Fcallback\
         &scope=s1%20s2&code_challenge=ch&code_challenge_method=S256&state=st\
         &id_token_add_organizations=true&codex_cli_simplified_flow=true&originator=pi"
    );
}

#[test]
fn logins_are_planned() {
    assert!(matches!(plan_login(&config()), LoginPlan::Browser));
    let mut c = config();
    c.token_url = None;
    match plan_login(&c) {
        LoginPlan::Paste { url, .. } => assert_eq!(url, build_auth_url(&c)),
        _ => panic!("expected a paste"),
    }
    c.auth_url = None;
    assert!(matches!(plan_login(&c), LoginPlan::Token { .. }));
    c.device_auth_url = Some("https://dev".into());
    match plan_login(&c) {
        LoginPlan::Paste { url, instructions } => {
            assert_eq!(url, "https://dev");
            assert_eq!(instructions, "Open https://dev to start device authorization for Name, then paste the code below.");
        }
        _ => panic!("expected a paste"),
    }
}

#[test]
fn tokens_are_asked_for() {
    let r = exchange_request(&config(), "co de", "ver").ok().unwrap();
    assert_eq!(r.url, "https://token");
    assert_eq!(
        r.body,
        "grant_type=authorization_code&client_id=c%20i&code=co%20de&code_verifier=ver\
         &redirect_uri=http%3A%2F%2Flocalhost%3A1455%2Fauth%2Fcallback"
    );
    let mut c = config();
    c.token_url = None;
    assert_eq!(exchange_request(&c, "x", "y").err().unwrap(), "No token URL configured for Name");
    let cred = sign_in_from_paste(&config(), "tok".into());
    assert_eq!(cred.inner.access, "tok");
    assert_eq!(print_json(&cred.inner.extra), "{\"token_url\":\"https://token\"}");
    assert_eq!(refresh_request(&config(), &cred).err().unwrap(), "No refresh token available for Name");
    let again = OAuthCredential {
        kind: "oauth".into(),
        inner: OAuthCredentials { refresh: "r&".into(), access: "a".into(), expires: 1, extra: Json::object() },
    };
    assert_eq!(
        refresh_request(&config(), &again).ok().unwrap().body,
        "grant_type=refresh_token&refresh_token=r%26&client_id=c%20i"
    );
    let auth = resolve_oauth_auth(&config(), &again);
    assert_eq!(auth.auth.api_key.as_deref(), Some("a"));
    assert_eq!(auth.auth.base_url.as_deref(), Some("https://b"));
}

#[test]
fn answers_make_a_sign_in() {
    let good = json("{\"access_token\":\"a\",\"refresh_token\":\"r\",\"expires_in\":10}");
    let extra = json("{\"k\":1}");
    let o = sign_in_from_answer(&good, TokenPurpose::Refresh, &extra, 5).ok().unwrap();
    assert_eq!(o.inner.expires, 10_005);
    assert_eq!(print_json(&o.inner.extra), "{\"k\":1}");
    let bad = json("{\"access_token\":\"a\"}");
    assert_eq!(
        sign_in_from_answer(&bad, TokenPurpose::Exchange, &extra, 5).err().unwrap(),
        "Token exchange response missing refresh_token"
    );
    assert!(!end_is_representable(&json("{\"expires_in\":9223372036854775807}"), 0));
    assert_eq!(token_request_failed(&config(), TokenPurpose::Refresh, "e"), "Name token refresh error: e");
    assert!(token_request_refused(&config(), TokenPurpose::Exchange, 400, "b").contains("400"));
    assert!(token_response_invalid(&config(), TokenPurpose::Exchange, "e").contains("e"));
}

#[test]
fn texts_of_answers_make_a_sign_in() {
    let read = |text: &str| {
        sign_in_from_text(&config(), text, TokenPurpose::Exchange, &json("{\"k\":1}"), 5)
    };
    let good = "{\"access_token\":\"a\",\"refresh_token\":\"r\",\"expires_in\":10}";
    let o = read(good).unwrap().ok().unwrap();
    assert_eq!(o.inner.access, "a");
    assert_eq!(o.inner.refresh, "r");
    assert_eq!(o.inner.expires, 10_005);
    assert_eq!(print_json(&o.inner.extra), "{\"k\":1}");
    assert_eq!(
        read("{\"access_token\":\"a\"}").unwrap().err().unwrap(),
        "Token exchange response missing refresh_token"
    );
    let reason = parse_json("{").err().unwrap();
    assert_eq!(
        read("{").unwrap().err().unwrap(),
        token_response_invalid(&config(), TokenPurpose::Exchange, &reason)
    );
    assert!(read("{\"expires_in\":9223372036854775807}").is_none());
}

#[test]
fn callback_needs_the_state() {
    let ask = |target: &str| {
        let head = format!("GET {} HTTP/1.1\r\nHost: x\r\n\r\n", target);
        answer_request(head.as_bytes(), "/cb", "st")
    };
    let a = ask("/cb?code=c%20d&state=st");
    assert_eq!((a.status, a.code.as_deref()), (200, Some("c d")));
    assert_eq!(ask("/other?code=c&state=st").status, 404);
    let a = ask("/cb?code=c&state=no");
    assert_eq!((a.status, a.code), (400, None));
    let a = ask("/cb?state=st");
    assert_eq!((a.status, a.code), (400, None));
    assert_eq!(request_target("GET /x HTTP/1.1"), "/x");
    assert!(head_is_complete(b"a\r\n\r\nb"));
    assert!(!head_is_complete(b"a\r\n\r"));
    let page = oauth_page_html("S", "é");
    assert!(html_response_head(200, "OK", &page).contains(&format!("Content-Length: {}\r\n", page.len())));
}

#[test]
fn callback_outcomes_become_codes() {
    assert_eq!(code_from_callback(Some(Ok("c".into()))), Ok("c".to_string()));
    assert!(code_from_callback(Some(Err("e".into()))).is_err());
    assert!(code_from_callback(None).is_err());
    let none: Dict<String> = Dict::new();
    assert_eq!(get_parameter(&none, "code"), None);
}
