//! What holds of every sign-in.
use vstd::prelude::*;
use crate::json::JsonView;
use crate::oauth::config::OAuthProviderConfig;
use crate::oauth::login;
use crate::oauth::login::TokenPurpose;
use crate::oauth::urlcode;
use crate::text;
use crate::views;

verus! {

proof fn lemma_encoded_query(params: Seq<(Seq<char>, Seq<char>)>, i: int)
    requires
        0 <= i < params.len(),
    ensures
        urlcode::brings(login::encoded_query(params), params[i].0, params[i].1),
{
    reveal_strlit("=");
    reveal_strlit("&");
    assert("="@ =~= seq!['=']);
    assert("&"@ =~= seq!['&']);
    let a = params.map_values(|p: (Seq<char>, Seq<char>)| login::encoded_parameter(p));
    let b = params.map_values(
        |p: (Seq<char>, Seq<char>)|
            urlcode::url_encoded(p.0) + seq!['='] + urlcode::url_encoded(p.1),
    );
    assert(a =~= b);
    urlcode::law_encoded_parameters_are_brought(params, i);
}

/// The address that a browser is sent to is that of the provider, and its query brings everything
/// that the provider has to know: the client, where to send the code, what is asked for, the
/// challenge and the state.
pub proof fn law_browser_url_brings_the_request(
    c: OAuthProviderConfig,
    challenge: Seq<char>,
    state: Seq<char>,
)
    requires
        c.auth_url is Some,
    ensures
        exists|query: Seq<char>|
            {
                &&& login::browser_url(c, challenge, state) == c.auth_url->0@ + "?"@ + query
                &&& #[trigger] urlcode::brings(query, "response_type"@, "code"@)
                &&& urlcode::brings(query, "client_id"@, c.client_id@)
                &&& c.redirect_uri is Some ==> urlcode::brings(
                    query,
                    "redirect_uri"@,
                    c.redirect_uri->0@,
                )
                &&& urlcode::brings(query, "scope"@, text::joined(views::all(c.scopes@), " "@))
                &&& urlcode::brings(query, "code_challenge"@, challenge)
                &&& urlcode::brings(query, "code_challenge_method"@, "S256"@)
                &&& urlcode::brings(query, "state"@, state)
            },
{
    let params = login::login_parameters(c, challenge, state);
    let query = login::encoded_query(params);
    lemma_encoded_query(params, 0);
    lemma_encoded_query(params, 1);
    lemma_encoded_query(params, 2);
    lemma_encoded_query(params, 3);
    lemma_encoded_query(params, 4);
    lemma_encoded_query(params, 5);
    lemma_encoded_query(params, 6);
    assert(urlcode::brings(query, "response_type"@, "code"@));
}

proof fn lemma_plain_names()
    ensures
        urlcode::url_encoded("grant_type"@) == "grant_type"@,
        urlcode::url_encoded("authorization_code"@) == "authorization_code"@,
        urlcode::url_encoded("client_id"@) == "client_id"@,
        urlcode::url_encoded("code"@) == "code"@,
        urlcode::url_encoded("code_verifier"@) == "code_verifier"@,
        urlcode::url_encoded("redirect_uri"@) == "redirect_uri"@,
        urlcode::url_encoded("refresh_token"@) == "refresh_token"@,
{
    reveal_strlit("grant_type");
    reveal_strlit("authorization_code");
    reveal_strlit("client_id");
    reveal_strlit("code");
    reveal_strlit("code_verifier");
    reveal_strlit("redirect_uri");
    reveal_strlit("refresh_token");
    urlcode::law_plain_text_is_encoded_as_itself("grant_type"@);
    urlcode::law_plain_text_is_encoded_as_itself("authorization_code"@);
    urlcode::law_plain_text_is_encoded_as_itself("client_id"@);
    urlcode::law_plain_text_is_encoded_as_itself("code"@);
    urlcode::law_plain_text_is_encoded_as_itself("code_verifier"@);
    urlcode::law_plain_text_is_encoded_as_itself("redirect_uri"@);
    urlcode::law_plain_text_is_encoded_as_itself("refresh_token"@);
}

proof fn lemma_exchange_literals()
    ensures
        "grant_type=authorization_code&client_id="@ == "grant_type"@ + "="@ + "authorization_code"@
            + "&"@ + "client_id"@ + "="@,
        "&code="@ == "&"@ + "code"@ + "="@,
        "&code_verifier="@ == "&"@ + "code_verifier"@ + "="@,
        "&redirect_uri="@ == "&"@ + "redirect_uri"@ + "="@,
{
    reveal_strlit("grant_type=authorization_code&client_id=");
    reveal_strlit("&code=");
    reveal_strlit("&code_verifier=");
    reveal_strlit("&redirect_uri=");
    reveal_strlit("grant_type");
    reveal_strlit("authorization_code");
    reveal_strlit("client_id");
    reveal_strlit("code");
    reveal_strlit("code_verifier");
    reveal_strlit("redirect_uri");
    reveal_strlit("&");
    reveal_strlit("=");
    assert("grant_type=authorization_code&client_id="@ =~= "grant_type"@ + "="@
        + "authorization_code"@ + "&"@ + "client_id"@ + "="@);
    assert("&code="@ =~= "&"@ + "code"@ + "="@);
    assert("&code_verifier="@ =~= "&"@ + "code_verifier"@ + "="@);
    assert("&redirect_uri="@ =~= "&"@ + "redirect_uri"@ + "="@);
}

/// The request that exchanges a code brings the code, the verifier, the client, and the very
/// place that the browser was told to send the code to.
pub proof fn law_exchange_brings_code_and_verifier(
    c: OAuthProviderConfig,
    code: Seq<char>,
    verifier: Seq<char>,
)
    ensures
        ({
            let body = login::exchange_body(c, code, verifier);
            &&& urlcode::brings(body, "grant_type"@, "authorization_code"@)
            &&& urlcode::brings(body, "client_id"@, c.client_id@)
            &&& urlcode::brings(body, "code"@, code)
            &&& urlcode::brings(body, "code_verifier"@, verifier)
            &&& c.redirect_uri is Some ==> urlcode::brings(
                body,
                "redirect_uri"@,
                c.redirect_uri->0@,
            )
        }),
{
    let params = exchange_parameters(c, code, verifier);
    lemma_exchange_body(c, code, verifier);
    lemma_encoded_query(params, 0);
    lemma_encoded_query(params, 1);
    lemma_encoded_query(params, 2);
    lemma_encoded_query(params, 3);
    lemma_encoded_query(params, 4);
}

spec fn exchange_parameters(
    c: OAuthProviderConfig,
    code: Seq<char>,
    verifier: Seq<char>,
) -> Seq<(Seq<char>, Seq<char>)> {
    seq![
        ("grant_type"@, "authorization_code"@),
        ("client_id"@, c.client_id@),
        ("code"@, code),
        ("code_verifier"@, verifier),
        ("redirect_uri"@, login::browser_redirect(c)),
    ]
}

proof fn lemma_encoded(name: Seq<char>, value: Seq<char>)
    requires
        urlcode::url_encoded(name) == name,
    ensures
        login::encoded_parameter((name, value)) == name + "="@ + urlcode::url_encoded(value),
{
}

#[verifier::rlimit(40)]
proof fn lemma_exchange_body(c: OAuthProviderConfig, code: Seq<char>, verifier: Seq<char>)
    ensures
        login::exchange_body(c, code, verifier) == login::encoded_query(
            exchange_parameters(c, code, verifier),
        ),
{
    let params = exchange_parameters(c, code, verifier);
    let parts = params.map_values(|p: (Seq<char>, Seq<char>)| login::encoded_parameter(p));
    let grant = "grant_type"@ + "="@ + "authorization_code"@;
    let names = seq![
        "client_id"@ + "="@,
        "code"@ + "="@,
        "code_verifier"@ + "="@,
        "redirect_uri"@ + "="@,
    ];
    let values = seq![
        urlcode::url_encoded(c.client_id@),
        urlcode::url_encoded(code),
        urlcode::url_encoded(verifier),
        urlcode::url_encoded(login::browser_redirect(c)),
    ];
    assert(parts.len() == 5);
    assert(parts[0] == grant && parts[1] == names[0] + values[0] && parts[2] == names[1] + values[1]
        && parts[3] == names[2] + values[2] && parts[4] == names[3] + values[3]) by {
        lemma_plain_names();
        lemma_encoded("grant_type"@, "authorization_code"@);
        lemma_encoded("client_id"@, c.client_id@);
        lemma_encoded("code"@, code);
        lemma_encoded("code_verifier"@, verifier);
        lemma_encoded("redirect_uri"@, login::browser_redirect(c));
    }
    lemma_five_joined(parts, "&"@);
    lemma_assembled(grant, names, values, "&"@);
    assert("grant_type=authorization_code&client_id="@ == grant + "&"@ + names[0] && "&code="@
        == "&"@ + names[1] && "&code_verifier="@ == "&"@ + names[2] && "&redirect_uri="@ == "&"@
        + names[3]) by {
        lemma_exchange_literals();
        assert(grant + "&"@ + names[0] =~= "grant_type"@ + "="@ + "authorization_code"@ + "&"@
            + "client_id"@ + "="@);
        assert("&"@ + names[1] =~= "&"@ + "code"@ + "="@);
        assert("&"@ + names[2] =~= "&"@ + "code_verifier"@ + "="@);
        assert("&"@ + names[3] =~= "&"@ + "redirect_uri"@ + "="@);
    }
}

proof fn lemma_five_joined(parts: Seq<Seq<char>>, sep: Seq<char>)
    requires
        parts.len() == 5,
    ensures
        text::joined(parts, sep) == parts[0] + sep + parts[1] + sep + parts[2] + sep + parts[3]
            + sep + parts[4],
{
    reveal_with_fuel(text::joined, 5);
    assert(parts.drop_last().drop_last().drop_last().drop_last() =~= seq![parts[0]]);
}

/// Names with their values, put together in two ways.
proof fn lemma_assembled(
    first: Seq<char>,
    names: Seq<Seq<char>>,
    values: Seq<Seq<char>>,
    sep: Seq<char>,
)
    requires
        names.len() == 4,
        values.len() == 4,
    ensures
        (first + sep + names[0]) + values[0] + (sep + names[1]) + values[1] + (sep + names[2])
            + values[2] + (sep + names[3]) + values[3] == first + sep + (names[0] + values[0]) + sep
            + (names[1] + values[1]) + sep + (names[2] + values[2]) + sep + (names[3] + values[3]),
{
    let a = (first + sep + names[0]) + values[0];
    assert(a =~= first + sep + (names[0] + values[0]));
    let b = a + (sep + names[1]) + values[1];
    assert(b =~= a + sep + (names[1] + values[1]));
    let d = b + (sep + names[2]) + values[2];
    assert(d =~= b + sep + (names[2] + values[2]));
    let e = d + (sep + names[3]) + values[3];
    assert(e =~= d + sep + (names[3] + values[3]));
}

/// The request that renews tokens brings the refresh token and the client.
pub proof fn law_renewal_brings_the_refresh_token(c: OAuthProviderConfig, refresh: Seq<char>)
    ensures
        ({
            let body = login::refresh_body(c, refresh);
            &&& urlcode::brings(body, "grant_type"@, "refresh_token"@)
            &&& urlcode::brings(body, "refresh_token"@, refresh)
            &&& urlcode::brings(body, "client_id"@, c.client_id@)
        }),
{
    lemma_plain_names();
    let params = seq![
        ("grant_type"@, "refresh_token"@),
        ("refresh_token"@, refresh),
        ("client_id"@, c.client_id@),
    ];
    lemma_encoded_query(params, 0);
    lemma_encoded_query(params, 1);
    lemma_encoded_query(params, 2);
    let parts = params.map_values(|p: (Seq<char>, Seq<char>)| login::encoded_parameter(p));
    let p0 = login::encoded_parameter(params[0]);
    let p1 = login::encoded_parameter(params[1]);
    let p2 = login::encoded_parameter(params[2]);
    assert(parts =~= seq![p0] + (seq![p1] + seq![p2]));
    text::law_joined_texts_are_all_there(seq![p1], seq![p2], "&"@, p2);
    text::law_joined_texts_are_all_there(seq![p0], seq![p1] + seq![p2], "&"@, p1);
    text::law_joined_texts_are_all_there(seq![p0], seq![p1], "&"@, p0);
    reveal_strlit("grant_type=refresh_token&refresh_token=");
    reveal_strlit("&client_id=");
    reveal_strlit("grant_type");
    reveal_strlit("refresh_token");
    reveal_strlit("client_id");
    reveal_strlit("&");
    reveal_strlit("=");
    assert("grant_type=refresh_token&refresh_token="@ =~= "grant_type"@ + "="@ + "refresh_token"@
        + "&"@ + "refresh_token"@ + "="@);
    assert("&client_id="@ =~= "&"@ + "client_id"@ + "="@);
    assert(login::refresh_body(c, refresh) =~= login::encoded_query(params));
}

/// A sign-in holds the tokens of the answer and ends so many seconds from now as the answer says;
/// an answer that lacks one of these makes none.
pub proof fn law_sign_in_holds_what_was_answered(
    answer: JsonView,
    p: TokenPurpose,
    extra: JsonView,
    account: Result<Seq<char>, Seq<char>>,
    now: i64,
    access: Seq<char>,
    refresh: Seq<char>,
    seconds: i64,
)
    requires
        i64::MIN <= now + seconds * 1000 <= i64::MAX,
    ensures
        answer.field_text("access_token"@) == Some(access) && answer.field_text("refresh_token"@)
            == Some(refresh) && answer.get("expires_in"@) is Some && answer.get(
            "expires_in"@,
        )->0.signed() == Some(seconds) ==> {
            let r = login::sign_in(answer, p, extra, account, now);
            &&& r is Ok
            &&& r->Ok_0.access == access
            &&& r->Ok_0.refresh == refresh
            &&& r->Ok_0.expires == now + seconds * 1000
            &&& r->Ok_0.kind == "oauth"@
            &&& account is Ok && extra is Object ==> r->Ok_0.extra.field_text("account_id"@)
                == Some(account->Ok_0)
            &&& account is Err ==> r->Ok_0.extra == extra
        },
        answer.field_text("access_token"@) is None || answer.field_text("refresh_token"@) is None
            || answer.get("expires_in"@) is None ==> login::sign_in(answer, p, extra, account, now)
            is Err,
{
}

/// A code that comes with the state that was sent, or without any, is exchanged as it is.
pub proof fn law_right_code_is_accepted(code: Seq<char>, state: Seq<char>)
    ensures
        login::accepted_code(Some(code), Some(state), state) == Ok::<Seq<char>, Seq<char>>(code),
        login::accepted_code(Some(code), None, state) == Ok::<Seq<char>, Seq<char>>(code),
        login::accepted_code(None, None, state) == Err::<Seq<char>, Seq<char>>(
            "Missing authorization code"@,
        ),
        login::accepted_code(None, Some(state), state) == Err::<Seq<char>, Seq<char>>(
            "Missing authorization code"@,
        ),
{
}

/// How someone signs in: by a device where the provider has an address for that, by a browser
/// where it has addresses for that, and otherwise by pasting.
pub proof fn law_login_goes_as_the_provider_can(c: OAuthProviderConfig)
    ensures
        c.device_auth_url is Some ==> login::planned_login(c) is Paste && login::planned_login(c)->url
            == c.device_auth_url->0@,
        c.device_auth_url is None && c.auth_url is Some && c.token_url is Some ==> login::planned_login(c)
            is Browser,
        c.device_auth_url is None && c.auth_url is Some && c.token_url is None ==> login::planned_login(c)
            is Paste && text::begins(login::planned_login(c)->url, c.auth_url->0@),
        c.device_auth_url is None && c.auth_url is None ==> login::planned_login(c) is Token,
{
    if c.auth_url is Some {
        let u = c.auth_url->0@;
        assert(login::auth_address(c).take(u.len() as int) =~= u);
    }
}

/// A sign-in authorises requests with its access token, at the address and with the headers of
/// the provider; one that was pasted is the code as it is and cannot be renewed.
pub proof fn law_sign_in_authorises(c: OAuthProviderConfig, access: Seq<char>)
    ensures
        login::sign_in_auth(c, access).api_key == Some(access),
        login::sign_in_auth(c, access).base_url == Some(c.base_url@),
        c.extra_headers is None ==> login::sign_in_auth(c, access).headers is None,
        login::pasted_sign_in(c, access).access == access,
        login::pasted_sign_in(c, access).refresh.len() == 0,
        login::pasted_sign_in(c, access).kind == "oauth"@,
{
}

/// A request to sign in to a service of the Codex kind says three things more, and one to any
/// other says none of them.
pub proof fn law_codex_sign_in_says_more(
    c: OAuthProviderConfig,
    challenge: Seq<char>,
    state: Seq<char>,
)
    ensures
        ({
            let params = login::login_parameters(c, challenge, state);
            if c.api_label@ == "openai-codex-responses"@ {
                &&& params.len() == 10
                &&& params.contains(("id_token_add_organizations"@, "true"@))
                &&& params.contains(("codex_cli_simplified_flow"@, "true"@))
                &&& params.contains(("originator"@, "pi"@))
            } else {
                params.len() == 7
            }
        }),
{
    let params = login::login_parameters(c, challenge, state);
    if c.api_label@ == "openai-codex-responses"@ {
        assert(params[7] == ("id_token_add_organizations"@, "true"@));
        assert(params[8] == ("codex_cli_simplified_flow"@, "true"@));
        assert(params[9] == ("originator"@, "pi"@));
    }
}

/// An answer without a token, without one to renew with or without a lifetime is refused, naming
/// what is missing.
pub proof fn law_incomplete_answer_is_refused(
    answer: JsonView,
    extra: JsonView,
    account: Result<Seq<char>, Seq<char>>,
    now: i64,
)
    ensures
        answer.field_text("access_token"@) is None ==> login::sign_in(
            answer,
            TokenPurpose::Exchange,
            extra,
            account,
            now,
        ) == Err::<crate::auth::types::OAuthView, Seq<char>>(
            "Token "@ + "exchange"@ + " response missing "@ + "access_token"@,
        ),
        answer.field_text("access_token"@) is Some && answer.field_text("refresh_token"@) is None
            ==> login::sign_in(answer, TokenPurpose::Refresh, extra, account, now) == Err::<
            crate::auth::types::OAuthView,
            Seq<char>,
        >("Token "@ + "refresh"@ + " response missing "@ + "refresh_token"@),
        answer.get("expires_in"@) is None ==> login::sign_in(
            answer,
            TokenPurpose::Refresh,
            extra,
            account,
            now,
        ) is Err,
{
}

/// What was pasted is used as the token until it is refused: it is not renewed, and the place to
/// renew it at is kept where there is one.
pub proof fn law_pasted_token_is_used(c: OAuthProviderConfig, code: Seq<char>)
    ensures
        ({
            let o = login::pasted_sign_in(c, code);
            &&& o.access == code
            &&& o.refresh.len() == 0
            &&& o.expires == 0
            &&& o.kind == "oauth"@
            &&& c.token_url is Some ==> o.extra.field_text("token_url"@) == Some(c.token_url->0@)
            &&& c.token_url is None ==> o.extra == JsonView::object()
        }),
{
}

/// Someone who signs in by pasting is told where to go: to the address for devices, or to the one
/// that names the client and what it may do.
pub proof fn law_pasting_says_where_to_go(c: OAuthProviderConfig)
    ensures
        c.device_auth_url matches Some(u) ==> (login::planned_login(c) matches
            login::LoginPlanView::Paste { url, instructions } && url == u@ && text::begins(
            instructions,
            "Open "@ + u@ + " to start device authorization for "@ + c.display_name@,
        )),
        c.device_auth_url is None && c.auth_url is Some && c.token_url is None ==> (
        login::planned_login(c) matches login::LoginPlanView::Paste { url, instructions }
            && text::begins(url, c.auth_url->0@ + "?client_id="@ + c.client_id@) && text::ends(
            url,
            "&response_type=code&scope="@ + text::joined(views::all(c.scopes@), " "@),
        ) && text::begins(instructions, "Open this URL to authorize "@ + c.display_name@)),
        c.device_auth_url is None && c.auth_url is None ==> (login::planned_login(c) matches
            login::LoginPlanView::Token { message } && text::begins(
            message,
            "Manual login for "@ + c.display_name@,
        )),
        c.redirect_uri is None ==> login::browser_redirect(c)
            == "http://localhost:1455/auth/callback"@,
        c.redirect_uri is Some ==> login::browser_redirect(c) == c.redirect_uri->0@,
{
    match login::planned_login(c) {
        login::LoginPlanView::Paste { url, instructions } => {
            if c.device_auth_url is Some {
                let head = "Open "@ + c.device_auth_url->0@
                    + " to start device authorization for "@ + c.display_name@;
                assert(instructions.take(head.len() as int) =~= head);
            } else {
                let head = "Open this URL to authorize "@ + c.display_name@;
                assert(instructions.take(head.len() as int) =~= head);
                let front = c.auth_url->0@ + "?client_id="@ + c.client_id@;
                assert(url.take(front.len() as int) =~= front);
                let back = "&response_type=code&scope="@ + text::joined(
                    views::all(c.scopes@),
                    " "@,
                );
                assert(url.skip(url.len() - back.len()) =~= back);
            }
        },
        login::LoginPlanView::Token { message } => {
            let head = "Manual login for "@ + c.display_name@;
            assert(message.take(head.len() as int) =~= head);
        },
        _ => {},
    }
}

/// A state that is not the one that was sent is refused as such, and an answer that cannot be read
/// is told with what it was for and why.
pub proof fn law_refusals_say_why(
    c: OAuthProviderConfig,
    code: Option<Seq<char>>,
    brought: Seq<char>,
    state: Seq<char>,
    e: Seq<char>,
)
    ensures
        brought != state ==> login::accepted_code(code, Some(brought), state) == Err::<
            Seq<char>,
            Seq<char>,
        >("OAuth state mismatch"@),
        text::begins(
            login::invalid_answer(&c, TokenPurpose::Exchange, e),
            "Invalid token "@ + "exchange"@ + " response for "@ + c.display_name@,
        ),
        text::begins(
            login::invalid_answer(&c, TokenPurpose::Refresh, e),
            "Invalid token "@ + "refresh"@ + " response for "@ + c.display_name@,
        ),
        text::ends(login::invalid_answer(&c, TokenPurpose::Refresh, e), e),
{
    let x = login::invalid_answer(&c, TokenPurpose::Exchange, e);
    let y = login::invalid_answer(&c, TokenPurpose::Refresh, e);
    let a = "Invalid token "@ + "exchange"@ + " response for "@ + c.display_name@;
    let b = "Invalid token "@ + "refresh"@ + " response for "@ + c.display_name@;
    assert(x.take(a.len() as int) =~= a);
    assert(y.take(b.len() as int) =~= b);
    assert(y.skip(y.len() - e.len()) =~= e);
}

} // verus!
