//! The headers of Codex requests.
use vstd::prelude::*;
use crate::dict;
use crate::dict::Dict;
use crate::text::concat;
use crate::views;

verus! {

/// A character that a header name may hold.
pub open spec fn is_header_char(c: char) -> bool {
    let n = c as int;
    ||| 48 <= n <= 57
    ||| 65 <= n <= 90
    ||| 97 <= n <= 122
    ||| c == '!'
    ||| 35 <= n <= 39
    ||| c == '*'
    ||| c == '+'
    ||| c == '-'
    ||| c == '.'
    ||| 94 <= n <= 96
    ||| c == '|'
    ||| c == '~'
}

/// A letter of ASCII in lower case, any other character as it is.
pub open spec fn lower_ascii(c: char) -> char {
    if 65 <= c as int && c as int <= 90 {
        (c as int + 32) as char
    } else {
        c
    }
}

/// The name of a header as it is compared, where a text is a name at all.
pub open spec fn header_name(s: Seq<char>) -> Option<Seq<char>> {
    if 0 < s.len() <= 65535 && forall|i: int| 0 <= i < s.len() ==> is_header_char(#[trigger] s[i]) {
        Some(s.map_values(|c: char| lower_ascii(c)))
    } else {
        None
    }
}

/// Whether a text can be the value of a header: it holds no control character
/// but the tabulator.
pub open spec fn is_header_value(s: Seq<char>) -> bool {
    forall|i: int| 0 <= i < s.len() ==> ((#[trigger] s[i]) as int >= 32 && s[i] as int != 127) || s[i] as int == 9
}

/// `http::HeaderName::from_bytes`: takes a text of one to 65535 token
/// characters, and gives it in lower case.
#[verifier::external_body]
fn canonical_name(name: &str) -> (r: Option<String>)
    ensures
        views::opt(r) == header_name(name@),
{
    http::HeaderName::from_bytes(name.as_bytes()).ok().map(|n| n.as_str().to_owned())
}

/// `http::HeaderValue::from_str`: takes a text without control characters other
/// than the tabulator.
#[verifier::external_body]
fn is_valid_value(value: &str) -> (r: bool)
    ensures
        r == is_header_value(value@),
{
    http::HeaderValue::from_str(value).is_ok()
}

/// Headers with one more. A name or a value that is none is left out.
pub open spec fn with_header(
    headers: Map<Seq<char>, Seq<char>>,
    name: Seq<char>,
    value: Seq<char>,
) -> Map<Seq<char>, Seq<char>> {
    match header_name(name) {
        Some(n) => if is_header_value(value) {
            headers.insert(n, value)
        } else {
            headers
        },
        None => headers,
    }
}

/// Sets a header, unless its name or its value is none.
pub fn set_header(headers: &mut Dict<String>, name: &str, value: &str)
    ensures
        dict::texts(final(headers)@) == with_header(dict::texts(old(headers)@), name@, value@),
{
    let ghost before = dict::texts(headers@);
    if let Some(n) = canonical_name(name) {
        if is_valid_value(value) {
            headers.insert(n.as_str(), value.to_owned());
            assert(dict::texts(headers@) =~= before.insert(n@, value@));
        }
    }
}

/// Headers made of those of `extra` named by `keys`, in that order.
pub open spec fn extra_headers(extra: Map<Seq<char>, Seq<char>>, keys: Seq<Seq<char>>) -> Map<
    Seq<char>,
    Seq<char>,
>
    decreases keys.len(),
{
    if keys.len() == 0 {
        Map::empty()
    } else {
        with_header(extra_headers(extra, keys.drop_last()), keys.last(), extra[keys.last()])
    }
}

/// Whether `keys` names every key of `m` once.
pub open spec fn lists_keys(keys: Seq<Seq<char>>, m: Map<Seq<char>, Seq<char>>) -> bool {
    &&& keys.no_duplicates()
    &&& forall|k: Seq<char>| #[trigger] m.contains_key(k) <==> keys.contains(k)
}

/// The headers of a request for server-sent events over those of `base`.
pub open spec fn sse_headers(
    base: Map<Seq<char>, Seq<char>>,
    account_id: Seq<char>,
    token: Seq<char>,
    session_id: Option<Seq<char>>,
) -> Map<Seq<char>, Seq<char>> {
    let h = with_header(base, "Authorization"@, "Bearer "@ + token);
    let h = with_header(h, "chatgpt-account-id"@, account_id);
    let h = with_header(h, "OpenAI-Beta"@, "responses=experimental"@);
    let h = with_header(h, "accept"@, "text/event-stream"@);
    let h = with_header(h, "content-type"@, "application/json"@);
    match session_id {
        Some(sid) => with_header(with_header(h, "session-id"@, sid), "x-client-request-id"@, sid),
        None => h,
    }
}

/// The headers of a websocket request over those of `base`.
pub open spec fn websocket_headers(
    base: Map<Seq<char>, Seq<char>>,
    account_id: Seq<char>,
    token: Seq<char>,
    request_id: Seq<char>,
) -> Map<Seq<char>, Seq<char>> {
    let h = with_header(base, "Authorization"@, "Bearer "@ + token);
    let h = with_header(h, "chatgpt-account-id"@, account_id);
    let h = with_header(h, "OpenAI-Beta"@, "responses_websockets=2026-02-06"@);
    let h = with_header(h, "session-id"@, request_id);
    with_header(h, "x-client-request-id"@, request_id)
}

fn extra_headers_exec(extra: &Dict<String>) -> (r: Dict<String>)
    ensures
        exists|keys: Seq<Seq<char>>|
            lists_keys(keys, dict::texts(extra@)) && dict::texts(r@) == #[trigger] extra_headers(
                dict::texts(extra@),
                keys,
            ),
{
    let keys: Vec<String> = extra.keys();
    let ghost all = views::all(keys@);
    let mut out: Dict<String> = Dict::new();
    let mut i: usize = 0;
    proof {
        views::lemma_take_all(all);
        assert(dict::texts(out@) =~= Map::empty());
        assert forall|k: Seq<char>| #[trigger] dict::texts(extra@).contains_key(k) <==> all.contains(
            k,
        ) by {
            assert(extra@.contains_key(k) <==> all.contains(k));
        }
    }
    while i < keys.len()
        invariant
            i <= keys@.len(),
            all == views::all(keys@),
            lists_keys(all, dict::texts(extra@)),
            dict::texts(out@) == extra_headers(dict::texts(extra@), all.take(i as int)),
        decreases keys@.len() - i,
    {
        proof {
            views::lemma_take_step(all, i as int);
            assert(all[i as int] == keys@[i as int]@);
            assert(all.contains(keys@[i as int]@));
            assert(dict::texts(extra@).contains_key(keys@[i as int]@));
        }
        if let Some(v) = extra.get_text(keys[i].as_str()) {
            set_header(&mut out, keys[i].as_str(), v);
        }
        i = i + 1;
    }
    proof {
        views::lemma_take_all(all);
    }
    out
}

/// The headers of a request for server-sent events: those of the caller, in some
/// order, then those of the protocol.
pub fn build_sse_headers(
    extra: &Dict<String>,
    account_id: &str,
    token: &str,
    session_id: Option<&str>,
) -> (r: Dict<String>)
    ensures
        exists|keys: Seq<Seq<char>>|
            lists_keys(keys, dict::texts(extra@)) && dict::texts(r@) == sse_headers(
                #[trigger] extra_headers(dict::texts(extra@), keys),
                account_id@,
                token@,
                views::opt(session_id),
            ),
{
    let mut out: Dict<String> = extra_headers_exec(extra);
    let bearer: String = concat("Bearer ", token);
    set_header(&mut out, "Authorization", bearer.as_str());
    set_header(&mut out, "chatgpt-account-id", account_id);
    set_header(&mut out, "OpenAI-Beta", "responses=experimental");
    set_header(&mut out, "accept", "text/event-stream");
    set_header(&mut out, "content-type", "application/json");
    if let Some(sid) = session_id {
        set_header(&mut out, "session-id", sid);
        set_header(&mut out, "x-client-request-id", sid);
    }
    out
}

/// The headers of a websocket request: those of the caller, in some order, then
/// those of the protocol.
pub fn build_websocket_headers(
    extra: &Dict<String>,
    account_id: &str,
    token: &str,
    request_id: &str,
) -> (r: Dict<String>)
    ensures
        exists|keys: Seq<Seq<char>>|
            lists_keys(keys, dict::texts(extra@)) && dict::texts(r@) == websocket_headers(
                #[trigger] extra_headers(dict::texts(extra@), keys),
                account_id@,
                token@,
                request_id@,
            ),
{
    let mut out: Dict<String> = extra_headers_exec(extra);
    let bearer: String = concat("Bearer ", token);
    set_header(&mut out, "Authorization", bearer.as_str());
    set_header(&mut out, "chatgpt-account-id", account_id);
    set_header(&mut out, "OpenAI-Beta", "responses_websockets=2026-02-06");
    set_header(&mut out, "session-id", request_id);
    set_header(&mut out, "x-client-request-id", request_id);
    out
}

proof fn lemma_header_name(s: Seq<char>, lower: Seq<char>)
    requires
        0 < s.len() <= 65535,
        s.len() == lower.len(),
        forall|i: int| 0 <= i < s.len() ==> is_header_char(#[trigger] s[i]) && lower_ascii(s[i]) == lower[i],
    ensures
        header_name(s) == Some(lower),
{
    assert(s.map_values(|c: char| lower_ascii(c)) =~= lower);
}

/// The names of the protocol, as they are compared.
proof fn lemma_names()
    ensures
        header_name("Authorization"@) == Some("authorization"@),
        header_name("chatgpt-account-id"@) == Some("chatgpt-account-id"@),
        header_name("OpenAI-Beta"@) == Some("openai-beta"@),
        header_name("accept"@) == Some("accept"@),
        header_name("content-type"@) == Some("content-type"@),
        header_name("session-id"@) == Some("session-id"@),
        header_name("x-client-request-id"@) == Some("x-client-request-id"@),
        "accept"@.len() == 6,
        "authorization"@.len() == 13,
        "chatgpt-account-id"@.len() == 18,
        "content-type"@.len() == 12,
        "openai-beta"@.len() == 11,
        "session-id"@.len() == 10,
        "x-client-request-id"@.len() == 19,
{
    reveal_strlit("Authorization");
    reveal_strlit("OpenAI-Beta");
    reveal_strlit("accept");
    reveal_strlit("authorization");
    reveal_strlit("chatgpt-account-id");
    reveal_strlit("content-type");
    reveal_strlit("openai-beta");
    reveal_strlit("session-id");
    reveal_strlit("x-client-request-id");
    assert forall|i: int| 0 <= i < "Authorization"@.len() implies is_header_char(#[trigger] "Authorization"@[i]) && lower_ascii("Authorization"@[i]) == "authorization"@[i] by {}
    lemma_header_name("Authorization"@, "authorization"@);
    assert forall|i: int| 0 <= i < "chatgpt-account-id"@.len() implies is_header_char(#[trigger] "chatgpt-account-id"@[i]) && lower_ascii("chatgpt-account-id"@[i]) == "chatgpt-account-id"@[i] by {}
    lemma_header_name("chatgpt-account-id"@, "chatgpt-account-id"@);
    assert forall|i: int| 0 <= i < "OpenAI-Beta"@.len() implies is_header_char(#[trigger] "OpenAI-Beta"@[i]) && lower_ascii("OpenAI-Beta"@[i]) == "openai-beta"@[i] by {}
    lemma_header_name("OpenAI-Beta"@, "openai-beta"@);
    assert forall|i: int| 0 <= i < "accept"@.len() implies is_header_char(#[trigger] "accept"@[i]) && lower_ascii("accept"@[i]) == "accept"@[i] by {}
    lemma_header_name("accept"@, "accept"@);
    assert forall|i: int| 0 <= i < "content-type"@.len() implies is_header_char(#[trigger] "content-type"@[i]) && lower_ascii("content-type"@[i]) == "content-type"@[i] by {}
    lemma_header_name("content-type"@, "content-type"@);
    assert forall|i: int| 0 <= i < "session-id"@.len() implies is_header_char(#[trigger] "session-id"@[i]) && lower_ascii("session-id"@[i]) == "session-id"@[i] by {}
    lemma_header_name("session-id"@, "session-id"@);
    assert forall|i: int| 0 <= i < "x-client-request-id"@.len() implies is_header_char(#[trigger] "x-client-request-id"@[i]) && lower_ascii("x-client-request-id"@[i]) == "x-client-request-id"@[i] by {}
    lemma_header_name("x-client-request-id"@, "x-client-request-id"@);
}

/// A header that was set is found again however its name is written, and no other header
/// changes; a name or a value that is none changes nothing.
pub proof fn law_set_header_is_found(
    headers: Map<Seq<char>, Seq<char>>,
    name: Seq<char>,
    lower: Seq<char>,
    value: Seq<char>,
    other: Seq<char>,
)
    requires
        0 < name.len() <= 65535,
        name.len() == lower.len(),
        forall|i: int|
            0 <= i < name.len() ==> (('a' <= #[trigger] name[i] <= 'z' || '0' <= name[i] <= '9'
                || name[i] == '-') && lower[i] == name[i]) || ('A' <= name[i] <= 'Z' && lower[i]
                as int == name[i] as int + 32),
        forall|i: int| 0 <= i < value.len() ==> ' ' <= #[trigger] value[i] && value[i] as int != 127,
    ensures
        ({
            let h = with_header(headers, name, value);
            &&& h.contains_key(lower)
            &&& h[lower] == value
            &&& other != lower ==> h.contains_key(other) == headers.contains_key(other)
            &&& other != lower && headers.contains_key(other) ==> h[other] == headers[other]
        }),
        with_header(headers, Seq::empty(), value) == headers,
        with_header(headers, name, value + seq!['\n']) == headers,
{
    assert forall|i: int| 0 <= i < name.len() implies is_header_char(#[trigger] name[i])
        && lower_ascii(name[i]) == lower[i] by {
        assert(('a' <= name[i] <= 'z' || '0' <= name[i] <= '9' || name[i] == '-') && lower[i]
            == name[i] || ('A' <= name[i] <= 'Z' && lower[i] as int == name[i] as int + 32));
    }
    lemma_header_name(name, lower);
    let bad = value + seq!['\n'];
    assert(bad[value.len() as int] == '\n');
    assert(!is_header_value(bad));
}

/// Every request for server-sent events is authorised with the token, made for the account and
/// told apart by the session, and what the caller set under other names stays.
pub proof fn law_sse_request_is_authorised(
    base: Map<Seq<char>, Seq<char>>,
    account_id: Seq<char>,
    token: Seq<char>,
    session_id: Option<Seq<char>>,
    other: Seq<char>,
)
    requires
        is_header_value(account_id),
        is_header_value("Bearer "@ + token),
        session_id is Some ==> is_header_value(session_id->0),
        other != "authorization"@,
        other != "chatgpt-account-id"@,
        other != "openai-beta"@,
        other != "accept"@,
        other != "content-type"@,
        other != "session-id"@,
        other != "x-client-request-id"@,
    ensures
        ({
            let h = sse_headers(base, account_id, token, session_id);
            &&& h.contains_key("authorization"@) && h["authorization"@] == "Bearer "@ + token
            &&& h.contains_key("chatgpt-account-id"@) && h["chatgpt-account-id"@] == account_id
            &&& h.contains_key("accept"@) && h["accept"@] == "text/event-stream"@
            &&& h.contains_key("content-type"@) && h["content-type"@] == "application/json"@
            &&& h.contains_key("openai-beta"@)
            &&& session_id is Some ==> {
                &&& h.contains_key("session-id"@) && h["session-id"@] == session_id->0
                &&& h.contains_key("x-client-request-id"@) && h["x-client-request-id"@]
                    == session_id->0
            }
            &&& session_id is None ==> h.contains_key("session-id"@) == base.contains_key(
                "session-id"@,
            )
            &&& h.contains_key(other) == base.contains_key(other)
            &&& base.contains_key(other) ==> h[other] == base[other]
        }),
{
    lemma_names();
    lemma_protocol_values();
}

/// Every websocket request is authorised with the token, made for the account and told apart by
/// its id, and what the caller set under other names stays.
pub proof fn law_websocket_request_is_authorised(
    base: Map<Seq<char>, Seq<char>>,
    account_id: Seq<char>,
    token: Seq<char>,
    request_id: Seq<char>,
    other: Seq<char>,
)
    requires
        is_header_value(account_id),
        is_header_value("Bearer "@ + token),
        is_header_value(request_id),
        other != "authorization"@,
        other != "chatgpt-account-id"@,
        other != "openai-beta"@,
        other != "session-id"@,
        other != "x-client-request-id"@,
    ensures
        ({
            let h = websocket_headers(base, account_id, token, request_id);
            &&& h.contains_key("authorization"@) && h["authorization"@] == "Bearer "@ + token
            &&& h.contains_key("chatgpt-account-id"@) && h["chatgpt-account-id"@] == account_id
            &&& h.contains_key("openai-beta"@)
            &&& h.contains_key("session-id"@) && h["session-id"@] == request_id
            &&& h.contains_key("x-client-request-id"@) && h["x-client-request-id"@] == request_id
            &&& h.contains_key(other) == base.contains_key(other)
            &&& base.contains_key(other) ==> h[other] == base[other]
        }),
{
    lemma_names();
    lemma_protocol_values();
}

proof fn lemma_protocol_values()
    ensures
        is_header_value("responses=experimental"@),
        is_header_value("text/event-stream"@),
        is_header_value("application/json"@),
        is_header_value("responses_websockets=2026-02-06"@),
{
    reveal_strlit("responses=experimental");
    assert forall|i: int| 0 <= i < "responses=experimental"@.len() implies ((#[trigger] "responses=experimental"@[i]) as int >= 32 && "responses=experimental"@[i] as int != 127) || "responses=experimental"@[i] as int == 9 by {}
    reveal_strlit("text/event-stream");
    assert forall|i: int| 0 <= i < "text/event-stream"@.len() implies ((#[trigger] "text/event-stream"@[i]) as int >= 32 && "text/event-stream"@[i] as int != 127) || "text/event-stream"@[i] as int == 9 by {}
    reveal_strlit("application/json");
    assert forall|i: int| 0 <= i < "application/json"@.len() implies ((#[trigger] "application/json"@[i]) as int >= 32 && "application/json"@[i] as int != 127) || "application/json"@[i] as int == 9 by {}
    reveal_strlit("responses_websockets=2026-02-06");
    assert forall|i: int| 0 <= i < "responses_websockets=2026-02-06"@.len() implies ((#[trigger] "responses_websockets=2026-02-06"@[i]) as int >= 32 && "responses_websockets=2026-02-06"@[i] as int != 127) || "responses_websockets=2026-02-06"@[i] as int == 9 by {}
}

} // verus!
