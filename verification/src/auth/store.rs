//! Where credentials are kept.
use vstd::prelude::*;
use crate::auth::types;
use crate::auth::types::{
    ApiKeyCredential, ApiKeyCredentialView, Credential, CredentialInfo, CredentialView,
    OAuthCredential, OAuthCredentials, OAuthView,
};
use crate::dict;
use crate::dict::Dict;
use crate::json;
use crate::json::{Json, JsonView, Number, NumberView};
use crate::json_text;
use crate::json_text::{parse_json, print_json_pretty};
use crate::text::same_text;
use crate::views;

verus! {

broadcast use crate::views::group_views;

/// The texts of an object that holds nothing else.
pub open spec fn env_of(v: JsonView) -> Option<Map<Seq<char>, Seq<char>>> {
    match v {
        JsonView::Object(m) => if forall|k: Seq<char>| #[trigger]
            m.contains_key(k) ==> m[k].text() is Some {
            Some(Map::new(|k: Seq<char>| m.contains_key(k), |k: Seq<char>| m[k].text()->0))
        } else {
            None
        },
        _ => None,
    }
}

fn env_from_json(v: &Json) -> (r: Option<Dict<String>>)
    ensures
        crate::types::opt_texts(r) == env_of(v@),
{
    if !v.is_object() {
        return None;
    }
    let ghost m = v@->Object_0;
    let keys: Vec<String> = v.keys();
    let ghost names = views::all(keys@);
    let mut out: Dict<String> = Dict::new();
    let mut i: usize = 0;
    while i < keys.len()
        invariant
            i <= keys@.len(),
            names == views::all(keys@),
            v@ == JsonView::Object(m),
            forall|k: Seq<char>| #[trigger] m.contains_key(k) <==> names.contains(k),
            forall|k: Seq<char>| #[trigger]
                dict::texts(out@).contains_key(k) <==> names.take(i as int).contains(k),
            forall|k: Seq<char>| #[trigger]
                dict::texts(out@).contains_key(k) ==> m.contains_key(k) && m[k].text() == Some(
                    dict::texts(out@)[k],
                ),
        decreases keys@.len() - i,
    {
        proof {
            views::lemma_take_step(names, i as int);
        }
        let ghost had = dict::texts(out@);
        let ghost key = names[i as int];
        assert(keys@[i as int]@ == key);
        assert(names.contains(key));
        assert(m.contains_key(key));
        match v.field_str(keys[i].as_str()) {
            Some(s) => {
                let value: String = s.to_owned();
                out.insert(keys[i].as_str(), value);
                proof {
                    assert(dict::texts(out@) =~= had.insert(key, s@));
                    assert forall|k: Seq<char>| #[trigger]
                        dict::texts(out@).contains_key(k) <==> names.take(i + 1).contains(k) by {
                        assert(names.take(i + 1) == names.take(i as int).push(key));
                        if names.take(i as int).contains(k) {
                            let n = choose|n: int|
                                0 <= n < names.take(i as int).len() && names.take(i as int)[n] == k;
                            assert(names.take(i + 1)[n] == k);
                        }
                        if k == key {
                            assert(names.take(i + 1).last() == key);
                        }
                    }
                }
            },
            None => {
                assert(m[key].text() is None);
                return None;
            },
        }
        i = i + 1;
    }
    proof {
        views::lemma_take_all(names);
        assert forall|k: Seq<char>| #[trigger] m.contains_key(k) implies m[k].text() is Some by {
            assert(dict::texts(out@).contains_key(k));
        }
        assert(dict::texts(out@) =~= env_of(v@)->0);
    }
    Some(out)
}

/// When a date in RFC 3339 is, in milliseconds since the epoch, as `chrono` reads it.
pub uninterp spec fn rfc3339_millis(s: Seq<char>) -> Option<i64>;

/// `chrono::DateTime::parse_from_rfc3339` reads a date, and `timestamp_millis` says
/// when that is.
#[verifier::external_body]
fn parse_rfc3339(s: &str) -> (r: Option<i64>)
    ensures
        r == rfc3339_millis(s@),
{
    chrono::DateTime::parse_from_rfc3339(s).ok().map(|d| d.timestamp_millis())
}

/// A sign-in as this library writes it: whatever it does not know belongs to it too.
pub open spec fn native_sign_in(v: JsonView) -> Option<CredentialView> {
    match (v.field_text("access"@), v.field_text("refresh"@), v.get("expires"@)) {
        (Some(access), Some(refresh), Some(e)) => match e.signed() {
            Some(expires) => Some(
                CredentialView::OAuth(
                    OAuthView {
                        kind: "oauth"@,
                        refresh,
                        access,
                        expires,
                        extra: v.without("type"@).without("refresh"@).without("access"@).without(
                            "expires"@,
                        ),
                    },
                ),
            ),
            None => None,
        },
        _ => None,
    }
}

/// When a sign-in that was written by hand ends, given when the date that it names
/// is: nothing where it does not say.
pub open spec fn hand_expires(v: JsonView, at: Option<i64>) -> i64 {
    let stated = match v.get("expires"@) {
        Some(e) => e.signed(),
        None => None,
    };
    views::or(views::first_of(stated, at), 0)
}

/// A sign-in that was written by hand, given when the date that it names is.
pub open spec fn hand_sign_in(v: JsonView, at: Option<i64>) -> Option<CredentialView> {
    let access = match views::first_of(v.get("access_token"@), v.get("access"@)) {
        Some(a) => a.text(),
        None => None,
    };
    let refresh = match views::first_of(v.get("refresh_token"@), v.get("refresh"@)) {
        Some(a) => views::or(a.text(), Seq::empty()),
        None => Seq::empty(),
    };
    let account = match v.field_text("chatgpt_account_id"@) {
        Some(a) => Some(json::jtext(a)),
        None => None,
    };
    let scope = match v.field_text("scope"@) {
        Some(s) => Some(json::jtext(s)),
        None => None,
    };
    match access {
        Some(a) => Some(
            CredentialView::OAuth(
                OAuthView {
                    kind: "oauth"@,
                    refresh,
                    access: a,
                    expires: hand_expires(v, at),
                    extra: JsonView::object().with_opt("account_id"@, account).with_opt(
                        "scope"@,
                        scope,
                    ),
                },
            ),
        ),
        None => None,
    }
}

/// The credential that a value stands for, given when the date that it names is.
pub open spec fn credential_given(v: JsonView, at: Option<i64>) -> Option<CredentialView> {
    match v.field_text("type"@) {
        Some(kind) => if kind == "api"@ || kind == "api_key"@ {
            Some(
                CredentialView::ApiKey(
                    ApiKeyCredentialView {
                        kind: "api_key"@,
                        key: v.field_text("key"@),
                        env: match v.get("env"@) {
                            Some(e) => env_of(e),
                            None => None,
                        },
                    },
                ),
            )
        } else if kind == "oauth"@ {
            if v.get("access"@) is Some && v.get("access_token"@) is None {
                native_sign_in(v)
            } else {
                hand_sign_in(v, at)
            }
        } else {
            None
        },
        None => None,
    }
}

/// When the date that a value names is.
pub open spec fn named_date(v: JsonView) -> Option<i64> {
    match v.field_text("expires_at"@) {
        Some(s) => rfc3339_millis(s),
        None => None,
    }
}

/// The credential that a value stands for.
pub open spec fn loose_credential(v: JsonView) -> Option<CredentialView> {
    credential_given(v, named_date(v))
}

fn native_sign_in_exec(v: &Json) -> (r: Option<Credential>)
    ensures
        views::opt(r) == native_sign_in(v@),
{
    match (v.field_str("access"), v.field_str("refresh"), v.get("expires")) {
        (Some(access), Some(refresh), Some(e)) => match e.as_i64() {
            Some(expires) => Some(
                Credential::OAuth(
                    OAuthCredential {
                        kind: "oauth".to_owned(),
                        inner: OAuthCredentials {
                            refresh: refresh.to_owned(),
                            access: access.to_owned(),
                            expires,
                            extra: v.without("type").without("refresh").without("access").without(
                                "expires",
                            ),
                        },
                    },
                ),
            ),
            None => None,
        },
        _ => None,
    }
}

fn hand_sign_in_exec(v: &Json, at: Option<i64>) -> (r: Option<Credential>)
    ensures
        views::opt(r) == hand_sign_in(v@, at),
{
    let named: Option<&Json> = match v.get("access_token") {
        Some(a) => Some(a),
        None => v.get("access"),
    };
    let access: String = match named {
        Some(a) => match a.as_str() {
            Some(s) => s.to_owned(),
            None => return None,
        },
        None => return None,
    };
    let renewing: Option<&Json> = match v.get("refresh_token") {
        Some(a) => Some(a),
        None => v.get("refresh"),
    };
    let refresh: String = match renewing {
        Some(a) => match a.as_str() {
            Some(s) => s.to_owned(),
            None => String::new(),
        },
        None => String::new(),
    };
    let stated: Option<i64> = match v.get("expires") {
        Some(e) => e.as_i64(),
        None => None,
    };
    let expires: i64 = match stated {
        Some(e) => e,
        None => match at {
            Some(e) => e,
            None => 0,
        },
    };
    let mut extra: Json = Json::object();
    if let Some(a) = v.field_str("chatgpt_account_id") {
        extra.set("account_id", Json::text(a));
    }
    if let Some(s) = v.field_str("scope") {
        extra.set("scope", Json::text(s));
    }
    Some(
        Credential::OAuth(
            OAuthCredential {
                kind: "oauth".to_owned(),
                inner: OAuthCredentials { refresh, access, expires, extra },
            },
        ),
    )
}

/// The credential that a value stands for, given when the date that it names is.
pub fn credential_with_date(v: &Json, at: Option<i64>) -> (r: Option<Credential>)
    ensures
        views::opt(r) == credential_given(v@, at),
{
    match v.field_str("type") {
        Some(kind) => {
            if same_text(kind, "api") || same_text(kind, "api_key") {
                let env: Option<Dict<String>> = match v.get("env") {
                    Some(e) => env_from_json(e),
                    None => None,
                };
                Some(
                    Credential::ApiKey(
                        ApiKeyCredential {
                            kind: "api_key".to_owned(),
                            key: views::opt_owned(v.field_str("key")),
                            env,
                        },
                    ),
                )
            } else if same_text(kind, "oauth") {
                if v.get("access").is_some() && v.get("access_token").is_none() {
                    native_sign_in_exec(v)
                } else {
                    hand_sign_in_exec(v, at)
                }
            } else {
                None
            }
        },
        None => None,
    }
}

/// Reads a credential, as this library writes it or as people write it by hand.
pub fn parse_loose_credential(v: &Json) -> (r: Option<Credential>)
    ensures
        views::opt(r) == loose_credential(v@),
{
    let at: Option<i64> = match v.field_str("expires_at") {
        Some(s) => parse_rfc3339(s),
        None => None,
    };
    credential_with_date(v, at)
}

/// A whole number as JSON.
pub open spec fn whole_number(n: i64) -> JsonView {
    if n < 0 {
        JsonView::Number(NumberView::Negative(n))
    } else {
        json::junsigned(n as u64)
    }
}

fn whole_number_json(n: i64) -> (r: Json)
    ensures
        r@ == whole_number(n),
{
    if n < 0 {
        Json::Number(Number::Negative(n))
    } else {
        Json::unsigned(n as u64)
    }
}

/// Texts as an object.
pub open spec fn texts_object(m: Map<Seq<char>, Seq<char>>) -> JsonView {
    JsonView::Object(m.map_values(|s: Seq<char>| json::jtext(s)))
}

fn texts_json(d: &Dict<String>) -> (r: Json)
    ensures
        r@ == texts_object(dict::texts(d@)),
{
    let keys: Vec<String> = d.keys();
    let ghost names = views::all(keys@);
    let ghost m = dict::texts(d@);
    let mut out: Json = Json::object();
    let mut i: usize = 0;
    while i < keys.len()
        invariant
            i <= keys@.len(),
            names == views::all(keys@),
            m == dict::texts(d@),
            forall|k: Seq<char>| #[trigger] d@.contains_key(k) <==> names.contains(k),
            out@ is Object,
            forall|k: Seq<char>| #[trigger]
                out@->Object_0.contains_key(k) <==> names.take(i as int).contains(k),
            forall|k: Seq<char>| #[trigger]
                out@->Object_0.contains_key(k) ==> m.contains_key(k) && out@->Object_0[k]
                    == json::jtext(m[k]),
        decreases keys@.len() - i,
    {
        proof {
            views::lemma_take_step(names, i as int);
        }
        let ghost had = out@->Object_0;
        let ghost key = names[i as int];
        assert(keys@[i as int]@ == key);
        assert(names.contains(key));
        assert(d@.contains_key(key));
        if let Some(s) = d.get_text(keys[i].as_str()) {
            out.set(keys[i].as_str(), Json::text(s));
            assert(out@->Object_0 =~= had.insert(key, json::jtext(m[key])));
        }
        proof {
            assert forall|k: Seq<char>| #[trigger]
                out@->Object_0.contains_key(k) <==> names.take(i + 1).contains(k) by {
                if names.take(i as int).contains(k) {
                    let n = choose|n: int|
                        0 <= n < names.take(i as int).len() && names.take(i as int)[n] == k;
                    assert(names.take(i + 1)[n] == k);
                }
                if k == key {
                    assert(names.take(i + 1).last() == key);
                }
            }
        }
        i = i + 1;
    }
    proof {
        views::lemma_take_all(names);
        assert forall|k: Seq<char>| #[trigger] m.contains_key(k) implies out@->Object_0.contains_key(
            k,
        ) by {
            assert(d@.contains_key(k));
        }
        assert(out@->Object_0 =~= texts_object(m)->Object_0);
    }
    out
}

/// A credential as JSON. What else belongs to a sign-in stands beside its own fields.
pub open spec fn credential_object(c: CredentialView) -> JsonView {
    match c {
        CredentialView::ApiKey(k) => JsonView::object().with("type"@, json::jtext(k.kind)).with_opt(
            "key"@,
            match k.key {
                Some(s) => Some(json::jtext(s)),
                None => None,
            },
        ).with_opt(
            "env"@,
            match k.env {
                Some(m) => Some(texts_object(m)),
                None => None,
            },
        ),
        CredentialView::OAuth(o) => {
            let own = JsonView::object().with("type"@, json::jtext(o.kind)).with(
                "refresh"@,
                json::jtext(o.refresh),
            ).with("access"@, json::jtext(o.access)).with("expires"@, whole_number(o.expires));
            match o.extra {
                JsonView::Object(m) => JsonView::Object(own->Object_0.union_prefer_right(m)),
                _ => own,
            }
        },
    }
}

/// A credential as JSON.
pub fn credential_json(c: &Credential) -> (r: Json)
    ensures
        r@ == credential_object(c@),
{
    match c {
        Credential::ApiKey(k) => {
            let mut out: Json = Json::object().with("type", Json::text(k.kind.as_str()));
            if let Some(s) = &k.key {
                out.set("key", Json::text(s.as_str()));
            }
            if let Some(m) = &k.env {
                out.set("env", texts_json(m));
            }
            out
        },
        Credential::OAuth(o) => {
            let mut out: Json = Json::object().with("type", Json::text(o.kind.as_str())).with(
                "refresh",
                Json::text(o.inner.refresh.as_str()),
            ).with("access", Json::text(o.inner.access.as_str())).with(
                "expires",
                whole_number_json(o.inner.expires),
            );
            overlay(&mut out, &o.inner.extra);
            out
        },
    }
}

/// Puts the fields of one object over those of another.
fn overlay(out: &mut Json, over: &Json)
    requires
        old(out)@ is Object,
    ensures
        final(out)@ == (match over@ {
            JsonView::Object(m) => JsonView::Object(old(out)@->Object_0.union_prefer_right(m)),
            _ => old(out)@,
        }),
{
    if !over.is_object() {
        return;
    }
    let ghost base = out@->Object_0;
    let ghost m = over@->Object_0;
    let keys: Vec<String> = over.keys();
    let ghost names = views::all(keys@);
    let mut i: usize = 0;
    proof {
        views::lemma_take_all(names);
    }
    while i < keys.len()
        invariant
            i <= keys@.len(),
            names == views::all(keys@),
            over@ == JsonView::Object(m),
            forall|k: Seq<char>| #[trigger] m.contains_key(k) <==> names.contains(k),
            out@ is Object,
            forall|k: Seq<char>| #[trigger]
                out@->Object_0.contains_key(k) <==> base.contains_key(k) || names.take(
                    i as int,
                ).contains(k),
            forall|k: Seq<char>| #[trigger]
                out@->Object_0.contains_key(k) ==> out@->Object_0[k] == (if names.take(
                    i as int,
                ).contains(k) {
                    m[k]
                } else {
                    base[k]
                }),
        decreases keys@.len() - i,
    {
        proof {
            views::lemma_take_step(names, i as int);
        }
        let ghost had = out@->Object_0;
        let ghost key = names[i as int];
        assert(keys@[i as int]@ == key);
        assert(names.contains(key));
        assert(m.contains_key(key));
        if let Some(v) = over.get(keys[i].as_str()) {
            out.set(keys[i].as_str(), json::clone_json(v));
            assert(out@->Object_0 =~= had.insert(key, m[key]));
        }
        proof {
            assert forall|k: Seq<char>|
                names.take(i + 1).contains(k) == (names.take(i as int).contains(k) || k == key) by {
                if names.take(i as int).contains(k) {
                    let n = choose|n: int|
                        0 <= n < names.take(i as int).len() && names.take(i as int)[n] == k;
                    assert(names.take(i + 1)[n] == k);
                }
                if k == key {
                    assert(names.take(i + 1).last() == key);
                }
            }
        }
        i = i + 1;
    }
    proof {
        views::lemma_take_all(names);
        assert(out@->Object_0 =~= base.union_prefer_right(m));
    }
}

/// The credentials that a file holds, given what reading it as JSON came to: what is
/// no credential is left out, and a file that is no object holds none.
pub open spec fn credentials_read(file: Result<JsonView, Seq<char>>) -> Map<
    Seq<char>,
    CredentialView,
> {
    match file {
        Ok(JsonView::Object(m)) => Map::new(
            |k: Seq<char>| m.contains_key(k) && loose_credential(m[k]) is Some,
            |k: Seq<char>| loose_credential(m[k])->0,
        ),
        _ => Map::empty(),
    }
}

/// The credentials that a value holds.
pub fn credentials_from_json(v: &Json) -> (r: Dict<Credential>)
    ensures
        dict::meanings(r@) == credentials_read(Ok(v@)),
{
    let mut out: Dict<Credential> = Dict::new();
    if !v.is_object() {
        assert(dict::meanings(out@) =~= credentials_read(Ok(v@)));
        return out;
    }
    let ghost m = v@->Object_0;
    let ghost want = credentials_read(Ok(v@));
    let keys: Vec<String> = v.keys();
    let ghost names = views::all(keys@);
    let mut i: usize = 0;
    while i < keys.len()
        invariant
            i <= keys@.len(),
            names == views::all(keys@),
            v@ == JsonView::Object(m),
            want == credentials_read(Ok(v@)),
            forall|k: Seq<char>| #[trigger] m.contains_key(k) <==> names.contains(k),
            forall|k: Seq<char>| #[trigger]
                dict::meanings(out@).contains_key(k) <==> want.contains_key(k) && names.take(
                    i as int,
                ).contains(k),
            forall|k: Seq<char>| #[trigger]
                dict::meanings(out@).contains_key(k) ==> dict::meanings(out@)[k] == want[k],
        decreases keys@.len() - i,
    {
        proof {
            views::lemma_take_step(names, i as int);
        }
        let ghost had = dict::meanings(out@);
        let ghost key = names[i as int];
        assert(keys@[i as int]@ == key);
        assert(names.contains(key));
        assert(m.contains_key(key));
        if let Some(item) = v.get(keys[i].as_str()) {
            if let Some(c) = parse_loose_credential(item) {
                let ghost cv = c@;
                out.insert(keys[i].as_str(), c);
                assert(dict::meanings(out@) =~= had.insert(key, cv));
                assert(want.contains_key(key) && want[key] == cv);
            } else {
                assert(!want.contains_key(key));
            }
        }
        proof {
            assert forall|k: Seq<char>|
                names.take(i + 1).contains(k) == (names.take(i as int).contains(k) || k == key) by {
                if names.take(i as int).contains(k) {
                    let n = choose|n: int|
                        0 <= n < names.take(i as int).len() && names.take(i as int)[n] == k;
                    assert(names.take(i + 1)[n] == k);
                }
                if k == key {
                    assert(names.take(i + 1).last() == key);
                }
            }
        }
        i = i + 1;
    }
    proof {
        views::lemma_take_all(names);
        assert(dict::meanings(out@) =~= want);
    }
    out
}

/// The credentials that the text of a file holds.
pub fn credentials_from_text(raw: &str) -> (r: Dict<Credential>)
    ensures
        dict::meanings(r@) == credentials_read(json_text::json_of_text(raw@)),
{
    match parse_json(raw) {
        Ok(v) => credentials_from_json(&v),
        Err(_) => {
            let none: Dict<Credential> = Dict::new();
            assert(dict::meanings(none@) =~= Map::<Seq<char>, CredentialView>::empty());
            none
        },
    }
}

/// Credentials as JSON.
pub open spec fn credentials_object(all: Map<Seq<char>, CredentialView>) -> JsonView {
    JsonView::Object(all.map_values(|c: CredentialView| credential_object(c)))
}

/// Credentials as JSON.
pub fn credentials_json(all: &Dict<Credential>) -> (r: Json)
    ensures
        r@ == credentials_object(dict::meanings(all@)),
{
    let keys: Vec<String> = all.keys();
    let ghost names = views::all(keys@);
    let ghost m = dict::meanings(all@);
    let mut out: Json = Json::object();
    let mut i: usize = 0;
    while i < keys.len()
        invariant
            i <= keys@.len(),
            names == views::all(keys@),
            m == dict::meanings(all@),
            forall|k: Seq<char>| #[trigger] all@.contains_key(k) <==> names.contains(k),
            out@ is Object,
            forall|k: Seq<char>| #[trigger]
                out@->Object_0.contains_key(k) <==> names.take(i as int).contains(k),
            forall|k: Seq<char>| #[trigger]
                out@->Object_0.contains_key(k) ==> m.contains_key(k) && out@->Object_0[k]
                    == credential_object(m[k]),
        decreases keys@.len() - i,
    {
        proof {
            views::lemma_take_step(names, i as int);
        }
        let ghost had = out@->Object_0;
        let ghost key = names[i as int];
        assert(keys@[i as int]@ == key);
        assert(names.contains(key));
        assert(all@.contains_key(key));
        if let Some(c) = all.get(keys[i].as_str()) {
            out.set(keys[i].as_str(), credential_json(c));
            assert(out@->Object_0 =~= had.insert(key, credential_object(m[key])));
        }
        proof {
            assert forall|k: Seq<char>| #[trigger]
                out@->Object_0.contains_key(k) <==> names.take(i + 1).contains(k) by {
                if names.take(i as int).contains(k) {
                    let n = choose|n: int|
                        0 <= n < names.take(i as int).len() && names.take(i as int)[n] == k;
                    assert(names.take(i + 1)[n] == k);
                }
                if k == key {
                    assert(names.take(i + 1).last() == key);
                }
            }
        }
        i = i + 1;
    }
    proof {
        views::lemma_take_all(names);
        assert forall|k: Seq<char>| #[trigger] m.contains_key(k) implies out@->Object_0.contains_key(
            k,
        ) by {
            assert(all@.contains_key(k));
        }
        assert(out@->Object_0 =~= credentials_object(m)->Object_0);
    }
    out
}

/// Whether a credential reads back as it was written: it is of the kind that it says,
/// what else belongs to a sign-in takes no name of its own fields, and is read back
/// by `serde_json`.
pub open spec fn is_sound(c: CredentialView) -> bool {
    match c {
        CredentialView::ApiKey(k) => k.kind == "api_key"@,
        CredentialView::OAuth(o) => {
            &&& o.kind == "oauth"@
            &&& json_text::is_exact(o.extra, 126)
            &&& match o.extra {
                JsonView::Object(m) => !m.contains_key("type"@) && !m.contains_key("refresh"@)
                    && !m.contains_key("access"@) && !m.contains_key("expires"@)
                    && !m.contains_key("access_token"@),
                _ => false,
            }
        },
    }
}

proof fn lemma_names_differ()
    ensures
        "type"@ != "key"@,
        "type"@ != "env"@,
        "key"@ != "env"@,
        "type"@ != "refresh"@,
        "type"@ != "access"@,
        "type"@ != "expires"@,
        "refresh"@ != "access"@,
        "refresh"@ != "expires"@,
        "access"@ != "expires"@,
        "access_token"@ != "type"@,
        "access_token"@ != "refresh"@,
        "access_token"@ != "access"@,
        "access_token"@ != "expires"@,
        "oauth"@ != "api"@,
        "oauth"@ != "api_key"@,
{
    reveal_strlit("type");
    reveal_strlit("key");
    reveal_strlit("env");
    reveal_strlit("refresh");
    reveal_strlit("access");
    reveal_strlit("expires");
    reveal_strlit("access_token");
    reveal_strlit("oauth");
    reveal_strlit("api");
    reveal_strlit("api_key");
    assert("type"@.len() == 4 && "access"@.len() == 6 && "access_token"@.len() == 12);
    assert("oauth"@.len() == 5 && "api"@.len() == 3 && "api_key"@.len() == 7);
    assert("key"@[0] != "env"@[0]);
    assert("refresh"@[0] != "expires"@[0]);
    assert("refresh"@.len() == 7 && "expires"@.len() == 7);
}

/// A credential reads back as it was written.
pub proof fn law_credential_reads_back(c: CredentialView)
    requires
        is_sound(c),
    ensures
        loose_credential(credential_object(c)) == Some(c),
{
    lemma_names_differ();
    let v = credential_object(c);
    match c {
        CredentialView::ApiKey(k) => {
            if let Some(m) = k.env {
                let o = texts_object(m);
                assert(v.get("env"@) == Some(o));
                assert forall|n: Seq<char>| #[trigger] o->Object_0.contains_key(n) implies (
                o->Object_0[n].text() is Some) by {}
                assert(env_of(o)->0 =~= m);
            }
        },
        CredentialView::OAuth(o) => {
            let m = o.extra->Object_0;
            assert(v.field_text("type"@) == Some("oauth"@));
            assert(v.get("access"@) is Some && v.get("access_token"@) is None);
            let rest = v.without("type"@).without("refresh"@).without("access"@).without(
                "expires"@,
            );
            assert(rest->Object_0 =~= m);
        },
    }
}

proof fn lemma_credential_exact(c: CredentialView)
    requires
        is_sound(c),
    ensures
        json_text::is_exact(credential_object(c), 126),
{
    let v = credential_object(c);
    let m = v->Object_0;
    assert forall|k: Seq<char>| #[trigger] m.contains_key(k) implies json_text::is_exact(
        m[k],
        125,
    ) by {
        match c {
            CredentialView::ApiKey(a) => {
                if let Some(e) = a.env {
                    let o = texts_object(e);
                    assert forall|n: Seq<char>| #[trigger] o->Object_0.contains_key(n) implies (
                    json_text::is_exact(o->Object_0[n], 124)) by {}
                    assert(json_text::is_exact(o, 125));
                }
            },
            CredentialView::OAuth(o) => {
                if o.extra->Object_0.contains_key(k) {
                    assert(json_text::is_exact(o.extra->Object_0[k], 125));
                }
            },
        }
    }
}

/// The text of a file that holds credentials.
pub fn credentials_text(all: &Dict<Credential>) -> (r: String)
    ensures
        r@ == json_text::pretty_text_of_json(credentials_object(dict::meanings(all@))),
        (forall|k: Seq<char>| #[trigger]
            dict::meanings(all@).contains_key(k) ==> is_sound(dict::meanings(all@)[k]))
            ==> credentials_read(json_text::json_of_text(r@)) == dict::meanings(all@),
{
    let v: Json = credentials_json(all);
    let r: String = print_json_pretty(&v);
    proof {
        let m = dict::meanings(all@);
        if forall|k: Seq<char>| #[trigger] m.contains_key(k) ==> is_sound(m[k]) {
            let o = v@->Object_0;
            assert forall|k: Seq<char>| #[trigger] o.contains_key(k) implies json_text::is_exact(
                o[k],
                126,
            ) by {
                assert(m.contains_key(k));
                lemma_credential_exact(m[k]);
            }
            assert(json_text::is_exact(v@, 127));
            assert forall|k: Seq<char>| #[trigger] m.contains_key(k) implies loose_credential(o[k])
                == Some(m[k]) by {
                law_credential_reads_back(m[k]);
            }
            assert(credentials_read(Ok(v@)) =~= m);
        }
    }
    r
}

/// The key under which the sign-in of one provider is kept for another, where that
/// is so.
pub open spec fn alias_of(provider_id: Seq<char>) -> Option<Seq<char>> {
    if provider_id == "chatgpt-plus"@ {
        Some("openai"@)
    } else {
        None
    }
}

/// The credential of a provider: its own, else that of its alias.
pub open spec fn found(all: Map<Seq<char>, CredentialView>, provider_id: Seq<char>) -> Option<
    CredentialView,
> {
    if all.contains_key(provider_id) {
        Some(all[provider_id])
    } else {
        match alias_of(provider_id) {
            Some(a) => if all.contains_key(a) {
                Some(all[a])
            } else {
                None
            },
            None => None,
        }
    }
}

/// The credential of a provider in a file.
pub fn find_credential(all: &Dict<Credential>, provider_id: &str) -> (r: Option<Credential>)
    ensures
        views::opt(r) == found(dict::meanings(all@), provider_id@),
{
    match all.get(provider_id) {
        Some(c) => Some(c.clone()),
        None => if same_text(provider_id, "chatgpt-plus") {
            match all.get("openai") {
                Some(c) => Some(c.clone()),
                None => None,
            }
        } else {
            None
        },
    }
}

/// The credentials of a file behind a change: a credential takes the place of the
/// old one, none takes it away.
pub open spec fn changed(
    all: Map<Seq<char>, CredentialView>,
    provider_id: Seq<char>,
    result: Option<CredentialView>,
) -> Map<Seq<char>, CredentialView> {
    match result {
        Some(c) => all.insert(provider_id, c),
        None => all.remove(provider_id),
    }
}

/// Changes the credentials of a file.
pub fn change_credential(
    all: &mut Dict<Credential>,
    provider_id: &str,
    result: Option<Credential>,
)
    ensures
        dict::meanings(final(all)@) == changed(
            dict::meanings(old(all)@),
            provider_id@,
            views::opt(result),
        ),
{
    let ghost before = dict::meanings(all@);
    match result {
        Some(c) => {
            let ghost cv = c@;
            all.insert(provider_id, c);
            assert(dict::meanings(all@) =~= before.insert(provider_id@, cv));
        },
        None => {
            let _ = all.remove(provider_id);
            assert(dict::meanings(all@) =~= before.remove(provider_id@));
        },
    }
}

/// Whether a list names every provider of some credentials once, with its kind.
pub open spec fn is_listing(
    infos: Seq<types::CredentialInfoView>,
    all: Map<Seq<char>, CredentialView>,
) -> bool {
    let names = infos.map_values(|i: types::CredentialInfoView| i.provider_id);
    &&& names.no_duplicates()
    &&& forall|k: Seq<char>| #[trigger] all.contains_key(k) <==> names.contains(k)
    &&& forall|i: int|
        0 <= i < infos.len() ==> (#[trigger] infos[i]).kind == types::credential_kind(
            all[infos[i].provider_id],
        )
}

/// The providers that are signed in to, in no particular order.
pub fn list_credentials(all: &Dict<Credential>) -> (r: Vec<CredentialInfo>)
    ensures
        is_listing(views::all(r@), dict::meanings(all@)),
{
    let keys: Vec<String> = all.keys();
    let ghost names = views::all(keys@);
    let ghost m = dict::meanings(all@);
    let mut out: Vec<CredentialInfo> = Vec::new();
    let mut i: usize = 0;
    while i < keys.len()
        invariant
            i <= keys@.len(),
            out@.len() == i,
            names == views::all(keys@),
            m == dict::meanings(all@),
            forall|k: Seq<char>| #[trigger] all@.contains_key(k) <==> names.contains(k),
            forall|j: int|
                0 <= j < i ==> {
                    let info = #[trigger] views::all(out@)[j];
                    info.provider_id == names[j] && info.kind == types::credential_kind(m[names[j]])
                },
        decreases keys@.len() - i,
    {
        let ghost before = views::all(out@);
        let ghost key = names[i as int];
        assert(keys@[i as int]@ == key);
        assert(names.contains(key));
        assert(all@.contains_key(key));
        let kind: &str = match all.get(keys[i].as_str()) {
            Some(c) => c.kind(),
            None => "",
        };
        out.push(CredentialInfo { provider_id: keys[i].clone(), kind: kind.to_owned() });
        assert(forall|j: int| 0 <= j < i ==> #[trigger] views::all(out@)[j] == before[j]);
        i = i + 1;
    }
    assert(views::all(out@).map_values(|i: types::CredentialInfoView| i.provider_id) =~= names);
    out
}

/// Credentials that are kept for as long as the program runs.
pub struct InMemoryCredentialStore {
    pub entries: Dict<Credential>,
}

impl View for InMemoryCredentialStore {
    type V = Map<Seq<char>, CredentialView>;

    open spec fn view(&self) -> Map<Seq<char>, CredentialView> {
        dict::meanings(self.entries@)
    }
}

impl InMemoryCredentialStore {
    /// A store without credentials.
    pub fn new() -> (r: InMemoryCredentialStore)
        ensures
            r@ == Map::<Seq<char>, CredentialView>::empty(),
    {
        let s: InMemoryCredentialStore = InMemoryCredentialStore { entries: Dict::new() };
        assert(s@ =~= Map::<Seq<char>, CredentialView>::empty());
        s
    }

    /// The credential of a provider.
    pub fn read(&self, provider_id: &str) -> (r: Option<Credential>)
        ensures
            views::opt(r) == (if self@.contains_key(provider_id@) {
                Some(self@[provider_id@])
            } else {
                None
            }),
    {
        match self.entries.get(provider_id) {
            Some(c) => Some(c.clone()),
            None => None,
        }
    }

    /// The providers that are signed in to, in no particular order.
    pub fn list(&self) -> (r: Vec<CredentialInfo>)
        ensures
            is_listing(views::all(r@), self@),
    {
        list_credentials(&self.entries)
    }

    /// Keeps what a change came to, and hands it back: no credential leaves the old one as
    /// it is.
    pub fn commit(&mut self, provider_id: &str, result: Option<Credential>) -> (r: Option<Credential>)
        ensures
            views::opt(r) == views::opt(result),
            final(self)@ == (match result {
                Some(c) => old(self)@.insert(provider_id@, c@),
                None => old(self)@,
            }),
    {
        if let Some(c) = &result {
            let ghost before = self@;
            let ghost cv = c@;
            self.entries.insert(provider_id, c.clone());
            assert(self@ =~= before.insert(provider_id@, cv));
        }
        result
    }

    /// Takes the credential of a provider away.
    pub fn delete(&mut self, provider_id: &str)
        ensures
            final(self)@ == old(self)@.remove(provider_id@),
    {
        let ghost before = self@;
        let _ = self.entries.remove(provider_id);
        assert(self@ =~= before.remove(provider_id@));
    }
}

/// A provider's credential is the one that was kept last, until it is taken away,
/// and keeping or taking it away leaves every other provider's as it is.
pub proof fn law_store_keeps_what_it_is_given(
    all: Map<Seq<char>, CredentialView>,
    provider_id: Seq<char>,
    other: Seq<char>,
    c: CredentialView,
)
    requires
        other != provider_id,
        alias_of(other) != Some(provider_id),
    ensures
        found(changed(all, provider_id, Some(c)), provider_id) == Some(c),
        !changed(all, provider_id, None).contains_key(provider_id),
        found(changed(all, provider_id, Some(c)), other) == found(all, other),
        found(changed(all, provider_id, None), other) == found(all, other),
{
}

/// Credentials that read back as they were written still do behind a change to one
/// that does.
pub proof fn law_change_keeps_soundness(
    all: Map<Seq<char>, CredentialView>,
    provider_id: Seq<char>,
    result: Option<CredentialView>,
)
    requires
        forall|k: Seq<char>| #[trigger] all.contains_key(k) ==> is_sound(all[k]),
        result is Some ==> is_sound(result->0),
    ensures
        forall|k: Seq<char>| #[trigger]
            changed(all, provider_id, result).contains_key(k) ==> is_sound(
                changed(all, provider_id, result)[k],
            ),
{
}

/// A credential that someone wrote down is read: a key with what goes with it, and a sign-in by
/// its tokens under either name, with when it ends.
pub proof fn law_written_credential_is_read(v: JsonView, at: Option<i64>, text: Seq<char>)
    ensures
        (v.field_text("type"@) == Some("api_key"@) || v.field_text("type"@) == Some("api"@)) ==> {
            let c = credential_given(v, at);
            &&& c is Some
            &&& c->0 is ApiKey
            &&& c->0->ApiKey_0.key == v.field_text("key"@)
            &&& v.get("env"@) is None ==> c->0->ApiKey_0.env is None
        },
        v.field_text("type"@) == Some("oauth"@) && v.field_text("access_token"@) == Some(text) ==> {
            let c = credential_given(v, at);
            &&& c is Some
            &&& c->0 is OAuth
            &&& c->0->OAuth_0.access == text
            &&& v.field_text("refresh_token"@) is Some ==> c->0->OAuth_0.refresh == v.field_text(
                "refresh_token"@,
            )->0
            &&& v.get("expires"@) is None && at is Some ==> c->0->OAuth_0.expires == at->0
            &&& v.get("expires"@) is None && at is None ==> c->0->OAuth_0.expires == 0
            &&& v.get("expires"@) is Some && v.get("expires"@)->0.signed() is Some
                ==> c->0->OAuth_0.expires == v.get("expires"@)->0.signed()->0
        },
        v.field_text("type"@) == Some("oauth"@) && v.get("access_token"@) is None && v.field_text(
            "access"@,
        ) == Some(text) && v.field_text("refresh"@) is Some && v.get("expires"@) is Some && v.get(
            "expires"@,
        )->0.signed() is Some ==> {
            let c = credential_given(v, at);
            &&& c is Some
            &&& c->0 is OAuth
            &&& c->0->OAuth_0.access == text
            &&& c->0->OAuth_0.refresh == v.field_text("refresh"@)->0
            &&& c->0->OAuth_0.expires == v.get("expires"@)->0.signed()->0
        },
        v.field_text("type"@) is None ==> credential_given(v, at) is None,
        v.field_text("type"@) == Some("oauth"@) && v.get("access_token"@) is None && v.get(
            "access"@,
        ) is None ==> credential_given(v, at) is None,
{
    lemma_names_differ();
    reveal_strlit("api");
    reveal_strlit("api_key");
    reveal_strlit("oauth");
    assert("api"@.len() == 3 && "api_key"@.len() == 7 && "oauth"@.len() == 5);
}

/// A provider has its own credential, and one that shares the account of another has that one
/// where it has none of its own; the credential of no other provider is ever found.
pub proof fn law_own_credential_is_found(
    all: Map<Seq<char>, CredentialView>,
    provider: Seq<char>,
    c: CredentialView,
)
    ensures
        found(all.insert(provider, c), provider) == Some(c),
        !all.contains_key("chatgpt-plus"@) && all.contains_key("openai"@) ==> found(
            all,
            "chatgpt-plus"@,
        ) == Some(all["openai"@]),
        provider != "chatgpt-plus"@ && !all.contains_key(provider) ==> found(all, provider)
            is None,
        !all.contains_key("chatgpt-plus"@) && !all.contains_key("openai"@) ==> found(
            all,
            "chatgpt-plus"@,
        ) is None,
{
}

/// Changing the credential of a provider changes that and no other, and taking it away leaves
/// none.
pub proof fn law_change_is_read_back(
    all: Map<Seq<char>, CredentialView>,
    provider: Seq<char>,
    c: CredentialView,
    other: Seq<char>,
)
    requires
        other != provider,
    ensures
        changed(all, provider, Some(c)).contains_key(provider),
        changed(all, provider, Some(c))[provider] == c,
        !changed(all, provider, None).contains_key(provider),
        changed(all, provider, Some(c)).contains_key(other) == all.contains_key(other),
        changed(all, provider, None).contains_key(other) == all.contains_key(other),
        all.contains_key(other) ==> changed(all, provider, Some(c))[other] == all[other] && changed(
            all,
            provider,
            None,
        )[other] == all[other],
{
}

/// Of a file every value that stands for a credential is read under its name, and no other; a file
/// that holds no object holds no credentials.
pub proof fn law_file_is_read_by_name(
    m: Map<Seq<char>, JsonView>,
    name: Seq<char>,
    e: Seq<char>,
)
    ensures
        credentials_read(Ok(JsonView::Object(m))).contains_key(name) <==> m.contains_key(name)
            && loose_credential(m[name]) is Some,
        credentials_read(Ok(JsonView::Object(m))).contains_key(name) ==> Some(
            credentials_read(Ok(JsonView::Object(m)))[name],
        ) == loose_credential(m[name]),
        !credentials_read(Err(e)).contains_key(name),
        !credentials_read(Ok(JsonView::Null)).contains_key(name),
{
}

/// A sign-in that was written by hand is read under either name of each token, and keeps the
/// account and what it may do.
pub proof fn law_sign_in_by_hand_is_read(v: JsonView, at: Option<i64>, access: Seq<char>)
    requires
        v.field_text("type"@) == Some("oauth"@),
        v.field_text("access_token"@) == Some(access),
    ensures
        match credential_given(v, at) {
            Some(CredentialView::OAuth(o)) => {
                &&& o.access == access
                &&& v.field_text("refresh_token"@) is Some ==> o.refresh == v.field_text(
                    "refresh_token"@,
                )->0
                &&& v.get("refresh_token"@) is None && v.field_text("refresh"@) is Some
                    ==> o.refresh == v.field_text("refresh"@)->0
                &&& v.get("refresh_token"@) is None && v.get("refresh"@) is None
                    ==> o.refresh.len() == 0
                &&& o.extra.field_text("account_id"@) == v.field_text("chatgpt_account_id"@)
                &&& o.extra.field_text("scope"@) == v.field_text("scope"@)
                &&& v.get("expires"@) is None && at is Some ==> o.expires == at->0
                &&& v.get("expires"@) is None && at is None ==> o.expires == 0
            },
            _ => false,
        },
{
    reveal_strlit("api");
    reveal_strlit("api_key");
    reveal_strlit("oauth");
    reveal_strlit("account_id");
    reveal_strlit("scope");
    assert("api"@.len() == 3 && "api_key"@.len() == 7 && "oauth"@.len() == 5);
    assert("account_id"@.len() == 10 && "scope"@.len() == 5);
}

} // verus!
