//! The addresses of the Codex service, and its cache keys.
use vstd::prelude::*;
use crate::codex::ids;
use crate::text;
use crate::text::{chars_of, concat, ends_with, strip_prefix, text_range, trim, trim_end_of};
use crate::views;

verus! {

pub const DEFAULT_CODEX_BASE_URL: &'static str = "https://chatgpt.com/backend-api";

/// The address of the service behind a base URL; a blank one is the default.
pub open spec fn codex_url(base_url: Option<Seq<char>>) -> Seq<char> {
    let raw = match base_url {
        Some(b) => if text::trimmed(b).len() == 0 {
            DEFAULT_CODEX_BASE_URL@
        } else {
            b
        },
        None => DEFAULT_CODEX_BASE_URL@,
    };
    let base = text::trim_end_char(raw, '/');
    if text::ends(base, "/codex/responses"@) {
        base
    } else if text::ends(base, "/codex"@) {
        base + "/responses"@
    } else {
        base + "/codex/responses"@
    }
}

/// The address of the service behind a base URL.
pub fn resolve_codex_url(base_url: Option<&str>) -> (r: String)
    ensures
        r@ == codex_url(views::opt(base_url)),
{
    let raw: &str = match base_url {
        Some(b) => {
            let t: String = trim(b);
            if t.as_str().is_empty() {
                DEFAULT_CODEX_BASE_URL
            } else {
                b
            }
        },
        None => DEFAULT_CODEX_BASE_URL,
    };
    let base: String = trim_end_of(raw, '/');
    if ends_with(base.as_str(), "/codex/responses") {
        base
    } else if ends_with(base.as_str(), "/codex") {
        concat(base.as_str(), "/responses")
    } else {
        concat(base.as_str(), "/codex/responses")
    }
}

/// An address with the scheme of a websocket.
pub open spec fn websocket_url(url: Seq<char>) -> Seq<char> {
    match text::after_prefix(url, "https://"@) {
        Some(rest) => "wss://"@ + rest,
        None => match text::after_prefix(url, "http://"@) {
            Some(rest) => "ws://"@ + rest,
            None => url,
        },
    }
}

/// The address of the service's websocket behind a base URL.
pub fn resolve_codex_websocket_url(base_url: Option<&str>) -> (r: String)
    ensures
        r@ == websocket_url(codex_url(views::opt(base_url))),
{
    let url: String = resolve_codex_url(base_url);
    match strip_prefix(url.as_str(), "https://") {
        Some(rest) => concat("wss://", rest.as_str()),
        None => match strip_prefix(url.as_str(), "http://") {
            Some(rest) => concat("ws://", rest.as_str()),
            None => url,
        },
    }
}

/// Cuts a prompt cache key to the length that the service takes.
pub fn clamp_prompt_cache_key(key: &str) -> (r: String)
    ensures
        r@ == ids::clamped(key@),
{
    let x: Vec<char> = chars_of(key);
    if x.len() <= ids::ID_MAX_CHARS {
        key.to_owned()
    } else {
        let r: String = text_range(&x, 0, ids::ID_MAX_CHARS);
        assert(r@ =~= ids::clamped(key@));
        r
    }
}

/// A clamped key is short enough, begins the key, and is not cut any further.
pub proof fn law_clamped_key_is_short(key: Seq<char>)
    ensures
        ids::clamped(key).len() <= ids::ID_MAX_CHARS,
        key.len() <= ids::ID_MAX_CHARS ==> ids::clamped(key) == key,
        text::begins(key, ids::clamped(key)),
        ids::clamped(ids::clamped(key)) == ids::clamped(key),
{
    assert(key.take(key.len() as int) =~= key);
}

/// The address always ends with the path of the service.
pub proof fn law_codex_url_ends_with_path(base_url: Option<Seq<char>>)
    ensures
        text::ends(codex_url(base_url), "/codex/responses"@),
{
    reveal_strlit("/codex/responses");
    reveal_strlit("/codex");
    reveal_strlit("/responses");
    let raw = match base_url {
        Some(b) => if text::trimmed(b).len() == 0 {
            DEFAULT_CODEX_BASE_URL@
        } else {
            b
        },
        None => DEFAULT_CODEX_BASE_URL@,
    };
    let base = text::trim_end_char(raw, '/');
    let url = codex_url(base_url);
    let path = "/codex/responses"@;
    assert(path =~= "/codex"@ + "/responses"@);
    if !text::ends(base, path) {
        if text::ends(base, "/codex"@) {
            let head = base.take(base.len() - "/codex"@.len());
            assert(base =~= head + base.skip(base.len() - "/codex"@.len()));
            assert(url =~= head + path);
        }
        assert(url.skip(url.len() - path.len()) =~= path);
    }
}

/// Resolving an address that is resolved already changes nothing.
pub proof fn law_codex_url_idempotent(base_url: Option<Seq<char>>)
    ensures
        codex_url(Some(codex_url(base_url))) == codex_url(base_url),
{
    reveal_strlit("/codex/responses");
    law_codex_url_ends_with_path(base_url);
    let url = codex_url(base_url);
    let path = "/codex/responses"@;
    let tail = url.skip(url.len() - path.len());
    assert(tail[path.len() - 1] == url.last());
    assert(path.last() == 's');
    assert(url.last() == 's');
    assert(text::trim_end_char(url, '/') == url);
    lemma_not_blank(url);
}

proof fn lemma_not_blank(s: Seq<char>)
    requires
        s.len() > 0,
        s.last() == 's',
    ensures
        text::trimmed(s).len() > 0,
{
    lemma_trim_start_keeps_last(s);
}

proof fn lemma_trim_start_keeps_last(s: Seq<char>)
    requires
        s.len() > 0,
        !text::is_space(s.last()),
    ensures
        text::trim_start(s).len() > 0,
        text::trim_start(s).last() == s.last(),
    decreases s.len(),
{
    if text::is_space(s[0]) {
        assert(s.len() > 1);
        lemma_trim_start_keeps_last(s.drop_first());
    }
}

/// A base URL is kept, and the service is looked for behind it; without one, or with a blank
/// one, it is looked for where it is.
pub proof fn law_codex_url_keeps_the_base(base: Seq<char>)
    ensures
        text::trimmed(base).len() > 0 ==> text::begins(
            codex_url(Some(base)),
            text::trim_end_char(base, '/'),
        ),
        text::trimmed(base).len() > 0 ==> codex_url(Some(base)).len() <= base.len()
            + "/codex/responses"@.len(),
        text::trimmed(base).len() == 0 ==> codex_url(Some(base)) == codex_url(None),
        codex_url(None) == "https://chatgpt.com/backend-api/codex/responses"@,
{
    reveal_strlit("/codex/responses");
    reveal_strlit("/codex");
    reveal_strlit("/responses");
    let t = text::trim_end_char(base, '/');
    text::law_end_is_trimmed(base, '/');
    let url = codex_url(Some(base));
    if text::trimmed(base).len() > 0 {
        assert(url.take(t.len() as int) =~= t);
    }
    reveal_strlit("https://chatgpt.com/backend-api");
    reveal_strlit("https://chatgpt.com/backend-api/codex/responses");
    let d = "https://chatgpt.com/backend-api"@;
    assert(d.last() == 'i');
    assert(text::trim_end_char(d, '/') == d);
    assert("/codex/responses"@.last() == 's');
    assert("/codex"@.last() == 'x');
    assert(!text::ends(d, "/codex/responses"@)) by {
        let k = d.len() - "/codex/responses"@.len();
        assert(d.skip(k)["/codex/responses"@.len() - 1] == 'i');
    }
    assert(!text::ends(d, "/codex"@)) by {
        let k = d.len() - "/codex"@.len();
        assert(d.skip(k)["/codex"@.len() - 1] == 'i');
    }
    assert(codex_url(None) =~= "https://chatgpt.com/backend-api/codex/responses"@);
}

/// A websocket is looked for at the same place, safely where the address is safe.
pub proof fn law_websocket_url_keeps_the_place(rest: Seq<char>)
    ensures
        websocket_url("https://"@ + rest) == "wss://"@ + rest,
        websocket_url("http://"@ + rest) == "ws://"@ + rest,
{
    reveal_strlit("https://");
    reveal_strlit("http://");
    let a = "https://"@ + rest;
    let b = "http://"@ + rest;
    assert(a.take("https://"@.len() as int) =~= "https://"@);
    assert(a.skip("https://"@.len() as int) =~= rest);
    assert(b.take("http://"@.len() as int) =~= "http://"@);
    assert(b.skip("http://"@.len() as int) =~= rest);
    assert("https://"@[4] == 's');
    assert(b.len() >= 8 ==> b.take(8)[4] == ':');
}

} // verus!
