//! Percent encoding, queries and redirect addresses.
use vstd::prelude::*;
use vstd::utf8::*;
use crate::dict;
use crate::dict::Dict;
use crate::text;
use crate::text::{
    chars_of, concat, split_at_char, split_last_at, split_once_at, strip_prefix, trim,
};
use crate::utf8;
use crate::utf8::text_from_bytes;
use crate::views;

verus! {

broadcast use crate::views::group_views;

/// Whether a byte stands for itself in an encoded text.
pub open spec fn is_unreserved(b: u8) -> bool {
    (65 <= b <= 90) || (97 <= b <= 122) || (48 <= b <= 57) || b == 45 || b == 95 || b == 46 || b
        == 126
}

/// A digit in base sixteen, with capital letters.
pub open spec fn hex_upper(d: int) -> u8 {
    if d < 10 {
        (48 + d) as u8
    } else {
        (55 + d) as u8
    }
}

/// A byte as it is encoded.
pub open spec fn escaped_byte(b: u8) -> Seq<u8> {
    if is_unreserved(b) {
        seq![b]
    } else {
        seq![37u8, hex_upper(b as int / 16), hex_upper(b as int % 16)]
    }
}

/// Bytes as they are encoded.
pub open spec fn escaped(bytes: Seq<u8>) -> Seq<u8>
    decreases bytes.len(),
{
    if bytes.len() == 0 {
        Seq::empty()
    } else {
        escaped(bytes.drop_last()) + escaped_byte(bytes.last())
    }
}

/// Bytes of ASCII as text.
pub open spec fn ascii_text(bytes: Seq<u8>) -> Seq<char> {
    Seq::new(bytes.len(), |i: int| bytes[i] as char)
}

/// A text as it is encoded: but for letters, digits and `-_.~`, every byte goes as
/// `%` and two digits.
pub open spec fn url_encoded(s: Seq<char>) -> Seq<char> {
    ascii_text(escaped(encode_utf8(s)))
}

fn hex_char(d: u8) -> (r: char)
    requires
        d < 16,
    ensures
        r == hex_upper(d as int) as char,
{
    if d < 10 {
        (48 + d) as char
    } else {
        (55 + d) as char
    }
}

/// Encodes a text.
pub fn urlencode(input: &str) -> (r: String)
    ensures
        r@ == url_encoded(input@),
{
    let bytes: &[u8] = input.as_bytes();
    let mut out: String = String::new();
    let mut i: usize = 0;
    proof {
        views::lemma_take_all(bytes@);
        assert(ascii_text(escaped(bytes@.take(0))) =~= Seq::<char>::empty());
    }
    while i < bytes.len()
        invariant
            i <= bytes@.len(),
            out@ == ascii_text(escaped(bytes@.take(i as int))),
        decreases bytes@.len() - i,
    {
        proof {
            views::lemma_take_step(bytes@, i as int);
        }
        let b: u8 = bytes[i];
        let ghost before = escaped(bytes@.take(i as int));
        if (65 <= b && b <= 90) || (97 <= b && b <= 122) || (48 <= b && b <= 57) || b == 45 || b
            == 95 || b == 46 || b == 126 {
            out.push(b as char);
        } else {
            out.push('%');
            out.push(hex_char(b / 16));
            out.push(hex_char(b % 16));
            assert('%' == 37u8 as char);
        }
        assert(out@ =~= ascii_text(before + escaped_byte(b)));
        i = i + 1;
    }
    proof {
        views::lemma_take_all(bytes@);
    }
    out
}

/// The value of a digit in base sixteen.
pub open spec fn hex_value(b: u8) -> Option<u8> {
    if 48 <= b <= 57 {
        Some((b - 48) as u8)
    } else if 65 <= b <= 70 {
        Some((b - 55) as u8)
    } else if 97 <= b <= 102 {
        Some((b - 87) as u8)
    } else {
        None
    }
}

fn hex_value_exec(b: u8) -> (r: Option<u8>)
    ensures
        r == hex_value(b),
        r is Some ==> r->0 < 16,
{
    if 48 <= b && b <= 57 {
        Some(b - 48)
    } else if 65 <= b && b <= 70 {
        Some(b - 55)
    } else if 97 <= b && b <= 102 {
        Some(b - 87)
    } else {
        None
    }
}

/// The byte that two digits stand for. A plus sign before a single digit is read over.
pub open spec fn escape_value(a: u8, b: u8) -> Option<u8> {
    match hex_value(b) {
        Some(low) => match hex_value(a) {
            Some(high) => Some((16 * high + low) as u8),
            None => if a == 43 {
                Some(low)
            } else {
                None
            },
        },
        None => None,
    }
}

/// Encoded bytes as they were: `%` and two digits are a byte, `+` is a space, and
/// anything else stands for itself.
pub open spec fn unescaped(bytes: Seq<u8>) -> Seq<u8>
    decreases bytes.len(),
{
    if bytes.len() == 0 {
        Seq::empty()
    } else if bytes[0] == 37 && bytes.len() > 2 && escape_value(bytes[1], bytes[2]) is Some {
        seq![escape_value(bytes[1], bytes[2])->0] + unescaped(bytes.skip(3))
    } else if bytes[0] == 43 {
        seq![32u8] + unescaped(bytes.skip(1))
    } else {
        seq![bytes[0]] + unescaped(bytes.skip(1))
    }
}

/// An encoded text as it was. What is no text is replaced.
pub open spec fn url_decoded(s: Seq<char>) -> Seq<char> {
    utf8::lossy_text(unescaped(encode_utf8(s)))
}

fn unescape(bytes: &[u8]) -> (r: Vec<u8>)
    ensures
        r@ == unescaped(bytes@),
{
    let mut out: Vec<u8> = Vec::new();
    let mut i: usize = 0;
    assert(bytes@.skip(0) =~= bytes@);
    assert(out@ + unescaped(bytes@) =~= unescaped(bytes@));
    while i < bytes.len()
        invariant
            i <= bytes@.len(),
            out@ + unescaped(bytes@.skip(i as int)) == unescaped(bytes@),
        decreases bytes@.len() - i,
    {
        let ghost rest = bytes@.skip(i as int);
        let ghost before = out@;
        assert(rest[0] == bytes@[i as int]);
        let b: u8 = bytes[i];
        let mut taken: bool = false;
        if b == 37 && bytes.len() - i > 2 {
            assert(rest[1] == bytes@[i + 1] && rest[2] == bytes@[i + 2]);
            let high: Option<u8> = hex_value_exec(bytes[i + 1]);
            let low: Option<u8> = hex_value_exec(bytes[i + 2]);
            if let Some(l) = low {
                let value: Option<u8> = match high {
                    Some(h) => Some(16 * h + l),
                    None => if bytes[i + 1] == 43 {
                        Some(l)
                    } else {
                        None
                    },
                };
                if let Some(v) = value {
                    out.push(v);
                    assert(rest.skip(3) =~= bytes@.skip(i + 3));
                    assert(out@ + unescaped(bytes@.skip(i + 3)) =~= before + unescaped(rest));
                    i = i + 3;
                    taken = true;
                }
            }
        }
        if !taken {
            assert(rest.skip(1) =~= bytes@.skip(i + 1));
            if b == 43 {
                out.push(32);
            } else {
                out.push(b);
            }
            assert(out@ + unescaped(bytes@.skip(i + 1)) =~= before + unescaped(rest));
            i = i + 1;
        }
    }
    assert(bytes@.skip(i as int) =~= Seq::empty());
    assert(out@ =~= unescaped(bytes@));
    out
}

/// Decodes a text.
pub fn url_decode(s: &str) -> (r: String)
    ensures
        r@ == url_decoded(s@),
        valid_utf8(unescaped(encode_utf8(s@))) ==> r@ == decode_utf8(unescaped(encode_utf8(s@))),
{
    let bytes: Vec<u8> = unescape(s.as_bytes());
    text_from_bytes(bytes.as_slice())
}

proof fn lemma_escaped_is_ascii(bytes: Seq<u8>)
    ensures
        forall|i: int| 0 <= i < escaped(bytes).len() ==> #[trigger] escaped(bytes)[i] < 128,
    decreases bytes.len(),
{
    if bytes.len() > 0 {
        lemma_escaped_is_ascii(bytes.drop_last());
        let before = escaped(bytes.drop_last());
        let last = escaped_byte(bytes.last());
        assert forall|i: int| 0 <= i < escaped(bytes).len() implies #[trigger] escaped(bytes)[i]
            < 128 by {
            if i < before.len() {
                assert(escaped(bytes)[i] == before[i]);
            } else {
                assert(escaped(bytes)[i] == last[i - before.len()]);
            }
        }
    }
}

proof fn lemma_escaped_front(b: u8, rest: Seq<u8>)
    ensures
        escaped(seq![b] + rest) == escaped_byte(b) + escaped(rest),
    decreases rest.len(),
{
    let all = seq![b] + rest;
    if rest.len() == 0 {
        assert(all.drop_last() =~= Seq::<u8>::empty());
        assert(escaped(all.drop_last()) =~= Seq::<u8>::empty());
        assert(all.last() == b);
        assert(escaped(all) =~= escaped_byte(b) + escaped(rest));
    } else {
        assert(all.drop_last() =~= seq![b] + rest.drop_last());
        lemma_escaped_front(b, rest.drop_last());
        assert(escaped(all) =~= escaped_byte(b) + escaped(rest));
    }
}

proof fn lemma_unescape_escaped(bytes: Seq<u8>)
    ensures
        unescaped(escaped(bytes)) == bytes,
    decreases bytes.len(),
{
    if bytes.len() == 0 {
        assert(unescaped(escaped(bytes)) =~= bytes);
    } else {
        let b = bytes[0];
        let rest = bytes.skip(1);
        assert(seq![b] + rest =~= bytes);
        lemma_escaped_front(b, rest);
        lemma_unescape_escaped(rest);
        let e = escaped(bytes);
        if is_unreserved(b) {
            assert(e.skip(1) =~= escaped(rest));
            assert(e[0] == b);
        } else {
            let high = b as int / 16;
            let low = b as int % 16;
            assert(0 <= high < 16 && 0 <= low < 16);
            assert(e[0] == 37 && e[1] == hex_upper(high) && e[2] == hex_upper(low));
            assert(hex_value(hex_upper(high)) == Some(high as u8));
            assert(hex_value(hex_upper(low)) == Some(low as u8));
            assert(16 * high + low == b);
            assert(e.skip(3) =~= escaped(rest));
        }
        assert(unescaped(e) =~= bytes);
    }
}

/// Decoding undoes encoding.
pub proof fn law_decode_undoes_encode(s: Seq<char>)
    ensures
        unescaped(encode_utf8(url_encoded(s))) == encode_utf8(s),
        valid_utf8(unescaped(encode_utf8(url_encoded(s)))),
        decode_utf8(unescaped(encode_utf8(url_encoded(s)))) == s,
{
    let e = escaped(encode_utf8(s));
    let t = url_encoded(s);
    lemma_escaped_is_ascii(encode_utf8(s));
    assert(is_ascii_chars(t)) by {
        assert forall|i: int| 0 <= i < t.len() implies '\0' <= #[trigger] t[i] <= '\u{7f}' by {
            assert(e[i] < 128);
        }
    }
    is_ascii_chars_encode_utf8(t);
    assert(encode_utf8(t) =~= e) by {
        assert forall|i: int| 0 <= i < e.len() implies encode_utf8(t)[i] == e[i] by {
            assert(t[i] == e[i] as char);
            assert(e[i] < 128);
            assert(t[i] as u8 == e[i]);
        }
    }
    lemma_unescape_escaped(encode_utf8(s));
    encode_utf8_valid_utf8(s);
    encode_utf8_decode_utf8(s);
}

/// The parameters of the parts of a query: a part without `=` is none, and a later
/// part counts more than an earlier one of the same name.
pub open spec fn parameters(parts: Seq<Seq<char>>) -> Map<Seq<char>, Seq<char>>
    decreases parts.len(),
{
    if parts.len() == 0 {
        Map::empty()
    } else {
        let before = parameters(parts.drop_last());
        match text::split_once(parts.last(), '=') {
            Some((k, v)) => before.insert(url_decoded(k), url_decoded(v)),
            None => before,
        }
    }
}

/// The parameters of a query.
pub open spec fn query_parameters(query: Seq<char>) -> Map<Seq<char>, Seq<char>> {
    parameters(text::split(query, '&'))
}

/// Reads the parameters of a query.
pub fn parse_query(query: &str) -> (r: Dict<String>)
    ensures
        dict::texts(r@) == query_parameters(query@),
{
    let parts: Vec<String> = split_at_char(query, '&');
    let ghost all = text::split(query@, '&');
    let mut out: Dict<String> = Dict::new();
    let mut i: usize = 0;
    proof {
        views::lemma_take_all(all);
        assert(dict::texts(out@) =~= Map::<Seq<char>, Seq<char>>::empty());
    }
    while i < parts.len()
        invariant
            i <= parts@.len(),
            all == views::all(parts@),
            dict::texts(out@) == parameters(all.take(i as int)),
        decreases parts@.len() - i,
    {
        proof {
            views::lemma_take_step(all, i as int);
        }
        assert(parts@[i as int]@ == all[i as int]);
        if let Some((k, v)) = split_once_at(parts[i].as_str(), '=') {
            let ghost before = dict::texts(out@);
            let key: String = url_decode(k.as_str());
            let value: String = url_decode(v.as_str());
            out.insert(key.as_str(), value);
            assert(dict::texts(out@) =~= before.insert(key@, value@));
        }
        i = i + 1;
    }
    proof {
        views::lemma_take_all(all);
    }
    out
}

/// The value of a parameter.
pub open spec fn parameter(m: Map<Seq<char>, Seq<char>>, name: Seq<char>) -> Option<Seq<char>> {
    if m.contains_key(name) {
        Some(m[name])
    } else {
        None
    }
}

/// The value of a parameter.
pub fn get_parameter(m: &Dict<String>, name: &str) -> (r: Option<String>)
    ensures
        views::opt(r) == parameter(dict::texts(m@), name@),
{
    match m.get_text(name) {
        Some(v) => Some(v.to_owned()),
        None => None,
    }
}

/// The code and the state that someone pasted: out of the query of an address, or
/// apart at a `#`, or a code alone.
pub open spec fn pasted(input: Seq<char>) -> (Option<Seq<char>>, Option<Seq<char>>) {
    let s = text::trimmed(input);
    match text::split_once(s, '?') {
        Some((_, query)) => {
            let m = query_parameters(query);
            (parameter(m, "code"@), parameter(m, "state"@))
        },
        None => match text::split_once(s, '#') {
            Some((code, state)) => (Some(text::trimmed(code)), Some(text::trimmed(state))),
            None => (Some(s), None),
        },
    }
}

/// Reads the code and the state that someone pasted.
pub fn parse_authorization_input(input: &str) -> (r: (Option<String>, Option<String>))
    ensures
        (views::opt(r.0), views::opt(r.1)) == pasted(input@),
{
    let s: String = trim(input);
    match split_once_at(s.as_str(), '?') {
        Some((_, query)) => {
            let m: Dict<String> = parse_query(query.as_str());
            (get_parameter(&m, "code"), get_parameter(&m, "state"))
        },
        None => match split_once_at(s.as_str(), '#') {
            Some((code, state)) => (Some(trim(code.as_str())), Some(trim(state.as_str()))),
            None => (Some(s), None),
        },
    }
}

/// The digits of a port: a leading plus sign is read over.
pub open spec fn port_text(s: Seq<char>) -> Seq<char> {
    if s.len() > 0 && s[0] == '+' {
        s.skip(1)
    } else {
        s
    }
}

/// The port that a text names, where it names one.
pub open spec fn port_of(s: Seq<char>) -> Option<u16> {
    let d = port_text(s);
    match text::digits_value(d) {
        Some(n) => if d.len() > 0 && n <= 65535 {
            Some(n as u16)
        } else {
            None
        },
        None => None,
    }
}

fn parse_port(s: &str) -> (r: Option<u16>)
    ensures
        r == port_of(s@),
{
    let x: Vec<char> = chars_of(s);
    let from: usize = if x.len() > 0 && x[0] == '+' {
        1
    } else {
        0
    };
    let ghost d = port_text(s@);
    assert(d =~= x@.skip(from as int));
    if from == x.len() {
        assert(d.len() == 0);
        return None;
    }
    let mut n: u32 = 0;
    let mut i: usize = from;
    proof {
        views::lemma_take_all(d);
    }
    while i < x.len()
        invariant
            from <= i <= x@.len(),
            d == x@.skip(from as int),
            d == port_text(s@),
            d.len() > 0,
            n <= 65535,
            text::digits_value(d.take(i - from)) == Some(n as nat),
        decreases x@.len() - i,
    {
        proof {
            views::lemma_take_step(d, i - from);
            assert(d[i - from] == x@[i as int]);
        }
        let c: u32 = text::code_point(x[i]);
        if c < 48 || c > 57 {
            proof {
                text::lemma_digits_grow(d, i - from + 1);
            }
            return None;
        }
        n = 10 * n + (c - 48);
        if n > 65535 {
            proof {
                text::lemma_digits_grow(d, i - from + 1);
            }
            return None;
        }
        i = i + 1;
    }
    proof {
        views::lemma_take_all(d);
    }
    Some(n as u16)
}

/// The host, port and path of an address, where it has them.
pub open spec fn redirect_parts(uri: Seq<char>) -> Option<(Seq<char>, u16, Seq<char>)> {
    match views::first_of(text::after_prefix(uri, "https://"@), text::after_prefix(uri, "http://"@)) {
        Some(rest) => {
            let (authority, path) = match text::split_once(rest, '/') {
                Some((a, p)) => (a, "/"@ + p),
                None => (rest, "/"@),
            };
            match text::split_last(authority, ':') {
                Some((host, port)) => match port_of(port) {
                    Some(n) => Some((host, n, path)),
                    None => None,
                },
                None => Some((authority, 80, path)),
            }
        },
        None => None,
    }
}

/// The host, port and path of an address.
pub fn redirect_uri_parts(redirect_uri: &str) -> (r: Option<(String, u16, String)>)
    ensures
        match r {
            Some((host, port, path)) => redirect_parts(redirect_uri@) == Some(
                (host@, port, path@),
            ),
            None => redirect_parts(redirect_uri@) is None,
        },
{
    let rest: String = match strip_prefix(redirect_uri, "https://") {
        Some(s) => s,
        None => match strip_prefix(redirect_uri, "http://") {
            Some(s) => s,
            None => return None,
        },
    };
    let (authority, path): (String, String) = match split_once_at(rest.as_str(), '/') {
        Some((a, p)) => (a, concat("/", p.as_str())),
        None => (rest, "/".to_owned()),
    };
    match split_last_at(authority.as_str(), ':') {
        Some((host, port)) => match parse_port(port.as_str()) {
            Some(n) => Some((host, n, path)),
            None => None,
        },
        None => Some((authority, 80, path)),
    }
}

/// Whether a query brings a parameter: one of its parts is the name and the value, each as it is
/// encoded, with `=` between them.
pub open spec fn brings(query: Seq<char>, name: Seq<char>, value: Seq<char>) -> bool {
    exists|i: int| #[trigger] brings_at(text::split(query, '&'), i, name, value)
}

/// Whether the part at a place is the parameter.
pub open spec fn brings_at(
    parts: Seq<Seq<char>>,
    i: int,
    name: Seq<char>,
    value: Seq<char>,
) -> bool {
    &&& 0 <= i < parts.len()
    &&& match text::split_once(parts[i], '=') {
        Some((k, v)) => unescaped(encode_utf8(k)) == encode_utf8(name) && unescaped(encode_utf8(v))
            == encode_utf8(value),
        None => false,
    }
}

proof fn lemma_encoded_chars(s: Seq<char>, c: char)
    requires
        c == '&' || c == '=' || c == '?' || c == '#',
    ensures
        !url_encoded(s).contains(c),
{
    let e = escaped(encode_utf8(s));
    lemma_escaped_chars(encode_utf8(s));
    assert forall|i: int| 0 <= i < url_encoded(s).len() implies url_encoded(s)[i] != c by {
        assert(url_encoded(s)[i] == e[i] as char);
        assert(is_unreserved(e[i]) || e[i] == 37);
    }
}

proof fn lemma_escaped_chars(bytes: Seq<u8>)
    ensures
        forall|i: int|
            0 <= i < escaped(bytes).len() ==> is_unreserved(#[trigger] escaped(bytes)[i])
                || escaped(bytes)[i] == 37,
    decreases bytes.len(),
{
    if bytes.len() > 0 {
        lemma_escaped_chars(bytes.drop_last());
        let b = bytes.last();
        let high = b as int / 16;
        let low = b as int % 16;
        assert(0 <= high < 16 && 0 <= low < 16);
        let init = escaped(bytes.drop_last());
        assert forall|i: int| 0 <= i < escaped(bytes).len() implies is_unreserved(
            #[trigger] escaped(bytes)[i],
        ) || escaped(bytes)[i] == 37 by {
            if i < init.len() {
                assert(escaped(bytes)[i] == init[i]);
            } else {
                assert(escaped(bytes)[i] == escaped_byte(b)[i - init.len()]);
            }
        }
    }
}

/// A query that is put together of encoded parameters brings every one of them.
pub proof fn law_encoded_parameters_are_brought(
    params: Seq<(Seq<char>, Seq<char>)>,
    i: int,
)
    requires
        0 <= i < params.len(),
    ensures
        brings(
            text::joined(
                params.map_values(
                    |p: (Seq<char>, Seq<char>)|
                        url_encoded(p.0) + seq!['='] + url_encoded(p.1),
                ),
                seq!['&'],
            ),
            params[i].0,
            params[i].1,
        ),
{
    let parts = params.map_values(
        |p: (Seq<char>, Seq<char>)| url_encoded(p.0) + seq!['='] + url_encoded(p.1),
    );
    assert forall|j: int| 0 <= j < parts.len() implies !(#[trigger] parts[j]).contains('&') by {
        let (k, v) = params[j];
        lemma_encoded_chars(k, '&');
        lemma_encoded_chars(v, '&');
        let (a, b) = (url_encoded(k), url_encoded(v));
        assert(parts[j] == a + seq!['='] + b);
        if parts[j].contains('&') {
            let x = choose|x: int| 0 <= x < parts[j].len() && parts[j][x] == '&';
            if x < a.len() {
                assert(a[x] == '&');
            } else if x > a.len() {
                assert(b[x - a.len() - 1] == '&');
            }
        }
    }
    text::law_joined_pieces_are_parted_again(parts, '&');
    let (k, v) = params[i];
    lemma_encoded_chars(k, '=');
    text::law_text_is_parted_at_the_first(url_encoded(k), '=', url_encoded(v));
    law_decode_undoes_encode(k);
    law_decode_undoes_encode(v);
    assert(parts[i] == url_encoded(k) + seq!['='] + url_encoded(v));
    assert(brings_at(text::split(text::joined(parts, seq!['&']), '&'), i, k, v));
}

proof fn lemma_plain_escaped(bytes: Seq<u8>)
    requires
        forall|i: int| 0 <= i < bytes.len() ==> is_unreserved(#[trigger] bytes[i]),
    ensures
        escaped(bytes) == bytes,
    decreases bytes.len(),
{
    if bytes.len() > 0 {
        let init = bytes.drop_last();
        assert forall|i: int| 0 <= i < init.len() implies is_unreserved(#[trigger] init[i]) by {
            assert(init[i] == bytes[i]);
        }
        lemma_plain_escaped(init);
        assert(is_unreserved(bytes[bytes.len() - 1]));
        assert(escaped(bytes) =~= bytes);
    }
}

/// Letters, digits and `-_.~` are encoded as themselves.
pub proof fn law_plain_text_is_encoded_as_itself(s: Seq<char>)
    requires
        forall|i: int|
            0 <= i < s.len() ==> ('a' <= #[trigger] s[i] <= 'z') || ('A' <= s[i] <= 'Z') || ('0' <= s[i]
                <= '9') || s[i] == '-' || s[i] == '_' || s[i] == '.' || s[i] == '~',
    ensures
        url_encoded(s) == s,
{
    assert(is_ascii_chars(s)) by {
        assert forall|i: int| 0 <= i < s.len() implies '\0' <= #[trigger] s[i] <= '\u{7f}' by {}
    }
    is_ascii_chars_encode_utf8(s);
    let b = encode_utf8(s);
    assert forall|i: int| 0 <= i < b.len() implies is_unreserved(#[trigger] b[i]) by {
        assert(b[i] == s[i] as u8);
    }
    lemma_plain_escaped(b);
    assert(url_encoded(s) =~= s) by {
        assert forall|i: int| 0 <= i < s.len() implies url_encoded(s)[i] == s[i] by {
            assert(b[i] == s[i] as u8);
        }
    }
}

/// What was pasted is read out of the query of an address, or apart at a `#`, or is a code as a
/// whole.
pub proof fn law_pasted_code_is_read(before: Seq<char>, behind: Seq<char>)
    requires
        !before.contains('?'),
    ensures
        ({
            let s = before + seq!['?'] + behind;
            let m = query_parameters(behind);
            text::trimmed(s) == s ==> {
                &&& pasted(s).0 is Some == m.contains_key("code"@)
                &&& m.contains_key("code"@) ==> pasted(s).0 == Some(m["code"@])
                &&& pasted(s).1 is Some == m.contains_key("state"@)
                &&& m.contains_key("state"@) ==> pasted(s).1 == Some(m["state"@])
            }
        }),
        ({
            let s = before + seq!['#'] + behind;
            !behind.contains('?') && !before.contains('#') && text::trimmed(s) == s ==> pasted(s)
                == (Some(text::trimmed(before)), Some(text::trimmed(behind)))
        }),
        !before.contains('#') && text::trimmed(before) == before ==> pasted(before) == (
            Some(before),
            None::<Seq<char>>,
        ),
{
    text::law_text_is_parted_at_the_first(before, '?', behind);
    if !before.contains('#') {
        text::law_text_is_parted_at_the_first(before, '#', behind);
    }
    let s = before + seq!['#'] + behind;
    if !behind.contains('?') {
        assert(!s.contains('?')) by {
            if s.contains('?') {
                let x = choose|x: int| 0 <= x < s.len() && s[x] == '?';
                if x < before.len() {
                    assert(before[x] == '?');
                } else if x > before.len() {
                    assert(behind[x - before.len() - 1] == '?');
                }
            }
        }
        text::law_text_is_parted_at_the_first(s, '?', Seq::empty());
    }
}

/// Of parts of one name the last counts, and a part without `=` says nothing.
pub proof fn law_last_parameter_counts(parts: Seq<Seq<char>>, part: Seq<char>, name: Seq<char>)
    ensures
        match text::split_once(part, '=') {
            Some((k, v)) => {
                let m = parameters(parts.push(part));
                &&& m.contains_key(url_decoded(k))
                &&& m[url_decoded(k)] == url_decoded(v)
                &&& name != url_decoded(k) ==> m.contains_key(name) == parameters(
                    parts,
                ).contains_key(name)
                &&& name != url_decoded(k) && m.contains_key(name) ==> m[name] == parameters(
                    parts,
                )[name]
            },
            None => parameters(parts.push(part)) == parameters(parts),
        },
        parameters(Seq::empty()) == Map::<Seq<char>, Seq<char>>::empty(),
{
    assert(parts.push(part).drop_last() =~= parts);
}

/// An address with a host, a port and a path is taken apart into them; without a port it is the
/// usual one.
#[verifier::spinoff_prover]
#[verifier::rlimit(40)]
pub proof fn law_redirect_is_taken_apart(host: Seq<char>, port: u16, path: Seq<char>)
    requires
        !host.contains('/'),
        !host.contains(':'),
    ensures
        redirect_parts(
            "http://"@ + (host + seq![':'] + text::decimal_text(port as nat) + seq!['/'] + path),
        ) == Some((host, port, "/"@ + path)),
        redirect_parts("http://"@ + (host + seq!['/'] + path)) == Some((host, 80u16, "/"@ + path)),
{
    reveal_strlit("https://");
    reveal_strlit("http://");
    let d = text::decimal_text(port as nat);
    text::law_decimal_text_reads_back(port as nat);
    let authority = host + seq![':'] + d;
    assert(!d.contains('/') && !d.contains(':')) by {
        if d.contains('/') {
            let x = choose|x: int| 0 <= x < d.len() && d[x] == '/';
            assert('0' <= d[x] <= '9');
        }
        if d.contains(':') {
            let x = choose|x: int| 0 <= x < d.len() && d[x] == ':';
            assert('0' <= d[x] <= '9');
        }
    }
    assert(!authority.contains('/')) by {
        if authority.contains('/') {
            let x = choose|x: int| 0 <= x < authority.len() && authority[x] == '/';
            if x < host.len() {
                assert(host[x] == '/');
            } else if x > host.len() {
                assert(d[x - host.len() - 1] == '/');
            }
        }
    }
    text::law_text_is_parted_at_the_first(authority, '/', path);
    text::law_text_is_parted_at_the_first(host, '/', path);
    text::law_text_is_parted_at_the_last(host, ':', d);
    text::law_text_is_parted_at_the_last(Seq::empty(), ':', host);
    assert(port_text(d) == d) by {
        assert('0' <= d[0] <= '9');
    }
    let a = "http://"@ + (authority + seq!['/'] + path);
    let b = "http://"@ + (host + seq!['/'] + path);
    assert("https://"@[4] == 's');
    assert("http://"@[4] == ':');
    assert(a.take(7) =~= "http://"@ && a.skip(7) =~= authority + seq!['/'] + path);
    assert(b.take(7) =~= "http://"@ && b.skip(7) =~= host + seq!['/'] + path);
    assert(a[4] == ':' && b[4] == ':');
    assert(!text::begins(a, "https://"@)) by {
        assert(a.len() >= 8 ==> a.take(8)[4] == a[4]);
    }
    assert(!text::begins(b, "https://"@)) by {
        assert(b.len() >= 8 ==> b.take(8)[4] == b[4]);
    }
    assert(authority + seq!['/'] + path =~= host + seq![':'] + d + seq!['/'] + path);
}

/// A plus is a space, an escape is the byte that it writes, and any other byte is itself.
pub proof fn law_encoded_bytes_are_read(b: u8, high: u8, low: u8, rest: Seq<u8>)
    requires
        b != 37,
        b != 43,
        high < 16,
        low < 16,
    ensures
        unescaped(seq![43u8] + rest) == seq![32u8] + unescaped(rest),
        unescaped(seq![b] + rest) == seq![b] + unescaped(rest),
        unescaped(seq![37u8, hex_upper(high as int), hex_upper(low as int)] + rest) == seq![
            (16 * high + low) as u8,
        ] + unescaped(rest),
        unescaped(Seq::empty()).len() == 0,
{
    let plus = seq![43u8] + rest;
    let plain = seq![b] + rest;
    let escape = seq![37u8, hex_upper(high as int), hex_upper(low as int)] + rest;
    assert(plus.skip(1) =~= rest);
    assert(plain.skip(1) =~= rest);
    assert(escape.skip(3) =~= rest);
    assert(plus[0] == 43);
    assert(plain[0] == b);
    assert(escape[0] == 37);
    assert(escape[1] == hex_upper(high as int));
    assert(escape[2] == hex_upper(low as int));
}

} // verus!
