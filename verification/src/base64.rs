//! Base64 in its standard and its URL-safe alphabet.
use vstd::prelude::*;
use crate::text::chars_of;
use crate::views;

verus! {

/// The six-bit groups of bytes. The last group is filled up with zeros.
pub open spec fn sextets(bytes: Seq<u8>) -> Seq<u8>
    decreases bytes.len(),
{
    if bytes.len() == 0 {
        Seq::empty()
    } else if bytes.len() == 1 {
        seq![(bytes[0] / 4) as u8, (bytes[0] % 4 * 16) as u8]
    } else if bytes.len() == 2 {
        seq![
            (bytes[0] / 4) as u8,
            (bytes[0] % 4 * 16 + bytes[1] / 16) as u8,
            (bytes[1] % 16 * 4) as u8,
        ]
    } else {
        seq![
            (bytes[0] / 4) as u8,
            (bytes[0] % 4 * 16 + bytes[1] / 16) as u8,
            (bytes[1] % 16 * 4 + bytes[2] / 64) as u8,
            (bytes[2] % 64) as u8,
        ] + sextets(bytes.skip(3))
    }
}

/// The bytes that six-bit groups make up. What does not fill a byte at the end
/// is dropped.
pub open spec fn unsextets(vals: Seq<u8>) -> Seq<u8>
    decreases vals.len(),
{
    if vals.len() < 2 {
        Seq::empty()
    } else if vals.len() == 2 {
        seq![(vals[0] * 4 + vals[1] / 16) as u8]
    } else if vals.len() == 3 {
        seq![(vals[0] * 4 + vals[1] / 16) as u8, (vals[1] % 16 * 16 + vals[2] / 4) as u8]
    } else {
        seq![
            (vals[0] * 4 + vals[1] / 16) as u8,
            (vals[1] % 16 * 16 + vals[2] / 4) as u8,
            (vals[2] % 4 * 64 + vals[3]) as u8,
        ] + unsextets(vals.skip(4))
    }
}

/// The character of a six-bit group.
pub open spec fn sextet_char(v: u8, url_safe: bool) -> char {
    if v < 26 {
        (65 + v) as char
    } else if v < 52 {
        (97 + v - 26) as char
    } else if v < 62 {
        (48 + v - 52) as char
    } else if v == 62 {
        if url_safe {
            '-'
        } else {
            '+'
        }
    } else {
        if url_safe {
            '_'
        } else {
            '/'
        }
    }
}

/// The six-bit group of a character of either alphabet.
pub open spec fn sextet_value(c: char) -> Option<u8> {
    let n = c as int;
    if 65 <= n <= 90 {
        Some((n - 65) as u8)
    } else if 97 <= n <= 122 {
        Some((n - 97 + 26) as u8)
    } else if 48 <= n <= 57 {
        Some((n - 48 + 52) as u8)
    } else if c == '-' || c == '+' {
        Some(62u8)
    } else if c == '_' || c == '/' {
        Some(63u8)
    } else {
        None
    }
}

/// The characters of six-bit groups.
pub open spec fn sextet_text(vals: Seq<u8>, url_safe: bool) -> Seq<char> {
    vals.map_values(|v: u8| sextet_char(v, url_safe))
}

/// Bytes in the URL-safe alphabet, without padding.
pub open spec fn encoded_url(bytes: Seq<u8>) -> Seq<char> {
    sextet_text(sextets(bytes), true)
}

/// Bytes in the standard alphabet, padded to a multiple of four characters.
pub open spec fn encoded_padded(bytes: Seq<u8>) -> Seq<char> {
    sextet_text(sextets(bytes), false) + (if bytes.len() % 3 == 1 {
        seq!['=', '=']
    } else if bytes.len() % 3 == 2 {
        seq!['=']
    } else {
        Seq::empty()
    })
}

/// The six-bit groups of a text of either alphabet, whose padding is skipped;
/// or the first character that is in neither.
pub open spec fn text_sextets(s: Seq<char>) -> Result<Seq<u8>, char>
    decreases s.len(),
{
    if s.len() == 0 {
        Ok(Seq::empty())
    } else {
        match text_sextets(s.drop_last()) {
            Err(c) => Err(c),
            Ok(vals) => if s.last() == '=' {
                Ok(vals)
            } else {
                match sextet_value(s.last()) {
                    Some(v) => Ok(vals.push(v)),
                    None => Err(s.last()),
                }
            },
        }
    }
}

/// The bytes of a text of either alphabet, or what is wrong with it.
pub open spec fn decoded(s: Seq<char>) -> Result<Seq<u8>, Seq<char>> {
    match text_sextets(s) {
        Ok(vals) => Ok(unsextets(vals)),
        Err(c) => Err("invalid base64 char: "@ + seq![c]),
    }
}

fn sextets_exec(bytes: &[u8]) -> (r: Vec<u8>)
    ensures
        r@ == sextets(bytes@),
{
    let mut out: Vec<u8> = Vec::new();
    let mut i: usize = 0;
    assert(bytes@.skip(0) =~= bytes@);
    assert(out@ + sextets(bytes@) =~= sextets(bytes@));
    while bytes.len() - i >= 3
        invariant
            i <= bytes@.len(),
            out@ + sextets(bytes@.skip(i as int)) == sextets(bytes@),
        decreases bytes@.len() - i,
    {
        let ghost rest = bytes@.skip(i as int);
        let ghost before = out@;
        let a: u8 = bytes[i];
        let b: u8 = bytes[i + 1];
        let c: u8 = bytes[i + 2];
        out.push(a / 4);
        out.push(a % 4 * 16 + b / 16);
        out.push(b % 16 * 4 + c / 64);
        out.push(c % 64);
        assert(rest.skip(3) =~= bytes@.skip(i + 3));
        assert(out@ + sextets(rest.skip(3)) =~= before + sextets(rest));
        i = i + 3;
    }
    let ghost rest = bytes@.skip(i as int);
    let ghost before = out@;
    if bytes.len() - i == 1 {
        let a: u8 = bytes[i];
        out.push(a / 4);
        out.push(a % 4 * 16);
    } else if bytes.len() - i == 2 {
        let a: u8 = bytes[i];
        let b: u8 = bytes[i + 1];
        out.push(a / 4);
        out.push(a % 4 * 16 + b / 16);
        out.push(b % 16 * 4);
    }
    assert(out@ =~= before + sextets(rest));
    out
}

fn unsextets_exec(vals: &Vec<u8>) -> (r: Vec<u8>)
    requires
        forall|i: int| 0 <= i < vals@.len() ==> #[trigger] vals@[i] < 64,
    ensures
        r@ == unsextets(vals@),
{
    let mut out: Vec<u8> = Vec::new();
    let mut i: usize = 0;
    assert(vals@.skip(0) =~= vals@);
    assert(out@ + unsextets(vals@) =~= unsextets(vals@));
    while vals.len() - i >= 4
        invariant
            i <= vals@.len(),
            forall|k: int| 0 <= k < vals@.len() ==> #[trigger] vals@[k] < 64,
            out@ + unsextets(vals@.skip(i as int)) == unsextets(vals@),
        decreases vals@.len() - i,
    {
        let ghost rest = vals@.skip(i as int);
        let ghost before = out@;
        let a: u8 = vals[i];
        let b: u8 = vals[i + 1];
        let c: u8 = vals[i + 2];
        let d: u8 = vals[i + 3];
        out.push(a * 4 + b / 16);
        out.push(b % 16 * 16 + c / 4);
        out.push(c % 4 * 64 + d);
        assert(rest.skip(4) =~= vals@.skip(i + 4));
        assert(out@ + unsextets(rest.skip(4)) =~= before + unsextets(rest));
        i = i + 4;
    }
    let ghost rest = vals@.skip(i as int);
    let ghost before = out@;
    if vals.len() - i >= 2 {
        let a: u8 = vals[i];
        let b: u8 = vals[i + 1];
        out.push(a * 4 + b / 16);
        if vals.len() - i == 3 {
            let c: u8 = vals[i + 2];
            out.push(b % 16 * 16 + c / 4);
        }
    }
    assert(out@ =~= before + unsextets(rest));
    out
}

fn sextet_char_exec(v: u8, url_safe: bool) -> (r: char)
    requires
        v < 64,
    ensures
        r == sextet_char(v, url_safe),
{
    if v < 26 {
        let n: u8 = 65 + v;
        n as char
    } else if v < 52 {
        let n: u8 = 97 + (v - 26);
        n as char
    } else if v < 62 {
        let n: u8 = 48 + (v - 52);
        n as char
    } else if v == 62 {
        if url_safe {
            '-'
        } else {
            '+'
        }
    } else {
        if url_safe {
            '_'
        } else {
            '/'
        }
    }
}

fn sextet_value_exec(c: char) -> (r: Option<u8>)
    ensures
        r == sextet_value(c),
        r matches Some(v) ==> v < 64,
{
    let n: u32 = c as u32;
    if 65 <= n && n <= 90 {
        Some((n - 65) as u8)
    } else if 97 <= n && n <= 122 {
        Some((n - 97 + 26) as u8)
    } else if 48 <= n && n <= 57 {
        Some((n - 48 + 52) as u8)
    } else if c == '-' || c == '+' {
        Some(62)
    } else if c == '_' || c == '/' {
        Some(63)
    } else {
        None
    }
}

proof fn lemma_sextets_small(bytes: Seq<u8>)
    ensures
        forall|i: int| 0 <= i < sextets(bytes).len() ==> #[trigger] sextets(bytes)[i] < 64,
    decreases bytes.len(),
{
    if bytes.len() > 2 {
        lemma_sextets_small(bytes.skip(3));
        let rest = sextets(bytes.skip(3));
        assert forall|i: int| 0 <= i < sextets(bytes).len() implies #[trigger] sextets(bytes)[i]
            < 64 by {
            if i >= 4 {
                assert(sextets(bytes)[i] == rest[i - 4]);
            }
        }
    }
}

fn sextet_text_exec(vals: &Vec<u8>, url_safe: bool) -> (r: String)
    requires
        forall|i: int| 0 <= i < vals@.len() ==> #[trigger] vals@[i] < 64,
    ensures
        r@ == sextet_text(vals@, url_safe),
{
    let ghost want = sextet_text(vals@, url_safe);
    let mut out: String = String::new();
    let mut i: usize = 0;
    while i < vals.len()
        invariant
            i <= vals@.len(),
            want == sextet_text(vals@, url_safe),
            forall|k: int| 0 <= k < vals@.len() ==> #[trigger] vals@[k] < 64,
            out@ == want.take(i as int),
        decreases vals@.len() - i,
    {
        out.push(sextet_char_exec(vals[i], url_safe));
        proof {
            views::lemma_take_step(want, i as int);
        }
        i = i + 1;
    }
    proof {
        views::lemma_take_all(want);
    }
    out
}

/// Writes bytes in the URL-safe alphabet, without padding.
pub fn base64url_encode(bytes: &[u8]) -> (r: String)
    ensures
        r@ == encoded_url(bytes@),
{
    proof {
        lemma_sextets_small(bytes@);
    }
    let vals: Vec<u8> = sextets_exec(bytes);
    sextet_text_exec(&vals, true)
}

/// Writes bytes in the standard alphabet, padded.
pub fn base64_encode(bytes: &[u8]) -> (r: String)
    ensures
        r@ == encoded_padded(bytes@),
{
    proof {
        lemma_sextets_small(bytes@);
        reveal_strlit("==");
        reveal_strlit("=");
    }
    let vals: Vec<u8> = sextets_exec(bytes);
    let mut out: String = sextet_text_exec(&vals, false);
    if bytes.len() % 3 == 1 {
        out.push('=');
        out.push('=');
    } else if bytes.len() % 3 == 2 {
        out.push('=');
    }
    assert(out@ =~= encoded_padded(bytes@));
    out
}

/// Reads a text of either alphabet, with or without padding.
pub fn decode_base64url(input: &str) -> (r: Result<Vec<u8>, String>)
    ensures
        match r {
            Ok(v) => decoded(input@) == Ok::<Seq<u8>, Seq<char>>(v@),
            Err(e) => decoded(input@) == Err::<Seq<u8>, Seq<char>>(e@),
        },
{
    let x: Vec<char> = chars_of(input);
    let mut vals: Vec<u8> = Vec::new();
    let mut i: usize = 0;
    while i < x.len()
        invariant
            i <= x@.len(),
            x@ == input@,
            text_sextets(x@.take(i as int)) == Ok::<Seq<u8>, char>(vals@),
            forall|k: int| 0 <= k < vals@.len() ==> #[trigger] vals@[k] < 64,
        decreases x@.len() - i,
    {
        proof {
            views::lemma_take_step(x@, i as int);
        }
        let c: char = x[i];
        if c != '=' {
            match sextet_value_exec(c) {
                Some(v) => {
                    vals.push(v);
                },
                None => {
                    let mut e: String = "invalid base64 char: ".to_owned();
                    e.push(c);
                    proof {
                        lemma_bad_char_stays(x@, i + 1);
                        assert(e@ =~= "invalid base64 char: "@ + seq![c]);
                    }
                    return Err(e);
                },
            }
        }
        i = i + 1;
    }
    proof {
        views::lemma_take_all(x@);
    }
    Ok(unsextets_exec(&vals))
}

proof fn lemma_bad_char_stays(s: Seq<char>, n: int)
    requires
        0 <= n <= s.len(),
        text_sextets(s.take(n)) is Err,
    ensures
        text_sextets(s) == text_sextets(s.take(n)),
    decreases s.len() - n,
{
    if n < s.len() {
        views::lemma_take_step(s, n);
        lemma_bad_char_stays(s, n + 1);
    } else {
        views::lemma_take_all(s);
    }
}

proof fn lemma_unsextets_sextets(bytes: Seq<u8>)
    ensures
        unsextets(sextets(bytes)) == bytes,
    decreases bytes.len(),
{
    let s = sextets(bytes);
    if bytes.len() > 2 {
        lemma_unsextets_sextets(bytes.skip(3));
        assert(s.skip(4) =~= sextets(bytes.skip(3)));
        assert(unsextets(s) =~= seq![bytes[0], bytes[1], bytes[2]] + bytes.skip(3));
        assert(seq![bytes[0], bytes[1], bytes[2]] + bytes.skip(3) =~= bytes);
    } else {
        assert(unsextets(s) =~= bytes);
    }
}

proof fn lemma_text_sextets(vals: Seq<u8>, url_safe: bool)
    requires
        forall|i: int| 0 <= i < vals.len() ==> #[trigger] vals[i] < 64,
    ensures
        text_sextets(sextet_text(vals, url_safe)) == Ok::<Seq<u8>, char>(vals),
    decreases vals.len(),
{
    let t = sextet_text(vals, url_safe);
    if vals.len() > 0 {
        let init = vals.drop_last();
        assert forall|i: int| 0 <= i < init.len() implies #[trigger] init[i] < 64 by {
            assert(vals[i] < 64);
        }
        lemma_text_sextets(init, url_safe);
        assert(t.drop_last() =~= sextet_text(init, url_safe));
        assert(vals[vals.len() - 1] < 64);
        assert(init.push(vals.last()) =~= vals);
    } else {
        assert(vals =~= Seq::empty());
    }
}

/// Reading gives back the bytes that were written in the URL-safe alphabet.
pub proof fn law_decode_undoes_url_encode(bytes: Seq<u8>)
    ensures
        decoded(encoded_url(bytes)) == Ok::<Seq<u8>, Seq<char>>(bytes),
{
    lemma_sextets_small(bytes);
    lemma_text_sextets(sextets(bytes), true);
    lemma_unsextets_sextets(bytes);
}

/// Reading gives back the bytes that were written in the standard alphabet.
pub proof fn law_decode_undoes_padded_encode(bytes: Seq<u8>)
    ensures
        decoded(encoded_padded(bytes)) == Ok::<Seq<u8>, Seq<char>>(bytes),
{
    lemma_sextets_small(bytes);
    let vals = sextets(bytes);
    let body = sextet_text(vals, false);
    lemma_text_sextets(vals, false);
    lemma_unsextets_sextets(bytes);
    let all = encoded_padded(bytes);
    reveal_with_fuel(text_sextets, 3);
    if bytes.len() % 3 == 1 {
        assert(all.drop_last().drop_last() =~= body);
        assert(all.drop_last().last() == '=');
    } else if bytes.len() % 3 == 2 {
        assert(all.drop_last() =~= body);
    } else {
        assert(all =~= body);
    }
}

/// Three bytes are four groups of six bits: both are the same number.
pub proof fn law_groups_are_the_bytes(bytes: Seq<u8>)
    requires
        bytes.len() >= 3,
    ensures
        ({
            let g = sextets(bytes);
            &&& g.len() >= 4
            &&& g[0] < 64 && g[1] < 64 && g[2] < 64 && g[3] < 64
            &&& 0x4_0000 * g[0] + 0x1000 * g[1] + 0x40 * g[2] + g[3] == 0x1_0000 * bytes[0] + 0x100
                * bytes[1] + bytes[2]
            &&& g.skip(4) == sextets(bytes.skip(3))
        }),
{
    let g = sextets(bytes);
    assert(g.skip(4) =~= sextets(bytes.skip(3)));
}

/// The alphabet counts up: the capital letters, the small letters, the digits, and two signs that
/// the URL-safe alphabet writes otherwise.
pub proof fn law_alphabet_counts_up(v: u8, url_safe: bool)
    requires
        v < 64,
    ensures
        v < 26 ==> sextet_char(v, url_safe) as int == 'A' as int + v,
        26 <= v < 52 ==> sextet_char(v, url_safe) as int == 'a' as int + v - 26,
        52 <= v < 62 ==> sextet_char(v, url_safe) as int == '0' as int + v - 52,
        sextet_char(62, true) == '-',
        sextet_char(63, true) == '_',
        sextet_char(62, false) == '+',
        sextet_char(63, false) == '/',
        sextet_value(sextet_char(v, url_safe)) == Some(v),
{
}

proof fn lemma_group_count(bytes: Seq<u8>)
    ensures
        sextets(bytes).len() == (4 * bytes.len() + 2) / 3,
    decreases bytes.len(),
{
    if bytes.len() >= 3 {
        lemma_group_count(bytes.skip(3));
    }
}

/// Padded text is four characters for three bytes or a part of them; text that is not padded has
/// no more characters than it needs, and none that a URL would not take.
pub proof fn law_encoded_text_has_its_length(bytes: Seq<u8>)
    ensures
        encoded_padded(bytes).len() == 4 * ((bytes.len() + 2) / 3),
        encoded_url(bytes).len() == (4 * bytes.len() + 2) / 3,
        forall|i: int|
            0 <= i < encoded_url(bytes).len() ==> {
                let c = #[trigger] encoded_url(bytes)[i];
                c != '+' && c != '/' && c != '='
            },
{
    lemma_group_count(bytes);
    lemma_sextets_small(bytes);
    assert forall|i: int| 0 <= i < encoded_url(bytes).len() implies {
        let c = #[trigger] encoded_url(bytes)[i];
        c != '+' && c != '/' && c != '='
    } by {
        assert(encoded_url(bytes)[i] == sextet_char(sextets(bytes)[i], true));
        assert(sextets(bytes)[i] < 64);
    }
}

/// A character that is in neither alphabet is told, the first of them where there are more.
pub proof fn law_foreign_character_is_told(before: Seq<char>, c: char, behind: Seq<char>)
    requires
        text_sextets(before) is Ok,
        sextet_value(c) is None,
        c != '=',
    ensures
        decoded(before + seq![c] + behind) == Err::<Seq<u8>, Seq<char>>(
            "invalid base64 char: "@ + seq![c],
        ),
{
    lemma_foreign_stays(before, c, behind);
}

proof fn lemma_foreign_stays(before: Seq<char>, c: char, behind: Seq<char>)
    requires
        text_sextets(before) is Ok,
        sextet_value(c) is None,
        c != '=',
    ensures
        text_sextets(before + seq![c] + behind) == Err::<Seq<u8>, char>(c),
    decreases behind.len(),
{
    let s = before + seq![c] + behind;
    if behind.len() == 0 {
        assert(s.drop_last() =~= before);
        assert(s.last() == c);
    } else {
        lemma_foreign_stays(before, c, behind.drop_last());
        assert(s.drop_last() =~= before + seq![c] + behind.drop_last());
    }
}

} // verus!
