//! Identifiers of tool calls and messages.
use vstd::prelude::*;
use crate::text;
use crate::text::{chars_of, concat, split_once_at, starts_with, text_range, trim_end_of};
use crate::views;

verus! {

/// The longest identifier that the service takes, in characters.
pub const ID_MAX_CHARS: usize = 64;

/// A digit of base thirty-six.
pub open spec fn digit36(d: nat) -> char {
    if d < 10 {
        (48 + d) as char
    } else {
        (87 + d) as char
    }
}

/// A number in base thirty-six.
pub open spec fn base36(n: nat) -> Seq<char>
    decreases n,
{
    if n < 36 {
        seq![digit36(n)]
    } else {
        base36(n / 36).push(digit36(n % 36))
    }
}

fn digit36_exec(d: u32) -> (r: char)
    requires
        d < 36,
    ensures
        r == digit36(d as nat),
{
    let code: u8 = if d < 10 {
        48 + d as u8
    } else {
        87 + d as u8
    };
    code as char
}

/// Writes a number in base thirty-six.
pub fn radix36(v: u32) -> (r: String)
    ensures
        r@ == base36(v as nat),
    decreases v,
{
    let mut out: String = if v < 36 {
        String::new()
    } else {
        radix36(v / 36)
    };
    out.push(digit36_exec(v % 36));
    assert(v < 36 ==> out@ =~= base36(v as nat));
    out
}

/// One lane of the hash: every character is mixed in by exclusive or and a
/// multiplication modulo 2^32.
pub open spec fn hash_lane(s: Seq<char>, seed: u32, factor: u32) -> u32
    decreases s.len(),
{
    if s.len() == 0 {
        seed
    } else {
        (hash_lane(s.drop_last(), seed, factor) ^ (s.last() as u32)).wrapping_mul(factor)
    }
}

/// One round of the final mix of two lanes.
pub open spec fn hash_mix(a: u32, b: u32) -> u32 {
    (a ^ (a >> 16u32)).wrapping_mul(2246822507u32) ^ (b ^ (b >> 13u32)).wrapping_mul(3266489909u32)
}

/// The two-lane multiplicative hash of a text, in base thirty-six.
pub open spec fn short_hash_text(s: Seq<char>) -> Seq<char> {
    let a = hash_lane(s, 0xdeadbeefu32, 2654435761u32);
    let b = hash_lane(s, 0x41c6ce57u32, 1597334677u32);
    let h1 = hash_mix(a, b);
    let h2 = hash_mix(b, h1);
    base36(h2 as nat) + base36(h1 as nat)
}

fn mix(a: u32, b: u32) -> (r: u32)
    ensures
        r == hash_mix(a, b),
{
    (a ^ (a >> 16u32)).wrapping_mul(2246822507u32) ^ (b ^ (b >> 13u32)).wrapping_mul(3266489909u32)
}

/// A short stable name for a text.
pub fn short_hash(s: &str) -> (r: String)
    ensures
        r@ == short_hash_text(s@),
{
    let x: Vec<char> = chars_of(s);
    let mut h1: u32 = 0xdeadbeefu32;
    let mut h2: u32 = 0x41c6ce57u32;
    let mut i: usize = 0;
    while i < x.len()
        invariant
            i <= x@.len(),
            h1 == hash_lane(x@.take(i as int), 0xdeadbeefu32, 2654435761u32),
            h2 == hash_lane(x@.take(i as int), 0x41c6ce57u32, 1597334677u32),
        decreases x@.len() - i,
    {
        proof {
            views::lemma_take_step(x@, i as int);
        }
        let c: u32 = x[i] as u32;
        h1 = (h1 ^ c).wrapping_mul(2654435761u32);
        h2 = (h2 ^ c).wrapping_mul(1597334677u32);
        i = i + 1;
    }
    proof {
        views::lemma_take_all(x@);
    }
    let first: u32 = mix(h1, h2);
    let second: u32 = mix(h2, first);
    let left: String = radix36(second);
    let right: String = radix36(first);
    concat(left.as_str(), right.as_str())
}

/// A character that an identifier may hold.
pub open spec fn is_id_char(c: char) -> bool {
    let n = c as int;
    48 <= n <= 57 || 65 <= n <= 90 || 97 <= n <= 122 || c == '_' || c == '-'
}

/// A text with every character that an identifier may not hold made an
/// underscore.
pub open spec fn sanitized(s: Seq<char>) -> Seq<char> {
    Seq::new(
        s.len(),
        |i: int|
            if is_id_char(s[i]) {
                s[i]
            } else {
                '_'
            },
    )
}

/// The first sixty-four characters.
pub open spec fn clamped(s: Seq<char>) -> Seq<char> {
    if s.len() <= ID_MAX_CHARS {
        s
    } else {
        s.take(ID_MAX_CHARS as int)
    }
}

/// A text as the service takes it for an identifier.
pub open spec fn normalized_id(s: Seq<char>) -> Seq<char> {
    text::trim_end_char(clamped(sanitized(s)), '_')
}

fn is_id_char_exec(c: char) -> (r: bool)
    ensures
        r == is_id_char(c),
{
    let n: u32 = c as u32;
    (48 <= n && n <= 57) || (65 <= n && n <= 90) || (97 <= n && n <= 122) || c == '_' || c == '-'
}

/// Makes an identifier that the service accepts out of any text.
pub fn normalize_id_part(part: &str) -> (r: String)
    ensures
        r@ == normalized_id(part@),
{
    let x: Vec<char> = chars_of(part);
    let mut clean: Vec<char> = Vec::new();
    let mut i: usize = 0;
    while i < x.len()
        invariant
            i <= x@.len(),
            clean@ == sanitized(x@).take(i as int),
        decreases x@.len() - i,
    {
        proof {
            views::lemma_take_step(sanitized(x@), i as int);
        }
        if is_id_char_exec(x[i]) {
            clean.push(x[i]);
        } else {
            clean.push('_');
        }
        i = i + 1;
    }
    proof {
        views::lemma_take_all(sanitized(x@));
    }
    let n: usize = if clean.len() <= ID_MAX_CHARS {
        clean.len()
    } else {
        ID_MAX_CHARS
    };
    let kept: String = text_range(&clean, 0, n);
    assert(kept@ =~= clamped(sanitized(part@)));
    trim_end_of(kept.as_str(), '_')
}

/// The call id and the item id of a combined id `call|item`.
pub open spec fn split_id(id: Seq<char>) -> (Seq<char>, Option<Seq<char>>) {
    match text::split_once(id, '|') {
        Some((call, item)) => (call, Some(item)),
        None => (id, None),
    }
}

/// Splits a combined id `call|item`.
pub fn split_tool_call_id(id: &str) -> (r: (String, Option<String>))
    ensures
        (r.0@, views::opt(r.1)) == split_id(id@),
{
    match split_once_at(id, '|') {
        Some((call, item)) => (call, Some(item)),
        None => (id.to_owned(), None),
    }
}

/// The item id under which a call is replayed: its own, prefixed with `fc_`
/// where it lacks that, for a call of the same provider; a hash for a foreign
/// one.
pub open spec fn replay_item_id(item: Seq<char>, same_provider: bool) -> Seq<char> {
    if same_provider {
        if text::begins(item, "fc_"@) {
            normalized_id(item)
        } else {
            normalized_id("fc_"@ + item)
        }
    } else {
        "fc_"@ + short_hash_text(item)
    }
}

/// The ids under which a tool call is sent. Where the provider does not use
/// combined ids the whole id is the call id.
pub open spec fn sent_ids(id: Seq<char>, allowed: bool, same_provider: bool) -> (
    Seq<char>,
    Option<Seq<char>>,
) {
    if !allowed {
        (normalized_id(id), None)
    } else {
        let (call, item) = split_id(id);
        (
            normalized_id(call),
            match item {
                Some(i) => if i.len() == 0 {
                    None
                } else {
                    Some(replay_item_id(i, same_provider))
                },
                None => None,
            },
        )
    }
}

/// Splits and normalizes the id of a tool call.
pub fn split_normalized_tool_call_id(id: &str, allowed: bool, same_provider: bool) -> (r: (
    String,
    Option<String>,
))
    ensures
        (r.0@, views::opt(r.1)) == sent_ids(id@, allowed, same_provider),
{
    if !allowed {
        return (normalize_id_part(id), None);
    }
    let (call, item) = split_tool_call_id(id);
    let normalized_call: String = normalize_id_part(call.as_str());
    match item {
        Some(i) => {
            if i.as_str().is_empty() {
                (normalized_call, None)
            } else if same_provider {
                if starts_with(i.as_str(), "fc_") {
                    (normalized_call, Some(normalize_id_part(i.as_str())))
                } else {
                    let prefixed: String = concat("fc_", i.as_str());
                    (normalized_call, Some(normalize_id_part(prefixed.as_str())))
                }
            } else {
                let hash: String = short_hash(i.as_str());
                (normalized_call, Some(concat("fc_", hash.as_str())))
            }
        },
        None => (normalized_call, None),
    }
}

proof fn lemma_trim_end_char(s: Seq<char>, c: char)
    ensures
        text::trim_end_char(s, c).len() <= s.len(),
        text::trim_end_char(s, c) == s.take(text::trim_end_char(s, c).len() as int),
        text::trim_end_char(s, c).len() > 0 ==> text::trim_end_char(s, c).last() != c,
        text::trim_end_char(text::trim_end_char(s, c), c) == text::trim_end_char(s, c),
    decreases s.len(),
{
    if s.len() > 0 && s.last() == c {
        lemma_trim_end_char(s.drop_last(), c);
        let n = text::trim_end_char(s, c).len() as int;
        assert(s.drop_last().take(n) =~= s.take(n));
    } else {
        assert(s.take(s.len() as int) =~= s);
    }
}

/// A normalized identifier is one that the service accepts: at most sixty-four
/// characters, all of them letters, digits, `_` or `-`, the last one no `_`.
pub proof fn law_normalized_id_is_accepted(s: Seq<char>)
    ensures
        normalized_id(s).len() <= ID_MAX_CHARS,
        forall|i: int| 0 <= i < normalized_id(s).len() ==> is_id_char(#[trigger] normalized_id(s)[i]),
        normalized_id(s).len() > 0 ==> normalized_id(s).last() != '_',
{
    lemma_trim_end_char(clamped(sanitized(s)), '_');
}

/// Normalizing an identifier twice is the same as normalizing it once.
pub proof fn law_normalized_id_idempotent(s: Seq<char>)
    ensures
        normalized_id(normalized_id(s)) == normalized_id(s),
{
    let n = normalized_id(s);
    law_normalized_id_is_accepted(s);
    assert(sanitized(n) =~= n);
    assert(clamped(n) == n);
    lemma_trim_end_char(clamped(sanitized(s)), '_');
}

/// How many numbers `k` digits of base thirty-six can write.
spec fn reach36(k: nat) -> nat
    decreases k,
{
    if k == 0 {
        1
    } else {
        36 * reach36((k - 1) as nat)
    }
}

proof fn lemma_base36_len(n: nat, k: nat)
    requires
        n < reach36(k),
        k >= 1,
    ensures
        base36(n).len() <= k,
    decreases k,
{
    if n >= 36 {
        if k == 1 {
            assert(reach36(0) == 1);
        } else {
            lemma_base36_len(n / 36, (k - 1) as nat);
        }
    }
}

/// The item id of a foreign call is short enough for the service.
pub proof fn law_foreign_item_id_is_short(item: Seq<char>)
    ensures
        replay_item_id(item, false).len() <= ID_MAX_CHARS,
{
    reveal_strlit("fc_");
    reveal_with_fuel(reach36, 8);
    let a = hash_lane(item, 0xdeadbeefu32, 2654435761u32);
    let b = hash_lane(item, 0x41c6ce57u32, 1597334677u32);
    let h1 = hash_mix(a, b);
    let h2 = hash_mix(b, h1);
    lemma_base36_len(h1 as nat, 7);
    lemma_base36_len(h2 as nat, 7);
}

/// Whether the service takes a text for an identifier as it is.
pub open spec fn is_clean(s: Seq<char>) -> bool {
    &&& 0 < s.len() <= 64
    &&& forall|i: int|
        0 <= i < s.len() ==> (('0' <= #[trigger] s[i] <= '9') || ('a' <= s[i] <= 'z') || ('A' <= s[i]
            <= 'Z') || s[i] == '_' || s[i] == '-')
    &&& s.last() != '_'
}

proof fn lemma_clean_is_kept(s: Seq<char>)
    requires
        is_clean(s),
    ensures
        normalized_id(s) == s,
{
    assert(sanitized(s) =~= s) by {
        assert forall|i: int| 0 <= i < s.len() implies is_id_char(s[i]) by {}
    }
}

/// Ids that the service takes are sent as they are: of a combined id both halves, the latter for
/// a call of the same provider only, and one without a second half whole.
pub proof fn law_clean_ids_are_sent_as_they_are(call: Seq<char>, item: Seq<char>, same: bool)
    requires
        is_clean(call),
    ensures
        sent_ids(call, true, same) == (call, None::<Seq<char>>),
        sent_ids(call, false, same) == (call, None::<Seq<char>>),
        sent_ids(call + seq!['|'] + item, true, same).0 == call,
        item.len() == 0 ==> sent_ids(call + seq!['|'] + item, true, same).1 is None,
        is_clean(item) && item.len() > 3 && item.take(3) == "fc_"@ ==> sent_ids(
            call + seq!['|'] + item,
            true,
            true,
        ).1 == Some(item),
        item.len() > 0 ==> {
            let sent = sent_ids(call + seq!['|'] + item, true, same).1;
            sent is Some && sent->0.len() <= 64
        },
{
    lemma_clean_is_kept(call);
    assert forall|i: int| 0 <= i < call.len() implies call[i] != '|' by {
        assert(('0' <= call[i] <= '9') || ('a' <= call[i] <= 'z') || ('A' <= call[i] <= 'Z')
            || call[i] == '_' || call[i] == '-');
    }
    text::lemma_find_char_is(call, '|', call.len() as int);
    let whole = call + seq!['|'] + item;
    assert(whole[call.len() as int] == '|');
    assert forall|i: int| 0 <= i < call.len() implies whole[i] != '|' by {
        assert(whole[i] == call[i]);
    }
    text::lemma_find_char_is(whole, '|', call.len() as int);
    assert(whole.take(call.len() as int) =~= call);
    assert(whole.skip(call.len() as int + 1) =~= item);
    if is_clean(item) {
        lemma_clean_is_kept(item);
    }
    if item.len() > 0 {
        if same {
            law_normalized_id_is_accepted(item);
            law_normalized_id_is_accepted("fc_"@ + item);
        } else {
            law_foreign_item_id_is_short(item);
        }
    }
    reveal_strlit("fc_");
}

/// An identifier keeps every character that may stand in one, in its place, and has an underscore
/// for every other; it loses nothing but what is too much and underscores at its end.
pub proof fn law_normalized_id_keeps_its_characters(s: Seq<char>, i: int)
    requires
        0 <= i < normalized_id(s).len(),
    ensures
        normalized_id(s).len() <= s.len(),
        '0' <= s[i] <= '9' || 'a' <= s[i] <= 'z' || 'A' <= s[i] <= 'Z' || s[i] == '-' || s[i] == '_'
            ==> normalized_id(s)[i] == s[i],
        !('0' <= s[i] <= '9' || 'a' <= s[i] <= 'z' || 'A' <= s[i] <= 'Z' || s[i] == '-' || s[i]
            == '_') ==> normalized_id(s)[i] == '_',
        forall|j: int|
            normalized_id(s).len() <= j < s.len() && j < 64 ==> {
                let c = #[trigger] s[j];
                !('0' <= c <= '9' || 'a' <= c <= 'z' || 'A' <= c <= 'Z' || c == '-')
            },
{
    let whole = clamped(sanitized(s));
    let n = normalized_id(s);
    text::law_end_is_trimmed(whole, '_');
    assert(whole.take(n.len() as int)[i] == n[i]);
    assert(whole[i] == sanitized(s)[i]);
    assert forall|j: int| n.len() <= j < s.len() && j < 64 implies {
        let c = #[trigger] s[j];
        !('0' <= c <= '9' || 'a' <= c <= 'z' || 'A' <= c <= 'Z' || c == '-')
    } by {
        assert(whole[j] == '_');
        assert(whole[j] == sanitized(s)[j]);
    }
}

/// The value of a digit of base thirty-six.
pub open spec fn value36(c: char) -> int {
    if ('a' as int) <= (c as int) {
        (c as int) - ('a' as int) + 10
    } else {
        (c as int) - ('0' as int)
    }
}

/// The number that a text writes in base thirty-six.
pub open spec fn read36(s: Seq<char>) -> int
    decreases s.len(),
{
    if s.len() == 0 {
        0
    } else {
        36 * read36(s.drop_last()) + value36(s.last())
    }
}

/// A number that is written in base thirty-six is read as the same number.
pub proof fn law_base36_reads_back(n: nat)
    ensures
        read36(base36(n)) == n,
        base36(n).len() > 0,
    decreases n,
{
    reveal_with_fuel(read36, 2);
    if n >= 36 {
        law_base36_reads_back(n / 36);
        assert(base36(n).drop_last() =~= base36(n / 36));
        assert(36 * (n / 36) + n % 36 == n);
    } else {
        assert(base36(n).drop_last() =~= Seq::<char>::empty());
    }
}

/// Two parts with a bar between them are told apart again at the first bar; a text without one
/// is a call alone.
pub proof fn law_combined_id_is_told_apart(call: Seq<char>, item: Seq<char>)
    requires
        !call.contains('|'),
    ensures
        split_id(call + seq!['|'] + item) == (call, Some(item)),
        split_id(call) == (call, None::<Seq<char>>),
{
    text::law_text_is_parted_at_the_first(call, '|', item);
}

/// An item of another provider is sent under a name made of its id, and one of the same provider
/// under its own id, marked as an item where it is not.
pub proof fn law_items_are_marked(call: Seq<char>, item: Seq<char>)
    requires
        is_clean(call),
        item.len() > 0,
    ensures
        sent_ids(call + seq!['|'] + item, true, false).1 == Some("fc_"@ + short_hash_text(item)),
        is_clean("fc_"@ + item) && !text::begins(item, "fc_"@) ==> sent_ids(
            call + seq!['|'] + item,
            true,
            true,
        ).1 == Some("fc_"@ + item),
{
    assert forall|i: int| 0 <= i < call.len() implies call[i] != '|' by {
        assert(('0' <= call[i] <= '9') || ('a' <= call[i] <= 'z') || ('A' <= call[i] <= 'Z')
            || call[i] == '_' || call[i] == '-');
    }
    text::law_text_is_parted_at_the_first(call, '|', item);
    if is_clean("fc_"@ + item) {
        lemma_clean_is_kept("fc_"@ + item);
    }
}

} // verus!
