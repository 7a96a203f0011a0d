//! Random values.
use vstd::prelude::*;
use crate::text::{concat3, decimal};
use crate::text;

verus! {

/// A digit of a number in base sixteen.
pub open spec fn hex_digit(d: int) -> char {
    if d < 10 {
        (('0' as int) + d) as char
    } else {
        (('a' as int) + d - 10) as char
    }
}

/// Bytes in base sixteen, two digits each.
pub open spec fn hex_text(bytes: Seq<u8>) -> Seq<char> {
    Seq::new(
        2 * bytes.len(),
        |i: int|
            if i % 2 == 0 {
                hex_digit(bytes[i / 2] as int / 16)
            } else {
                hex_digit(bytes[i / 2] as int % 16)
            },
    )
}

/// `hex::encode` writes bytes in base sixteen, two lowercase digits each.
#[verifier::external_body]
fn hex_encode(bytes: &[u8]) -> (r: String)
    ensures
        r@ == hex_text(bytes@),
{
    hex::encode(bytes)
}

/// `RngCore::fill_bytes` of `rand::thread_rng()` fills a buffer with random bytes:
/// how many there are is all that can be said of them.
#[verifier::external_body]
pub(crate) fn random_bytes(n: usize) -> (r: Vec<u8>)
    ensures
        r@.len() == n,
{
    let mut bytes = vec![0u8; n];
    rand::RngCore::fill_bytes(&mut rand::thread_rng(), &mut bytes);
    bytes
}

/// `Rng::gen_range` of `rand::thread_rng()` draws a number from a range, its ends
/// among them. It panics on an empty range.
#[verifier::external_body]
pub(crate) fn random_between(min: u64, max: u64) -> (r: u64)
    requires
        min <= max,
    ensures
        min <= r <= max,
{
    rand::Rng::gen_range(&mut rand::thread_rng(), min..=max)
}

/// Whether a character is a lowercase digit in base sixteen.
pub open spec fn is_hex_char(c: char) -> bool {
    ('0' as int) <= (c as int) <= ('9' as int) || ('a' as int) <= (c as int) <= ('f' as int)
}

/// Whether a text has the shape of an identifier of the seventh version: groups of
/// eight, four, four, four and twelve digits with hyphens between them, the third
/// of which starts with the version and the fourth with the variant.
pub open spec fn is_uuidv7(s: Seq<char>) -> bool {
    &&& s.len() == 36
    &&& forall|i: int|
        0 <= i < 36 ==> if i == 8 || i == 13 || i == 18 || i == 23 {
            #[trigger] s[i] == '-'
        } else {
            is_hex_char(s[i])
        }
    &&& s[14] == '7'
    &&& s[19] == '8' || s[19] == '9' || s[19] == 'a' || s[19] == 'b'
}

/// A fresh identifier that grows with time: `uuid::Uuid::now_v7`, printed. Its
/// digits depend on the clock and on chance, so only its shape is stated.
#[verifier::external_body]
pub fn uuidv7() -> (r: String)
    ensures
        is_uuidv7(r@),
{
    uuid::Uuid::now_v7().to_string()
}

/// An identifier out of what it is for, a time and random bytes.
pub open spec fn stamped_id(prefix: Seq<char>, now_ms: u64, bytes: Seq<u8>) -> Seq<char> {
    prefix + ":"@ + text::decimal_text(now_ms as nat) + ":"@ + hex_text(bytes.take(4))
}

/// An identifier out of what it is for, a time and the first four of the bytes.
pub fn id_from(prefix: &str, now_ms: u64, bytes: &[u8]) -> (r: String)
    requires
        bytes@.len() >= 4,
    ensures
        r@ == stamped_id(prefix@, now_ms, bytes@),
{
    let mut r: String = concat3(prefix, ":", decimal(now_ms).as_str());
    r.append(":");
    let head: &[u8] = vstd::slice::slice_subrange(bytes, 0, 4);
    r.append(hex_encode(head).as_str());
    assert(bytes@.take(4) =~= bytes@.subrange(0, 4));
    r
}

/// A random identifier.
pub fn random_id(prefix: &str, now_ms: u64) -> (r: String)
    ensures
        exists|bytes: Seq<u8>|
            bytes.len() == 8 && r@ == #[trigger] stamped_id(prefix@, now_ms, bytes),
{
    let bytes: Vec<u8> = random_bytes(8);
    let r: String = id_from(prefix, now_ms, bytes.as_slice());
    assert(r@ == stamped_id(prefix@, now_ms, bytes@));
    r
}

/// Bytes are written with two digits each, the higher half first, so that different bytes are
/// written differently.
pub proof fn law_hex_writes_every_byte(bytes: Seq<u8>, i: int)
    requires
        0 <= i < bytes.len(),
    ensures
        hex_text(bytes).len() == 2 * bytes.len(),
        is_hex_char(hex_text(bytes)[2 * i]),
        is_hex_char(hex_text(bytes)[2 * i + 1]),
        16 * digit_value(hex_text(bytes)[2 * i]) + digit_value(hex_text(bytes)[2 * i + 1])
            == bytes[i] as int,
{
    let b = bytes[i] as int;
    assert((2 * i) % 2 == 0 && (2 * i) / 2 == i);
    assert((2 * i + 1) % 2 == 1 && (2 * i + 1) / 2 == i);
    assert(hex_text(bytes)[2 * i] == hex_digit(b / 16));
    assert(hex_text(bytes)[2 * i + 1] == hex_digit(b % 16));
}

/// The value of a digit in base sixteen.
pub open spec fn digit_value(c: char) -> int {
    if ('a' as int) <= (c as int) {
        (c as int) - ('a' as int) + 10
    } else {
        (c as int) - ('0' as int)
    }
}

/// An identifier says what it is for and when it was made, and ends with eight digits of chance.
pub proof fn law_id_says_what_it_is_for(prefix: Seq<char>, now_ms: u64, bytes: Seq<u8>)
    requires
        bytes.len() >= 4,
    ensures
        ({
            let id = stamped_id(prefix, now_ms, bytes);
            let head = prefix + ":"@ + text::decimal_text(now_ms as nat) + ":"@;
            &&& id.len() == head.len() + 8
            &&& text::begins(id, head)
            &&& text::ends(id, hex_text(bytes.take(4)))
        }),
{
    let id = stamped_id(prefix, now_ms, bytes);
    let head = prefix + ":"@ + text::decimal_text(now_ms as nat) + ":"@;
    let tail = hex_text(bytes.take(4));
    assert(id =~= head + tail);
    assert(id.take(head.len() as int) =~= head);
    assert(id.skip(id.len() - tail.len()) =~= tail);
}

} // verus!
