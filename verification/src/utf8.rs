//! Text out of bytes.
use vstd::prelude::*;
use vstd::utf8::*;

verus! {

/// How many bytes at the start are complete characters.
pub open spec fn valid_len(bytes: Seq<u8>) -> nat
    decreases bytes.len(),
{
    if bytes.len() > 0 && valid_first_scalar(bytes) {
        (length_of_first_scalar(bytes) + valid_len(pop_first_scalar(bytes))) as nat
    } else {
        0
    }
}

/// The text of the complete characters at the start.
pub open spec fn valid_text(bytes: Seq<u8>) -> Seq<char> {
    decode_utf8(bytes.take(valid_len(bytes) as int))
}

/// What `String::from_utf8_lossy` makes of bytes.
pub uninterp spec fn lossy_text(bytes: Seq<u8>) -> Seq<char>;

/// `std::str::from_utf8` checks bytes; where they are no text, `valid_up_to` of
/// its error is the greatest length such that the bytes up to there are one.
#[verifier::external_body]
fn valid_up_to(buf: &[u8]) -> (r: usize)
    ensures
        r <= buf@.len(),
        valid_utf8(buf@.take(r as int)),
        forall|j: int| r < j <= buf@.len() ==> !valid_utf8(#[trigger] buf@.take(j)),
{
    match std::str::from_utf8(buf) {
        Ok(s) => s.len(),
        Err(e) => e.valid_up_to(),
    }
}

/// `String::from_utf8_lossy` turns bytes into text: valid bytes into the text
/// that they encode, any other into replacement characters.
#[verifier::external_body]
pub(crate) fn text_from_bytes(bytes: &[u8]) -> (r: String)
    ensures
        r@ == lossy_text(bytes@),
        valid_utf8(bytes@) ==> r@ == decode_utf8(bytes@),
{
    String::from_utf8_lossy(bytes).into_owned()
}

proof fn lemma_first_scalar_of_prefix(bytes: Seq<u8>, j: int)
    requires
        0 < j <= bytes.len(),
        valid_first_scalar(bytes.take(j)),
    ensures
        valid_first_scalar(bytes),
        length_of_first_scalar(bytes) == length_of_first_scalar(bytes.take(j)),
        length_of_first_scalar(bytes) <= j,
        pop_first_scalar(bytes.take(j)) == pop_first_scalar(bytes).take(
            j - length_of_first_scalar(bytes),
        ),
{
    let p = bytes.take(j);
    assert(p[0] == bytes[0]);
    if p.len() > 1 {
        assert(p[1] == bytes[1]);
    }
    if p.len() > 2 {
        assert(p[2] == bytes[2]);
    }
    if p.len() > 3 {
        assert(p[3] == bytes[3]);
    }
    let n = length_of_first_scalar(bytes);
    assert(pop_first_scalar(p) =~= pop_first_scalar(bytes).take(j - n));
}

proof fn lemma_first_scalar_extends(bytes: Seq<u8>, j: int)
    requires
        valid_first_scalar(bytes),
        length_of_first_scalar(bytes) <= j <= bytes.len(),
    ensures
        valid_first_scalar(bytes.take(j)),
        length_of_first_scalar(bytes) == length_of_first_scalar(bytes.take(j)),
        pop_first_scalar(bytes.take(j)) == pop_first_scalar(bytes).take(
            j - length_of_first_scalar(bytes),
        ),
{
    let p = bytes.take(j);
    assert(p[0] == bytes[0]);
    if p.len() > 1 {
        assert(p[1] == bytes[1]);
    }
    if p.len() > 2 {
        assert(p[2] == bytes[2]);
    }
    if p.len() > 3 {
        assert(p[3] == bytes[3]);
    }
    let n = length_of_first_scalar(bytes);
    assert(pop_first_scalar(p) =~= pop_first_scalar(bytes).take(j - n));
}

/// The bytes up to [`valid_len`] are text, and no more are.
pub proof fn lemma_valid_len(bytes: Seq<u8>)
    ensures
        valid_len(bytes) <= bytes.len(),
        valid_utf8(bytes.take(valid_len(bytes) as int)),
        forall|j: int|
            valid_len(bytes) < j <= bytes.len() ==> !valid_utf8(#[trigger] bytes.take(j)),
    decreases bytes.len(),
{
    if bytes.len() > 0 && valid_first_scalar(bytes) {
        let n = length_of_first_scalar(bytes);
        let rest = pop_first_scalar(bytes);
        lemma_valid_len(rest);
        lemma_first_scalar_extends(bytes, valid_len(bytes) as int);
        assert forall|j: int| valid_len(bytes) < j <= bytes.len() implies !valid_utf8(
            #[trigger] bytes.take(j),
        ) by {
            if valid_utf8(bytes.take(j)) {
                lemma_first_scalar_of_prefix(bytes, j);
                assert(valid_utf8(rest.take(j - n)));
            }
        }
    } else {
        assert(bytes.take(0) =~= Seq::empty());
        assert forall|j: int| 0 < j <= bytes.len() implies !valid_utf8(#[trigger] bytes.take(j)) by {
            if valid_utf8(bytes.take(j)) {
                lemma_first_scalar_of_prefix(bytes, j);
            }
        }
    }
}

/// How many bytes at the start are complete characters.
pub fn valid_utf8_prefix_len(buf: &[u8]) -> (r: usize)
    ensures
        r == valid_len(buf@),
        r <= buf@.len(),
{
    let n: usize = valid_up_to(buf);
    proof {
        lemma_valid_len(buf@);
        if n < valid_len(buf@) {
            assert(!valid_utf8(buf@.take(valid_len(buf@) as int)));
        }
        if n > valid_len(buf@) {
            assert(!valid_utf8(buf@.take(n as int)));
        }
    }
    n
}

/// What is complete in bytes that come in two pieces is what is complete in the
/// first, followed by what is complete in the rest of it and the second.
pub proof fn lemma_valid_text_in_pieces(a: Seq<u8>, b: Seq<u8>)
    ensures
        ({
            let n = valid_len(a) as int;
            let rest = a.skip(n) + b;
            &&& n <= a.len()
            &&& valid_len(a + b) == n + valid_len(rest)
            &&& valid_text(a + b) == valid_text(a) + valid_text(rest)
            &&& (a + b).skip(valid_len(a + b) as int) == rest.skip(valid_len(rest) as int)
        }),
    decreases a.len(),
{
    lemma_valid_len(a);
    let n = valid_len(a) as int;
    let rest = a.skip(n) + b;
    let whole = a + b;
    lemma_valid_len(whole);
    lemma_valid_len(rest);
    if a.len() > 0 && valid_first_scalar(a) {
        let k = length_of_first_scalar(a);
        assert(whole.take(a.len() as int) =~= a);
        lemma_first_scalar_of_prefix(whole, a.len() as int);
        let tail = pop_first_scalar(a);
        assert(pop_first_scalar(whole) =~= tail + b);
        lemma_valid_text_in_pieces(tail, b);
        assert(tail.skip(valid_len(tail) as int) =~= a.skip(n));
        // the first character of the prefixes
        let pw = whole.take(valid_len(whole) as int);
        let pa = a.take(n);
        lemma_first_scalar_extends(whole, valid_len(whole) as int);
        lemma_first_scalar_extends(a, n);
        assert(decode_first_scalar(pw) == decode_first_scalar(pa)) by {
            assert(pw[0] == a[0]);
            assert(pa[0] == a[0]);
            if k > 1 {
                assert(pw[1] == a[1]);
                assert(pa[1] == a[1]);
            }
            if k > 2 {
                assert(pw[2] == a[2]);
                assert(pa[2] == a[2]);
            }
            if k > 3 {
                assert(pw[3] == a[3]);
                assert(pa[3] == a[3]);
            }
        }
        assert(valid_text(whole) =~= valid_text(a) + valid_text(rest));
        assert(whole.skip(valid_len(whole) as int) =~= rest.skip(valid_len(rest) as int));
    } else {
        assert(a.skip(0) =~= a);
        assert(a.take(0) =~= Seq::empty());
        assert(valid_text(a) =~= Seq::empty());
        assert(valid_text(whole) =~= valid_text(a) + valid_text(rest));
    }
}

} // verus!
