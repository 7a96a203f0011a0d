//! Texts cut into pieces of a few tokens.
use vstd::prelude::*;
use vstd::utf8::*;
use crate::random::random_between;
use crate::views;

verus! {

broadcast use crate::views::group_views;

/// Where a cut falls: `tokens` tokens of four bytes behind `from`, or the end.
pub open spec fn cut(len: int, from: int, tokens: int) -> int {
    if from + 4 * tokens < len {
        from + 4 * tokens
    } else {
        len
    }
}

/// Whether every cut falls between two characters, whatever sizes are drawn.
pub open spec fn cuts_fall_between(bytes: Seq<u8>, from: int, min: int, max: int) -> bool
    decreases bytes.len() - from,
{
    if min < 1 || from < 0 || from >= bytes.len() {
        true
    } else {
        forall|tokens: int|
            min <= tokens <= max ==> {
                let to = #[trigger] cut(bytes.len() as int, from, tokens);
                is_char_boundary(bytes, to) && cuts_fall_between(bytes, to, min, max)
            }
    }
}

/// The texts one after the other.
pub open spec fn concatenated(pieces: Seq<Seq<char>>) -> Seq<char>
    decreases pieces.len(),
{
    if pieces.len() == 0 {
        Seq::empty()
    } else {
        concatenated(pieces.drop_last()) + pieces.last()
    }
}

/// Whether pieces are of the sizes that can be drawn: but for the last, which may
/// be shorter, each has four bytes for every token.
pub open spec fn are_sized(pieces: Seq<Seq<char>>, min: int, max: int) -> bool {
    forall|i: int|
        0 <= i < pieces.len() ==> {
            let n = encode_utf8(#[trigger] pieces[i]).len();
            if i < pieces.len() - 1 {
                exists|tokens: int| min <= tokens <= max && n == #[trigger] bytes_for(tokens)
            } else {
                n <= 4 * max
            }
        }
}

/// The bytes of a number of tokens.
pub open spec fn bytes_for(tokens: int) -> int {
    4 * tokens
}

/// What the pieces of a text are.
pub open spec fn is_split(pieces: Seq<Seq<char>>, text: Seq<char>, min: int, max: int) -> bool {
    &&& concatenated(pieces) == text
    &&& pieces.len() >= 1
    &&& are_sized(pieces, min, max)
    &&& text.len() == 0 ==> pieces == seq![Seq::<char>::empty()]
    &&& text.len() > 0 ==> forall|i: int|
        0 <= i < pieces.len() ==> (#[trigger] pieces[i]).len() > 0
}

proof fn lemma_decoded_split(bytes: Seq<u8>, index: int)
    requires
        valid_utf8(bytes),
        is_char_boundary(bytes, index),
        0 <= index <= bytes.len(),
    ensures
        valid_utf8(bytes.subrange(0, index)),
        valid_utf8(bytes.subrange(index, bytes.len() as int)),
        decode_utf8(bytes) == decode_utf8(bytes.subrange(0, index)) + decode_utf8(
            bytes.subrange(index, bytes.len() as int),
        ),
{
    valid_utf8_split(bytes, index);
    decode_utf8_split(bytes, index);
}

/// Cutting at a later place of the whole is cutting in the rest.
proof fn lemma_boundary_in_rest(bytes: Seq<u8>, from: int, to: int)
    requires
        valid_utf8(bytes),
        0 <= from <= to <= bytes.len(),
        is_char_boundary(bytes, from),
        is_char_boundary(bytes, to),
    ensures
        is_char_boundary(bytes.subrange(from, bytes.len() as int), to - from),
    decreases bytes.len(),
{
    let rest = bytes.subrange(from, bytes.len() as int);
    if from == 0 {
        assert(rest =~= bytes);
    } else {
        // both places are behind the first character
        reveal_with_fuel(is_char_boundary, 2);
        let n = length_of_first_scalar(bytes);
        let tail = pop_first_scalar(bytes);
        assert(bytes.subrange(from, bytes.len() as int) =~= tail.subrange(
            from - n,
            tail.len() as int,
        ));
        lemma_boundary_in_rest(tail, from - n, to - n);
    }
}

/// The pieces of the bytes behind `from`, each of the next size: none where a cut parts a
/// character. Where the sizes run out, the rest is one piece.
pub open spec fn cut_at_sizes(bytes: Seq<u8>, from: int, sizes: Seq<usize>) -> Option<
    Seq<Seq<char>>,
>
    decreases sizes.len(),
{
    if from >= bytes.len() {
        Some(Seq::empty())
    } else if sizes.len() == 0 {
        Some(seq![decode_utf8(bytes.subrange(from, bytes.len() as int))])
    } else {
        let to = cut(bytes.len() as int, from, sizes[0] as int);
        if !is_char_boundary(bytes, to) {
            None
        } else {
            match cut_at_sizes(bytes, to, sizes.skip(1)) {
                Some(rest) => Some(seq![decode_utf8(bytes.subrange(from, to))] + rest),
                None => None,
            }
        }
    }
}

/// The pieces of a text; an empty one is a piece of its own.
pub open spec fn pieces_at_sizes(text: Seq<char>, sizes: Seq<usize>) -> Option<Seq<Seq<char>>> {
    if text.len() == 0 {
        Some(seq![Seq::<char>::empty()])
    } else {
        cut_at_sizes(encode_utf8(text), 0, sizes)
    }
}

/// Whether sizes can be drawn for a text, and there are enough of them.
pub open spec fn are_draws(sizes: Seq<usize>, text: Seq<char>, min: int, max: int) -> bool {
    &&& forall|i: int| 0 <= i < sizes.len() ==> min <= #[trigger] sizes[i] <= max
    &&& encode_utf8(text).len() <= 4 * min * sizes.len()
}

/// Cuts a text into pieces of given sizes in tokens; none where a cut parts a character.
pub fn split_at_sizes(text: &str, sizes: &Vec<usize>) -> (r: Option<Vec<String>>)
    requires
        forall|i: int| 0 <= i < sizes@.len() ==> 1 <= #[trigger] sizes@[i] && 4 * sizes@[i]
            <= usize::MAX,
    ensures
        match r {
            Some(p) => pieces_at_sizes(text@, sizes@) == Some(views::all(p@)),
            None => pieces_at_sizes(text@, sizes@) is None,
        },
{
    let mut out: Vec<String> = Vec::new();
    if text.is_empty() {
        out.push(String::new());
        assert(views::all(out@) =~= seq![Seq::<char>::empty()]);
        return Some(out);
    }
    let ghost bytes = encode_utf8(text@);
    let ghost goal = cut_at_sizes(bytes, 0, sizes@);
    proof {
        encode_utf8_valid_utf8(text@);
        encode_utf8_decode_utf8(text@);
        assert(bytes.subrange(0, bytes.len() as int) =~= bytes);
        is_char_boundary_start_end_of_seq(bytes);
        assert(sizes@.skip(0) =~= sizes@);
    }
    let len: usize = text.as_bytes().len();
    let mut rest: &str = text;
    let mut from: usize = 0;
    let mut k: usize = 0;
    proof {
        if let Some(p) = goal {
            assert(views::all(out@) + p =~= p);
        }
    }
    while from < len
        invariant
            forall|i: int|
                0 <= i < sizes@.len() ==> 1 <= #[trigger] sizes@[i] && 4 * sizes@[i] <= usize::MAX,
            bytes == encode_utf8(text@),
            valid_utf8(bytes),
            len == bytes.len(),
            from <= len,
            k <= sizes@.len(),
            is_char_boundary(bytes, from as int),
            is_char_boundary(bytes, len as int),
            encode_utf8(rest@) == bytes.subrange(from as int, len as int),
            goal == (match cut_at_sizes(bytes, from as int, sizes@.skip(k as int)) {
                Some(p) => Some(views::all(out@) + p),
                None => None,
            }),
            goal == pieces_at_sizes(text@, sizes@),
        decreases len - from,
    {
        let ghost before = views::all(out@);
        proof {
            encode_utf8_decode_utf8(rest@);
            encode_utf8_valid_utf8(rest@);
        }
        if k >= sizes.len() {
            out.push(rest.to_owned());
            assert(views::all(out@) =~= before + seq![rest@]);
            assert(goal == Some(views::all(out@)));
            return Some(out);
        }
        let size: usize = 4 * sizes[k];
        let ghost later = sizes@.skip(k as int).skip(1);
        assert(later =~= sizes@.skip(k + 1));
        assert(sizes@.skip(k as int)[0] == sizes@[k as int]);
        if size < len - from {
            let to: usize = from + size;
            assert(to == cut(len as int, from as int, sizes@[k as int] as int));
            if !text.is_char_boundary(to) {
                return None;
            }
            proof {
                lemma_boundary_in_rest(bytes, from as int, to as int);
                lemma_decoded_split(encode_utf8(rest@), size as int);
            }
            let (head, tail) = rest.split_at(size);
            proof {
                encode_utf8_decode_utf8(head@);
                encode_utf8_decode_utf8(tail@);
                assert(encode_utf8(tail@) =~= bytes.subrange(to as int, len as int));
                assert(encode_utf8(head@) =~= bytes.subrange(from as int, to as int));
            }
            out.push(head.to_owned());
            proof {
                assert(views::all(out@) =~= before + seq![head@]);
                if let Some(p) = cut_at_sizes(bytes, to as int, later) {
                    assert(views::all(out@) + p =~= before + (seq![head@] + p));
                }
            }
            rest = tail;
            from = to;
        } else {
            assert(len == cut(len as int, from as int, sizes@[k as int] as int));
            out.push(rest.to_owned());
            proof {
                assert(views::all(out@) =~= before + seq![rest@]);
                let none = Seq::<Seq<char>>::empty();
                assert(cut_at_sizes(bytes, len as int, later) == Some(none));
                assert(views::all(out@) + none =~= before + (seq![rest@] + none));
            }
            from = len;
            rest = "";
            proof {
                reveal_strlit("");
                assert(rest@ =~= Seq::<char>::empty());
                assert(encode_utf8(rest@) =~= bytes.subrange(len as int, len as int));
            }
        }
        k = k + 1;
    }
    proof {
        assert(views::all(out@) + Seq::<Seq<char>>::empty() =~= views::all(out@));
    }
    Some(out)
}

proof fn lemma_concatenated_first(first: Seq<char>, rest: Seq<Seq<char>>)
    ensures
        concatenated(seq![first] + rest) == first + concatenated(rest),
    decreases rest.len(),
{
    let all = seq![first] + rest;
    if rest.len() == 0 {
        assert(all.drop_last() =~= Seq::<Seq<char>>::empty());
        assert(concatenated(all.drop_last()) =~= Seq::<char>::empty());
        assert(concatenated(all) =~= first + concatenated(rest));
    } else {
        assert(all.drop_last() =~= seq![first] + rest.drop_last());
        lemma_concatenated_first(first, rest.drop_last());
        assert(concatenated(all) =~= first + concatenated(rest));
    }
}

proof fn lemma_enough_left(len: int, from: int, min: int, n: int, to: int)
    by (nonlinear_arith)
    requires
        n >= 1,
        len - from <= 4 * min * n,
        to >= from + 4 * min || to >= len,
    ensures
        to >= len || len - to <= 4 * min * (n - 1),
{
}

/// What is cut at drawn sizes is cut right.
proof fn lemma_cut_is_split(bytes: Seq<u8>, from: int, sizes: Seq<usize>, min: int, max: int)
    requires
        valid_utf8(bytes),
        1 <= min <= max,
        0 <= from < bytes.len(),
        is_char_boundary(bytes, from),
        forall|i: int| 0 <= i < sizes.len() ==> min <= #[trigger] sizes[i] <= max,
        bytes.len() - from <= 4 * min * sizes.len(),
        cut_at_sizes(bytes, from, sizes) is Some,
    ensures
        ({
            let p = cut_at_sizes(bytes, from, sizes)->0;
            &&& p.len() >= 1
            &&& concatenated(p) == decode_utf8(bytes.subrange(from, bytes.len() as int))
            &&& are_sized(p, min, max)
            &&& forall|i: int| 0 <= i < p.len() ==> (#[trigger] p[i]).len() > 0
        }),
    decreases sizes.len(),
{
    let len = bytes.len() as int;
    if sizes.len() == 0 {
        assert(4 * min * 0 == 0) by (nonlinear_arith);
    } else {
        let to = cut(len, from, sizes[0] as int);
        let later = sizes.skip(1);
        let rest = cut_at_sizes(bytes, to, later)->0;
        let tail = bytes.subrange(from, len);
        let first = decode_utf8(bytes.subrange(from, to));
        let p = cut_at_sizes(bytes, from, sizes)->0;
        assert(p == seq![first] + rest);
        valid_utf8_split(bytes, from);
        lemma_boundary_in_rest(bytes, from, to);
        lemma_decoded_split(tail, to - from);
        assert(tail.subrange(0, to - from) =~= bytes.subrange(from, to));
        assert(tail.subrange(to - from, tail.len() as int) =~= bytes.subrange(to, len));
        lemma_concatenated_first(first, rest);
        decode_utf8_encode_utf8(bytes.subrange(from, to));
        assert(encode_utf8(first) == bytes.subrange(from, to));
        assert(first.len() > 0) by {
            if first.len() == 0 {
                assert(encode_utf8(first).len() == 0);
            }
        }
        if to < len {
            assert(4 * min * sizes.len() == 4 * min * (later.len() + 1));
            lemma_enough_left(len, from, min, sizes.len() as int, to);
            assert forall|i: int| 0 <= i < later.len() implies min <= #[trigger] later[i] <= max by {
                assert(later[i] == sizes[i + 1]);
            }
            lemma_cut_is_split(bytes, to, later, min, max);
        } else {
            assert(rest =~= Seq::<Seq<char>>::empty());
            assert(bytes.subrange(to, len) =~= Seq::<u8>::empty());
            assert(decode_utf8(bytes.subrange(to, len)) =~= Seq::<char>::empty());
            assert(concatenated(rest) =~= Seq::<char>::empty());
        }
        assert(are_sized(p, min, max)) by {
            assert forall|i: int| 0 <= i < p.len() implies {
                let n = encode_utf8(#[trigger] p[i]).len();
                if i < p.len() - 1 {
                    exists|tokens: int| min <= tokens <= max && n == #[trigger] bytes_for(tokens)
                } else {
                    n <= 4 * max
                }
            } by {
                if i == 0 {
                    if 0 < p.len() - 1 {
                        assert(to < len);
                        assert(encode_utf8(p[0]).len() == bytes_for(sizes[0] as int));
                    }
                } else {
                    assert(p[i] == rest[i - 1]);
                }
            }
        }
        assert forall|i: int| 0 <= i < p.len() implies (#[trigger] p[i]).len() > 0 by {
            if i > 0 {
                assert(p[i] == rest[i - 1]);
            }
        }
    }
}

/// Pieces of drawn sizes are pieces of the text.
pub proof fn law_pieces_are_the_text(text: Seq<char>, sizes: Seq<usize>, min: int, max: int)
    requires
        1 <= min <= max,
        are_draws(sizes, text, min, max),
        pieces_at_sizes(text, sizes) is Some,
    ensures
        is_split(pieces_at_sizes(text, sizes)->0, text, min, max),
{
    let p = pieces_at_sizes(text, sizes)->0;
    if text.len() == 0 {
        reveal_with_fuel(concatenated, 2);
        assert(p.drop_last() =~= Seq::<Seq<char>>::empty());
        assert(concatenated(p) =~= text);
        assert(encode_utf8(p[0]).len() == 0);
    } else {
        let bytes = encode_utf8(text);
        encode_utf8_valid_utf8(text);
        encode_utf8_decode_utf8(text);
        is_char_boundary_start_end_of_seq(bytes);
        assert(bytes.subrange(0, bytes.len() as int) =~= bytes);
        assert(bytes.len() > 0) by {
            if bytes.len() == 0 {
                assert(decode_utf8(bytes) =~= Seq::empty());
            }
        }
        lemma_cut_is_split(bytes, 0, sizes, min, max);
    }
}

proof fn lemma_cuts_succeed(bytes: Seq<u8>, from: int, sizes: Seq<usize>, min: int, max: int)
    requires
        1 <= min <= max,
        0 <= from,
        forall|i: int| 0 <= i < sizes.len() ==> min <= #[trigger] sizes[i] <= max,
        cuts_fall_between(bytes, from, min, max),
    ensures
        cut_at_sizes(bytes, from, sizes) is Some,
    decreases sizes.len(),
{
    if from < bytes.len() && sizes.len() > 0 {
        let to = cut(bytes.len() as int, from, sizes[0] as int);
        assert(is_char_boundary(bytes, to) && cuts_fall_between(bytes, to, min, max));
        assert forall|i: int| 0 <= i < sizes.skip(1).len() implies min <= #[trigger] sizes.skip(1)[i]
            <= max by {
            assert(sizes.skip(1)[i] == sizes[i + 1]);
        }
        lemma_cuts_succeed(bytes, to, sizes.skip(1), min, max);
    }
}

/// A text of which no cut can part a character is cut, whatever sizes are drawn.
pub proof fn law_sound_cuts_succeed(text: Seq<char>, sizes: Seq<usize>, min: int, max: int)
    requires
        1 <= min <= max,
        are_draws(sizes, text, min, max),
        cuts_fall_between(encode_utf8(text), 0, min, max),
    ensures
        pieces_at_sizes(text, sizes) is Some,
{
    lemma_cuts_succeed(encode_utf8(text), 0, sizes, min, max);
}

/// Draws the sizes of the pieces of a text, as many as it can need.
pub fn draw_sizes(text: &str, min: usize, max: usize) -> (r: Vec<usize>)
    requires
        1 <= min <= max,
        4 * max <= usize::MAX,
    ensures
        are_draws(r@, text@, min as int, max as int),
{
    let len: usize = text.as_bytes().len();
    let mut covered: usize = 0;
    let mut out: Vec<usize> = Vec::new();
    while covered < len
        invariant
            1 <= min <= max,
            4 * max <= usize::MAX,
            len == encode_utf8(text@).len(),
            covered <= len,
            covered <= 4 * min * out@.len(),
            forall|i: int| 0 <= i < out@.len() ==> min <= #[trigger] out@[i] <= max,
        decreases len - covered,
    {
        let tokens: usize = if min == max {
            min
        } else {
            random_between(min as u64, max as u64) as usize
        };
        let ghost n = out@.len() as int;
        out.push(tokens);
        assert(4 * min * (n + 1) == 4 * min * n + 4 * min) by (nonlinear_arith);
        if 4 * min < len - covered {
            covered = covered + 4 * min;
        } else {
            covered = len;
        }
    }
    out
}

/// Cuts a text into pieces of `min` to `max` tokens, each size drawn at random; none
/// where a drawn cut parts a character.
pub fn split_by_token_size(text: &str, min: usize, max: usize) -> (r: Option<Vec<String>>)
    requires
        1 <= min <= max,
        4 * max <= usize::MAX,
    ensures
        exists|sizes: Seq<usize>| #[trigger]
            are_draws(sizes, text@, min as int, max as int) && match r {
                Some(p) => pieces_at_sizes(text@, sizes) == Some(views::all(p@)),
                None => pieces_at_sizes(text@, sizes) is None,
            },
        r is Some ==> is_split(views::all(r->0@), text@, min as int, max as int),
        cuts_fall_between(encode_utf8(text@), 0, min as int, max as int) ==> r is Some,
{
    let sizes: Vec<usize> = draw_sizes(text, min, max);
    let r: Option<Vec<String>> = split_at_sizes(text, &sizes);
    proof {
        assert(are_draws(sizes@, text@, min as int, max as int));
        if r is Some {
            law_pieces_are_the_text(text@, sizes@, min as int, max as int);
        }
        if cuts_fall_between(encode_utf8(text@), 0, min as int, max as int) {
            law_sound_cuts_succeed(text@, sizes@, min as int, max as int);
        }
    }
    r
}

proof fn lemma_ascii_boundary(bytes: Seq<u8>, index: int)
    requires
        valid_utf8(bytes),
        forall|i: int| 0 <= i < bytes.len() ==> #[trigger] bytes[i] < 128,
        0 <= index <= bytes.len(),
    ensures
        is_char_boundary(bytes, index),
    decreases index,
{
    if index > 0 {
        assert(bytes[0] < 128);
        assert(length_of_first_scalar(bytes) == 1);
        lemma_ascii_boundary(pop_first_scalar(bytes), index - 1);
    }
}

proof fn lemma_ascii_cuts(bytes: Seq<u8>, from: int, min: int, max: int)
    requires
        valid_utf8(bytes),
        forall|i: int| 0 <= i < bytes.len() ==> #[trigger] bytes[i] < 128,
    ensures
        cuts_fall_between(bytes, from, min, max),
    decreases bytes.len() - from,
{
    if min >= 1 && 0 <= from < bytes.len() {
        assert forall|tokens: int| min <= tokens <= max implies {
            let to = #[trigger] cut(bytes.len() as int, from, tokens);
            is_char_boundary(bytes, to) && cuts_fall_between(bytes, to, min, max)
        } by {
            let to = cut(bytes.len() as int, from, tokens);
            lemma_ascii_boundary(bytes, to);
            lemma_ascii_cuts(bytes, to, min, max);
        }
    }
}

/// A text of ASCII characters can be cut whatever sizes are drawn.
pub proof fn law_ascii_can_split(text: Seq<char>, min: int, max: int)
    requires
        is_ascii_chars(text),
    ensures
        cuts_fall_between(encode_utf8(text), 0, min, max),
{
    let bytes = encode_utf8(text);
    encode_utf8_valid_utf8(text);
    is_ascii_chars_encode_utf8(text);
    assert forall|i: int| 0 <= i < bytes.len() implies #[trigger] bytes[i] < 128 by {
        assert(bytes[i] == text[i] as u8);
        assert(text[i] as u32 <= 127);
    }
    lemma_ascii_cuts(bytes, 0, min, max);
}

} // verus!
