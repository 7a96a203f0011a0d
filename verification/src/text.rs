//! Text as a sequence of characters: the operations on `&str` and `String`
//! that the rest of the library is built on, each with its meaning over
//! `Seq<char>`.
use vstd::prelude::*;
use vstd::utf8::*;

verus! {

/// `String::push` adds one character at the end and keeps what was there.
pub assume_specification[ String::push ](s: &mut String, c: char)
    ensures
        final(s)@ == old(s)@.push(c),
;

/// Whether two texts hold the same characters.
pub fn same_text(a: &str, b: &str) -> (r: bool)
    ensures
        r == (a@ == b@),
{
    let x: &[u8] = a.as_bytes();
    let y: &[u8] = b.as_bytes();
    proof {
        encode_utf8_decode_utf8(a@);
        encode_utf8_decode_utf8(b@);
    }
    if x.len() != y.len() {
        return false;
    }
    let mut i: usize = 0;
    while i < x.len()
        invariant
            x@ == encode_utf8(a@),
            y@ == encode_utf8(b@),
            x@.len() == y@.len(),
            i <= x@.len(),
            x@.take(i as int) == y@.take(i as int),
        decreases x@.len() - i,
    {
        if x[i] != y[i] {
            return false;
        }
        assert(x@.take(i + 1) == x@.take(i as int).push(x@[i as int]));
        assert(y@.take(i + 1) == y@.take(i as int).push(y@[i as int]));
        i = i + 1;
    }
    assert(x@.take(i as int) == x@);
    assert(y@.take(i as int) == y@);
    true
}

/// The characters of a text.
pub fn chars_of(s: &str) -> (r: Vec<char>)
    ensures
        r@ == s@,
{
    let mut out: Vec<char> = Vec::new();
    for c in it: s.chars()
        invariant
            it.seq() == s@,
            out@ == s@.take(it.index() as int),
    {
        out.push(c);
        assert(s@.take(it.index() + 1) == s@.take(it.index() as int).push(c));
    }
    assert(s@.take(s@.len() as int) == s@);
    out
}

/// The text made of the characters of `chars` from `from` up to `to`.
pub fn text_range(chars: &Vec<char>, from: usize, to: usize) -> (r: String)
    requires
        from <= to <= chars@.len(),
    ensures
        r@ == chars@.subrange(from as int, to as int),
{
    let mut out: String = String::new();
    let mut i: usize = from;
    while i < to
        invariant
            from <= i <= to <= chars@.len(),
            out@ == chars@.subrange(from as int, i as int),
        decreases to - i,
    {
        out.push(chars[i]);
        assert(chars@.subrange(from as int, i + 1) == chars@.subrange(from as int, i as int).push(chars@[i as int]));
        i = i + 1;
    }
    out
}


/// Lexicographic order of texts by code point.
pub open spec fn text_le(a: Seq<char>, b: Seq<char>) -> bool
    decreases a.len(),
{
    if a.len() == 0 {
        true
    } else if b.len() == 0 {
        false
    } else if a[0] == b[0] {
        text_le(a.drop_first(), b.drop_first())
    } else {
        (a[0] as int) < (b[0] as int)
    }
}

pub proof fn lemma_text_le_total(a: Seq<char>, b: Seq<char>)
    ensures
        text_le(a, b) || text_le(b, a),
    decreases a.len(),
{
    if a.len() > 0 && b.len() > 0 && a[0] == b[0] {
        lemma_text_le_total(a.drop_first(), b.drop_first());
    }
}

pub proof fn lemma_text_le_antisymmetric(a: Seq<char>, b: Seq<char>)
    requires
        text_le(a, b),
        text_le(b, a),
    ensures
        a == b,
    decreases a.len(),
{
    if a.len() > 0 && b.len() > 0 {
        lemma_text_le_antisymmetric(a.drop_first(), b.drop_first());
        assert(a =~= seq![a[0]] + a.drop_first());
        assert(b =~= seq![b[0]] + b.drop_first());
    } else {
        assert(a =~= b);
    }
}

pub proof fn lemma_text_le_transitive(a: Seq<char>, b: Seq<char>, c: Seq<char>)
    requires
        text_le(a, b),
        text_le(b, c),
    ensures
        text_le(a, c),
    decreases a.len(),
{
    if a.len() > 0 && b.len() > 0 && c.len() > 0 && a[0] == b[0] && b[0] == c[0] {
        lemma_text_le_transitive(a.drop_first(), b.drop_first(), c.drop_first());
    }
}

/// The code point of a character.
pub fn code_point(c: char) -> (r: u32)
    ensures
        r as int == c as int,
{
    c as u32
}

/// Whether `a` stands at or before `b` in the order of texts.
pub fn text_at_most(a: &str, b: &str) -> (r: bool)
    ensures
        r == text_le(a@, b@),
{
    let x: Vec<char> = chars_of(a);
    let y: Vec<char> = chars_of(b);
    let mut i: usize = 0;
    assert(a@.skip(0) =~= a@);
    assert(b@.skip(0) =~= b@);
    while i < x.len()
        invariant
            x@ == a@,
            y@ == b@,
            i <= x@.len(),
            i <= y@.len(),
            text_le(a@, b@) == text_le(a@.skip(i as int), b@.skip(i as int)),
        decreases x@.len() - i,
    {
        if i == y.len() {
            return false;
        }
        let c: char = x[i];
        let d: char = y[i];
        if c != d {
            return code_point(c) < code_point(d);
        }
        assert(a@.skip(i as int).drop_first() =~= a@.skip(i + 1));
        assert(b@.skip(i as int).drop_first() =~= b@.skip(i + 1));
        i = i + 1;
    }
    true
}


/// The character of a decimal digit.
pub open spec fn digit_char(d: nat) -> char {
    (('0' as int) + d) as char
}

/// A natural number in decimal notation.
pub open spec fn decimal_text(n: nat) -> Seq<char>
    decreases n,
{
    if n < 10 {
        seq![digit_char(n)]
    } else {
        decimal_text(n / 10).push(digit_char(n % 10))
    }
}

fn digit(d: u64) -> (r: char)
    requires
        d < 10,
    ensures
        r == digit_char(d as nat),
{
    if d == 0 {
        '0'
    } else if d == 1 {
        '1'
    } else if d == 2 {
        '2'
    } else if d == 3 {
        '3'
    } else if d == 4 {
        '4'
    } else if d == 5 {
        '5'
    } else if d == 6 {
        '6'
    } else if d == 7 {
        '7'
    } else if d == 8 {
        '8'
    } else {
        '9'
    }
}

/// Writes a number in decimal notation.
pub fn decimal(n: u64) -> (r: String)
    ensures
        r@ == decimal_text(n as nat),
    decreases n,
{
    let mut out: String = if n < 10 {
        String::new()
    } else {
        decimal(n / 10)
    };
    out.push(digit(n % 10));
    assert(n < 10 ==> out@ =~= decimal_text(n as nat));
    out
}


/// The text made of all the characters of `chars`.
pub fn text_of(chars: &Vec<char>) -> (r: String)
    ensures
        r@ == chars@,
{
    let r: String = text_range(chars, 0, chars.len());
    assert(chars@.subrange(0, chars@.len() as int) =~= chars@);
    r
}

/// `a` followed by `b`.
pub fn concat(a: &str, b: &str) -> (r: String)
    ensures
        r@ == a@ + b@,
{
    let mut out: String = a.to_owned();
    out.append(b);
    out
}

/// `a`, `b` and `c`, one after the other.
pub fn concat3(a: &str, b: &str, c: &str) -> (r: String)
    ensures
        r@ == a@ + b@ + c@,
{
    let mut out: String = a.to_owned();
    out.append(b);
    out.append(c);
    out
}

/// Whether `s` begins with `prefix`.
pub open spec fn begins(s: Seq<char>, prefix: Seq<char>) -> bool {
    prefix.len() <= s.len() && s.take(prefix.len() as int) == prefix
}

/// Whether `s` ends with `suffix`.
pub open spec fn ends(s: Seq<char>, suffix: Seq<char>) -> bool {
    suffix.len() <= s.len() && s.skip(s.len() - suffix.len()) == suffix
}

/// Whether `part` stands in `s` at position `i`.
pub open spec fn stands_at(s: Seq<char>, part: Seq<char>, i: int) -> bool {
    0 <= i && i + part.len() <= s.len() && s.subrange(i, i + part.len()) == part
}

/// Whether `part` stands anywhere in `s`.
pub open spec fn holds(s: Seq<char>, part: Seq<char>) -> bool {
    exists|i: int| stands_at(s, part, i)
}

/// Whether `part` stands in `s` at position `i`.
fn stands_at_exec(s: &Vec<char>, part: &Vec<char>, i: usize) -> (r: bool)
    ensures
        r == stands_at(s@, part@, i as int),
{
    if part.len() > s.len() || i > s.len() - part.len() {
        return false;
    }
    let mut k: usize = 0;
    while k < part.len()
        invariant
            k <= part@.len(),
            i + part.len() <= s.len(),
            forall|j: int| 0 <= j < k ==> s@[i + j] == part@[j],
        decreases part@.len() - k,
    {
        if s[i + k] != part[k] {
            assert(s@.subrange(i as int, i + part@.len())[k as int] == s@[i + k]);
            return false;
        }
        k = k + 1;
    }
    assert(s@.subrange(i as int, i + part@.len()) =~= part@);
    true
}

pub fn starts_with(s: &str, prefix: &str) -> (r: bool)
    ensures
        r == begins(s@, prefix@),
{
    let x: Vec<char> = chars_of(s);
    let y: Vec<char> = chars_of(prefix);
    let r: bool = stands_at_exec(&x, &y, 0);
    assert(y@.len() <= x@.len() ==> x@.subrange(0, y@.len() as int) =~= x@.take(y@.len() as int));
    r
}

pub fn ends_with(s: &str, suffix: &str) -> (r: bool)
    ensures
        r == ends(s@, suffix@),
{
    let x: Vec<char> = chars_of(s);
    let y: Vec<char> = chars_of(suffix);
    if y.len() > x.len() {
        return false;
    }
    let at: usize = x.len() - y.len();
    let r: bool = stands_at_exec(&x, &y, at);
    assert(x@.subrange(at as int, at + y@.len()) =~= x@.skip(at as int));
    r
}

/// What follows `prefix`, where `s` begins with it.
pub open spec fn after_prefix(s: Seq<char>, prefix: Seq<char>) -> Option<Seq<char>> {
    if begins(s, prefix) {
        Some(s.skip(prefix.len() as int))
    } else {
        None
    }
}

pub fn strip_prefix(s: &str, prefix: &str) -> (r: Option<String>)
    ensures
        crate::views::opt(r) == after_prefix(s@, prefix@),
{
    if starts_with(s, prefix) {
        let x: Vec<char> = chars_of(s);
        let n: usize = chars_of(prefix).len();
        let rest: String = text_range(&x, n, x.len());
        assert(x@.subrange(n as int, x@.len() as int) =~= x@.skip(n as int));
        Some(rest)
    } else {
        None
    }
}

/// A text without the beginnings `prefix`, however often it has them.
pub open spec fn without_beginnings(s: Seq<char>, prefix: Seq<char>) -> Seq<char>
    decreases s.len(),
{
    if prefix.len() > 0 && begins(s, prefix) {
        without_beginnings(s.skip(prefix.len() as int), prefix)
    } else {
        s
    }
}

pub fn trim_beginnings(s: &str, prefix: &str) -> (r: String)
    requires
        prefix@.len() > 0,
    ensures
        r@ == without_beginnings(s@, prefix@),
    decreases s@.len(),
{
    match strip_prefix(s, prefix) {
        Some(rest) => trim_beginnings(rest.as_str(), prefix),
        None => s.to_owned(),
    }
}

pub fn contains(s: &str, part: &str) -> (r: bool)
    ensures
        r == holds(s@, part@),
{
    let x: Vec<char> = chars_of(s);
    let y: Vec<char> = chars_of(part);
    let mut i: usize = 0;
    if y.len() > x.len() {
        return false;
    }
    let last: usize = x.len() - y.len();
    while i <= last
        invariant
            x@ == s@,
            y@ == part@,
            last + y@.len() == x@.len(),
            i <= last + 1,
            forall|j: int| 0 <= j < i ==> !#[trigger] stands_at(s@, part@, j),
        decreases last + 1 - i,
    {
        if stands_at_exec(&x, &y, i) {
            return true;
        }
        if i == last {
            assert forall|j: int| !#[trigger] stands_at(s@, part@, j) by {}
            return false;
        }
        i = i + 1;
    }
    false
}

/// Where `c` first stands in `s`; the length of `s` where it does not.
pub open spec fn find_char(s: Seq<char>, c: char) -> nat
    decreases s.len(),
{
    if s.len() == 0 || s[0] == c {
        0
    } else {
        1 + find_char(s.drop_first(), c)
    }
}

pub proof fn lemma_find_char(s: Seq<char>, c: char)
    ensures
        find_char(s, c) <= s.len(),
        find_char(s, c) < s.len() ==> s[find_char(s, c) as int] == c,
        forall|j: int| 0 <= j < find_char(s, c) ==> s[j] != c,
    decreases s.len(),
{
    if s.len() > 0 && s[0] != c {
        lemma_find_char(s.drop_first(), c);
        assert forall|j: int| 0 <= j < find_char(s, c) implies s[j] != c by {
            if j > 0 {
                assert(s.drop_first()[j - 1] == s[j]);
            }
        }
    }
}

/// [`find_char`] is the only position with `c` there and not before.
pub proof fn lemma_find_char_is(s: Seq<char>, c: char, n: int)
    requires
        0 <= n <= s.len(),
        n < s.len() ==> s[n] == c,
        forall|j: int| 0 <= j < n ==> s[j] != c,
    ensures
        find_char(s, c) == n,
{
    lemma_find_char(s, c);
}

pub fn find_char_from(s: &Vec<char>, from: usize, c: char) -> (r: usize)
    requires
        from <= s@.len(),
    ensures
        r == from + find_char(s@.skip(from as int), c),
        from <= r <= s@.len(),
{
    let mut i: usize = from;
    while i < s.len()
        invariant_except_break
            from <= i <= s@.len(),
            forall|j: int| from <= j < i ==> s@[j] != c,
        ensures
            from <= i <= s@.len(),
            forall|j: int| from <= j < i ==> s@[j] != c,
            i < s@.len() ==> s@[i as int] == c,
        decreases s@.len() - i,
    {
        if s[i] == c {
            break;
        }
        i = i + 1;
    }
    proof {
        lemma_find_char_is(s@.skip(from as int), c, i - from);
    }
    i
}

/// The parts of `s` before and after the first `c`.
pub open spec fn split_once(s: Seq<char>, c: char) -> Option<(Seq<char>, Seq<char>)> {
    let n = find_char(s, c) as int;
    if n < s.len() {
        Some((s.take(n), s.skip(n + 1)))
    } else {
        None
    }
}

pub fn split_once_at(s: &str, c: char) -> (r: Option<(String, String)>)
    ensures
        match r {
            Some((a, b)) => split_once(s@, c) == Some((a@, b@)),
            None => split_once(s@, c) is None,
        },
{
    let x: Vec<char> = chars_of(s);
    let n: usize = find_char_from(&x, 0, c);
    assert(x@.skip(0) =~= x@);
    if n < x.len() {
        let a: String = text_range(&x, 0, n);
        let b: String = text_range(&x, n + 1, x.len());
        assert(a@ =~= s@.take(n as int));
        assert(b@ =~= s@.skip(n + 1));
        Some((a, b))
    } else {
        None
    }
}

/// The pieces of `s` between the occurrences of `c`, all of them.
pub open spec fn split(s: Seq<char>, c: char) -> Seq<Seq<char>>
    decreases s.len(),
{
    let n = find_char(s, c) as int;
    if 0 <= n < s.len() {
        seq![s.take(n)] + split(s.skip(n + 1), c)
    } else {
        seq![s]
    }
}

proof fn lemma_split_step(before: Seq<Seq<char>>, rest: Seq<char>, c: char, n: int)
    requires
        n == find_char(rest, c),
    ensures
        n == rest.len() ==> before.push(rest) == before + split(rest, c),
        n < rest.len() ==> before.push(rest.take(n)) + split(rest.skip(n + 1), c) == before + split(
            rest,
            c,
        ),
{
    lemma_find_char(rest, c);
    if n == rest.len() {
        assert(before.push(rest) =~= before + split(rest, c));
    } else {
        let tail = split(rest.skip(n + 1), c);
        assert(split(rest, c) == seq![rest.take(n)] + tail);
        assert(before.push(rest.take(n)) + tail =~= before + (seq![rest.take(n)] + tail));
    }
}

pub fn split_chars(x: &Vec<char>, c: char) -> (r: Vec<String>)
    ensures
        crate::views::all(r@) == split(x@, c),
{
    let mut out: Vec<String> = Vec::new();
    let mut from: usize = 0;
    assert(x@.skip(0) =~= x@);
    assert(crate::views::all(out@) + split(x@, c) =~= split(x@, c));
    loop
        invariant
            from <= x@.len(),
            crate::views::all(out@) + split(x@.skip(from as int), c) == split(x@, c),
        decreases x@.len() - from,
    {
        let n: usize = find_char_from(x, from, c);
        let piece: String = text_range(x, from, n);
        let ghost rest = x@.skip(from as int);
        let ghost before = crate::views::all(out@);
        assert(piece@ =~= rest.take(n - from));
        proof {
            lemma_split_step(before, rest, c, n - from);
            crate::views::lemma_all_push(out@, piece);
        }
        out.push(piece);
        if n == x.len() {
            assert(rest.take(n - from) =~= rest);
            return out;
        }
        assert(rest.skip(n - from + 1) =~= x@.skip(n + 1));
        from = n + 1;
    }
}

/// The pieces of a text between the occurrences of `c`.
pub fn split_at_char(s: &str, c: char) -> (r: Vec<String>)
    ensures
        crate::views::all(r@) == split(s@, c),
{
    let x: Vec<char> = chars_of(s);
    split_chars(&x, c)
}

/// `s` without the run of `c` at its end.
pub open spec fn trim_end_char(s: Seq<char>, c: char) -> Seq<char>
    decreases s.len(),
{
    if s.len() > 0 && s.last() == c {
        trim_end_char(s.drop_last(), c)
    } else {
        s
    }
}

pub fn trim_end_of(s: &str, c: char) -> (r: String)
    ensures
        r@ == trim_end_char(s@, c),
{
    let x: Vec<char> = chars_of(s);
    let mut n: usize = x.len();
    assert(x@.take(n as int) =~= x@);
    while n > 0 && x[n - 1] == c
        invariant
            n <= x@.len(),
            trim_end_char(x@.take(n as int), c) == trim_end_char(x@, c),
        decreases n,
    {
        assert(x@.take(n as int).drop_last() =~= x@.take(n - 1));
        n = n - 1;
    }
    let r: String = text_range(&x, 0, n);
    assert(r@ =~= x@.take(n as int));
    r
}

/// A character with the Unicode property `White_Space`.
pub open spec fn is_space(c: char) -> bool {
    let n = c as int;
    ||| 0x9 <= n <= 0xd
    ||| n == 0x20
    ||| n == 0x85
    ||| n == 0xa0
    ||| n == 0x1680
    ||| 0x2000 <= n <= 0x200a
    ||| n == 0x2028
    ||| n == 0x2029
    ||| n == 0x202f
    ||| n == 0x205f
    ||| n == 0x3000
}

/// `char::is_whitespace` tells the characters with the Unicode property
/// `White_Space`, whose list is that of [`is_space`].
pub assume_specification[ char::is_whitespace ](c: char) -> (r: bool)
    ensures
        r == is_space(c),
;

/// `s` without the white space at its start.
pub open spec fn trim_start(s: Seq<char>) -> Seq<char>
    decreases s.len(),
{
    if s.len() > 0 && is_space(s[0]) {
        trim_start(s.drop_first())
    } else {
        s
    }
}

/// `s` without the white space at its end.
pub open spec fn trim_end(s: Seq<char>) -> Seq<char>
    decreases s.len(),
{
    if s.len() > 0 && is_space(s.last()) {
        trim_end(s.drop_last())
    } else {
        s
    }
}

/// `s` without the white space at either end.
pub open spec fn trimmed(s: Seq<char>) -> Seq<char> {
    trim_end(trim_start(s))
}

pub fn trim(s: &str) -> (r: String)
    ensures
        r@ == trimmed(s@),
{
    let x: Vec<char> = chars_of(s);
    let mut a: usize = 0;
    assert(x@.skip(0) =~= x@);
    while a < x.len() && x[a].is_whitespace()
        invariant
            a <= x@.len(),
            trim_start(x@.skip(a as int)) == trim_start(x@),
        decreases x@.len() - a,
    {
        assert(x@.skip(a as int).drop_first() =~= x@.skip(a + 1));
        a = a + 1;
    }
    assert(trim_start(x@) == x@.skip(a as int));
    let mut b: usize = x.len();
    assert(x@.subrange(a as int, b as int) =~= x@.skip(a as int));
    while b > a && x[b - 1].is_whitespace()
        invariant
            a <= b <= x@.len(),
            trim_end(x@.subrange(a as int, b as int)) == trim_end(x@.skip(a as int)),
        decreases b,
    {
        assert(x@.subrange(a as int, b as int).drop_last() =~= x@.subrange(a as int, b - 1));
        b = b - 1;
    }
    text_range(&x, a, b)
}

/// The texts of `parts`, one after the other, with `sep` between them.
pub open spec fn joined(parts: Seq<Seq<char>>, sep: Seq<char>) -> Seq<char>
    decreases parts.len(),
{
    if parts.len() == 0 {
        Seq::empty()
    } else if parts.len() == 1 {
        parts[0]
    } else {
        joined(parts.drop_last(), sep) + sep + parts.last()
    }
}

/// One text joined is itself; more texts are joined by putting the separator and the last one
/// behind the others, so that every text is there whole and in order.
pub proof fn law_joined_texts_are_all_there(
    before: Seq<Seq<char>>,
    behind: Seq<Seq<char>>,
    sep: Seq<char>,
    one: Seq<char>,
)
    ensures
        joined(seq![one], sep) == one,
        joined(Seq::empty(), sep).len() == 0,
        before.len() > 0 && behind.len() > 0 ==> joined(before + behind, sep) == joined(before, sep)
            + sep + joined(behind, sep),
    decreases behind.len(),
{
    if before.len() > 0 && behind.len() > 0 {
        let whole = before + behind;
        assert(whole.drop_last() =~= before + behind.drop_last());
        if behind.len() == 1 {
            assert(before + behind.drop_last() =~= before);
        } else {
            law_joined_texts_are_all_there(before, behind.drop_last(), sep, one);
        }
        assert(joined(whole, sep) =~= joined(before, sep) + sep + joined(behind, sep));
    }
}

pub fn join(parts: &Vec<String>, sep: &str) -> (r: String)
    ensures
        r@ == joined(crate::views::all(parts@), sep@),
{
    let ghost all = crate::views::all(parts@);
    let mut out: String = String::new();
    let mut i: usize = 0;
    while i < parts.len()
        invariant
            i <= parts@.len(),
            all == crate::views::all(parts@),
            out@ == joined(all.take(i as int), sep@),
        decreases parts@.len() - i,
    {
        proof {
            crate::views::lemma_take_step(all, i as int);
        }
        if i > 0 {
            out.append(sep);
        }
        out.append(parts[i].as_str());
        assert(out@ =~= joined(all.take(i + 1), sep@));
        i = i + 1;
    }
    proof {
        crate::views::lemma_take_all(all);
    }
    out
}

/// What `str::to_lowercase` makes of a text: the Unicode lowercase mapping.
pub uninterp spec fn lowercase(s: Seq<char>) -> Seq<char>;

/// `str::to_lowercase` maps every character to its Unicode lowercase form.
pub assume_specification[ str::to_lowercase ](s: &str) -> (r: String)
    ensures
        r@ == lowercase(s@),
;

/// `s` with `from` replaced by `to` throughout.
pub open spec fn replaced(s: Seq<char>, from: char, to: char) -> Seq<char> {
    Seq::new(
        s.len(),
        |i: int|
            if s[i] == from {
                to
            } else {
                s[i]
            },
    )
}

pub fn replace_char(s: &str, from: char, to: char) -> (r: String)
    ensures
        r@ == replaced(s@, from, to),
{
    let x: Vec<char> = chars_of(s);
    let mut out: String = String::new();
    let mut i: usize = 0;
    while i < x.len()
        invariant
            i <= x@.len(),
            x@ == s@,
            out@ == replaced(s@, from, to).take(i as int),
        decreases x@.len() - i,
    {
        out.push(
            if x[i] == from {
                to
            } else {
                x[i]
            },
        );
        proof {
            crate::views::lemma_take_step(replaced(s@, from, to), i as int);
        }
        i = i + 1;
    }
    proof {
        crate::views::lemma_take_all(replaced(s@, from, to));
    }
    out
}

/// Whether a text is one of a list.
pub fn is_one_of(list: &Vec<String>, s: &str) -> (r: bool)
    ensures
        r == crate::views::all(list@).contains(s@),
{
    let mut i: usize = 0;
    while i < list.len()
        invariant
            i <= list@.len(),
            forall|j: int| 0 <= j < i ==> #[trigger] crate::views::all(list@)[j] != s@,
        decreases list@.len() - i,
    {
        if same_text(list[i].as_str(), s) {
            assert(crate::views::all(list@)[i as int] == s@);
            return true;
        }
        i = i + 1;
    }
    false
}

/// How many characters follow the last `c`; all of them where there is none.
pub open spec fn after_last(s: Seq<char>, c: char) -> nat
    decreases s.len(),
{
    if s.len() == 0 || s.last() == c {
        0
    } else {
        1 + after_last(s.drop_last(), c)
    }
}

/// The parts of `s` before and after the last `c`.
pub open spec fn split_last(s: Seq<char>, c: char) -> Option<(Seq<char>, Seq<char>)> {
    let n = after_last(s, c) as int;
    if n < s.len() {
        Some((s.take(s.len() - n - 1), s.skip(s.len() - n)))
    } else {
        None
    }
}

pub fn split_last_at(s: &str, c: char) -> (r: Option<(String, String)>)
    ensures
        match r {
            Some((a, b)) => split_last(s@, c) == Some((a@, b@)),
            None => split_last(s@, c) is None,
        },
{
    let x: Vec<char> = chars_of(s);
    let mut i: usize = x.len();
    assert(x@.take(i as int) =~= x@);
    while i > 0 && x[i - 1] != c
        invariant
            i <= x@.len(),
            x@ == s@,
            after_last(x@, c) == x@.len() - i + after_last(x@.take(i as int), c),
        decreases i,
    {
        assert(x@.take(i as int).drop_last() =~= x@.take(i - 1));
        assert(x@.take(i as int).last() == x@[i - 1]);
        i = i - 1;
    }
    if i == 0 {
        return None;
    }
    assert(x@.take(i as int).last() == c);
    let a: String = text_range(&x, 0, i - 1);
    let b: String = text_range(&x, i, x.len());
    assert(a@ =~= s@.take(i - 1));
    assert(b@ =~= s@.skip(i as int));
    Some((a, b))
}

/// The value of a text of digits.
pub open spec fn digits_value(s: Seq<char>) -> Option<nat>
    decreases s.len(),
{
    if s.len() == 0 {
        Some(0)
    } else {
        match digits_value(s.drop_last()) {
            Some(n) => if ('0' as int) <= (s.last() as int) <= ('9' as int) {
                Some((10 * n + (s.last() as int - '0' as int)) as nat)
            } else {
                None
            },
            None => None,
        }
    }
}

/// Digits that follow make no value smaller, and a text with another character has none.
pub proof fn lemma_digits_grow(s: Seq<char>, i: int)
    requires
        0 <= i <= s.len(),
    ensures
        digits_value(s.take(i)) is None ==> digits_value(s) is None,
        digits_value(s.take(i)) is Some && digits_value(s) is Some ==> digits_value(s.take(i))->0
            <= digits_value(s)->0,
    decreases s.len(),
{
    if i < s.len() {
        lemma_digits_grow(s.drop_last(), i);
        assert(s.drop_last().take(i) =~= s.take(i));
    } else {
        assert(s.take(i) =~= s);
    }
}

/// The pieces of a text between the occurrences of a character, put together again with it,
/// are the text, and no piece holds it.
pub proof fn law_pieces_make_the_text(s: Seq<char>, c: char)
    ensures
        split(s, c).len() > 0,
        joined(split(s, c), seq![c]) == s,
        forall|i: int| 0 <= i < split(s, c).len() ==> !(#[trigger] split(s, c)[i]).contains(c),
    decreases s.len(),
{
    lemma_find_char(s, c);
    let n = find_char(s, c) as int;
    if n < s.len() {
        let rest = s.skip(n + 1);
        law_pieces_make_the_text(rest, c);
        law_joined_texts_are_all_there(seq![s.take(n)], split(rest, c), seq![c], s.take(n));
        assert(s.take(n) + seq![c] + rest =~= s);
        assert forall|i: int| 0 <= i < split(s, c).len() implies !(#[trigger] split(
            s,
            c,
        )[i]).contains(c) by {
            if i == 0 {
                assert(split(s, c)[0] =~= s.take(n));
            } else {
                assert(split(s, c)[i] == split(rest, c)[i - 1]);
            }
        }
    } else {
        law_joined_texts_are_all_there(Seq::empty(), Seq::empty(), seq![c], s);
        assert(split(s, c) =~= seq![s]);
    }
}

/// A text without `c`, followed by `c` and anything, is parted there; one that does not hold
/// `c` is not parted at all.
pub proof fn law_text_is_parted_at_the_first(before: Seq<char>, c: char, behind: Seq<char>)
    requires
        !before.contains(c),
    ensures
        split_once(before + seq![c] + behind, c) == Some((before, behind)),
        split_once(before, c) is None,
        split(before + seq![c] + behind, c) == seq![before] + split(behind, c),
        split(before, c) == seq![before],
{
    let s = before + seq![c] + behind;
    assert forall|j: int| 0 <= j < before.len() implies before[j] != c by {
        assert(before.contains(before[j]));
    }
    assert forall|j: int| 0 <= j < before.len() implies s[j] != c by {
        assert(s[j] == before[j]);
    }
    lemma_find_char_is(s, c, before.len() as int);
    lemma_find_char_is(before, c, before.len() as int);
    assert(s.take(before.len() as int) =~= before);
    assert(s.skip(before.len() as int + 1) =~= behind);
}

/// A text without the run of a character at its end is the beginning of the text, does not end
/// with that character, and lacks nothing but that character.
pub proof fn law_end_is_trimmed(s: Seq<char>, c: char)
    ensures
        ({
            let t = trim_end_char(s, c);
            &&& begins(s, t)
            &&& t.len() > 0 ==> t.last() != c
            &&& forall|i: int| t.len() <= i < s.len() ==> #[trigger] s[i] == c
        }),
    decreases s.len(),
{
    if s.len() > 0 && s.last() == c {
        let init = s.drop_last();
        law_end_is_trimmed(init, c);
        let t = trim_end_char(s, c);
        assert(init.take(t.len() as int) =~= s.take(t.len() as int));
        assert forall|i: int| t.len() <= i < s.len() implies #[trigger] s[i] == c by {
            if i < init.len() {
                assert(init[i] == s[i]);
            }
        }
    } else {
        assert(s.take(s.len() as int) =~= s);
    }
}

/// Trimmed text stands in the text, begins and ends with no white space, and what was cut off
/// is white space.
pub proof fn law_trimmed_text_has_no_white_space_around(s: Seq<char>)
    ensures
        ({
            let t = trimmed(s);
            &&& t.len() > 0 ==> !is_space(t[0]) && !is_space(t.last())
            &&& exists|a: int|
                {
                    &&& 0 <= a
                    &&& a + t.len() <= s.len()
                    &&& #[trigger] s.subrange(a, a + t.len()) == t
                    &&& forall|i: int| 0 <= i < a ==> is_space(#[trigger] s[i])
                    &&& forall|i: int| a + t.len() <= i < s.len() ==> is_space(#[trigger] s[i])
                }
        }),
{
    let u = trim_start(s);
    let t = trimmed(s);
    lemma_trim_start(s);
    lemma_trim_end(u);
    let a = s.len() - u.len();
    assert(u =~= s.skip(a));
    assert(s.subrange(a, a + t.len()) =~= u.take(t.len() as int));
    assert forall|i: int| a + t.len() <= i < s.len() implies is_space(#[trigger] s[i]) by {
        assert(u[i - a] == s[i]);
    }
    if t.len() > 0 {
        assert(t[0] == u[0]);
    }
}

proof fn lemma_trim_start(s: Seq<char>)
    ensures
        trim_start(s).len() <= s.len(),
        trim_start(s) == s.skip(s.len() - trim_start(s).len()),
        trim_start(s).len() > 0 ==> !is_space(trim_start(s)[0]),
        forall|i: int| 0 <= i < s.len() - trim_start(s).len() ==> is_space(#[trigger] s[i]),
    decreases s.len(),
{
    if s.len() > 0 && is_space(s[0]) {
        let rest = s.drop_first();
        lemma_trim_start(rest);
        assert(s.skip(s.len() - trim_start(s).len()) =~= rest.skip(
            rest.len() - trim_start(rest).len(),
        ));
        assert forall|i: int| 0 <= i < s.len() - trim_start(s).len() implies is_space(
            #[trigger] s[i],
        ) by {
            if i > 0 {
                assert(rest[i - 1] == s[i]);
            }
        }
    } else {
        assert(s.skip(0) =~= s);
    }
}

proof fn lemma_trim_end(s: Seq<char>)
    ensures
        trim_end(s).len() <= s.len(),
        trim_end(s) == s.take(trim_end(s).len() as int),
        trim_end(s).len() > 0 ==> !is_space(trim_end(s).last()),
        forall|i: int| trim_end(s).len() <= i < s.len() ==> is_space(#[trigger] s[i]),
    decreases s.len(),
{
    if s.len() > 0 && is_space(s.last()) {
        let init = s.drop_last();
        lemma_trim_end(init);
        assert(init.take(trim_end(s).len() as int) =~= s.take(trim_end(s).len() as int));
        assert forall|i: int| trim_end(s).len() <= i < s.len() implies is_space(#[trigger] s[i]) by {
            if i < init.len() {
                assert(init[i] == s[i]);
            }
        }
    } else {
        assert(s.take(s.len() as int) =~= s);
    }
}

/// Pieces that do not hold a character, put together with it, are parted there again.
pub proof fn law_joined_pieces_are_parted_again(parts: Seq<Seq<char>>, c: char)
    requires
        parts.len() > 0,
        forall|i: int| 0 <= i < parts.len() ==> !(#[trigger] parts[i]).contains(c),
    ensures
        split(joined(parts, seq![c]), c) == parts,
    decreases parts.len(),
{
    let first = parts[0];
    let rest = parts.drop_first();
    if rest.len() == 0 {
        law_text_is_parted_at_the_first(first, c, Seq::empty());
        assert(parts =~= seq![first]);
    } else {
        assert forall|i: int| 0 <= i < rest.len() implies !(#[trigger] rest[i]).contains(c) by {
            assert(rest[i] == parts[i + 1]);
        }
        law_joined_pieces_are_parted_again(rest, c);
        law_joined_texts_are_all_there(seq![first], rest, seq![c], first);
        assert(parts =~= seq![first] + rest);
        law_text_is_parted_at_the_first(first, c, joined(rest, seq![c]));
        assert(split(joined(parts, seq![c]), c) =~= seq![first] + rest);
    }
}

/// A number written in decimal is read as the same number, and is written with digits alone.
pub proof fn law_decimal_text_reads_back(n: nat)
    ensures
        digits_value(decimal_text(n)) == Some(n),
        decimal_text(n).len() > 0,
        forall|i: int| 0 <= i < decimal_text(n).len() ==> '0' <= #[trigger] decimal_text(n)[i] <= '9',
    decreases n,
{
    reveal_with_fuel(digits_value, 2);
    if n < 10 {
        assert(decimal_text(n).drop_last() =~= Seq::<char>::empty());
    } else {
        law_decimal_text_reads_back(n / 10);
        assert(decimal_text(n).drop_last() =~= decimal_text(n / 10));
        assert(10 * (n / 10) + n % 10 == n);
    }
}

/// A text without `c`, with `c` and anything before it, is parted there from the end.
pub proof fn law_text_is_parted_at_the_last(before: Seq<char>, c: char, behind: Seq<char>)
    requires
        !behind.contains(c),
    ensures
        split_last(before + seq![c] + behind, c) == Some((before, behind)),
        split_last(behind, c) is None,
    decreases behind.len(),
{
    let s = before + seq![c] + behind;
    lemma_after_last(before + seq![c], c, behind);
    lemma_after_last(Seq::empty(), c, behind);
    assert(Seq::<char>::empty() + behind =~= behind);
    assert((before + seq![c]).last() == c);
    assert(s.take(before.len() as int) =~= before);
    assert(s.skip(before.len() as int + 1) =~= behind);
}

proof fn lemma_after_last(before: Seq<char>, c: char, behind: Seq<char>)
    requires
        !behind.contains(c),
    ensures
        after_last(before + behind, c) == behind.len() + after_last(before, c),
    decreases behind.len(),
{
    if behind.len() == 0 {
        assert(before + behind =~= before);
    } else {
        let init = behind.drop_last();
        assert(behind.contains(behind.last()));
        assert forall|x: char| init.contains(x) implies behind.contains(x) by {
            let k = choose|k: int| 0 <= k < init.len() && init[k] == x;
            assert(behind[k] == x);
        }
        lemma_after_last(before, c, init);
        assert((before + behind).drop_last() =~= before + init);
    }
}

/// What follows a beginning is found behind it; a text that begins otherwise has none.
pub proof fn law_beginning_is_taken_off(prefix: Seq<char>, rest: Seq<char>, other: Seq<char>)
    requires
        prefix.len() > 0,
    ensures
        after_prefix(prefix + rest, prefix) == Some(rest),
        !begins(other, prefix) ==> after_prefix(other, prefix) is None,
        without_beginnings(prefix + rest, prefix) == without_beginnings(rest, prefix),
        !begins(other, prefix) ==> without_beginnings(other, prefix) == other,
{
    let all = prefix + rest;
    assert(all.take(prefix.len() as int) =~= prefix);
    assert(all.skip(prefix.len() as int) =~= rest);
}

/// Replacing a character leaves none of it, and leaves every other where it is.
pub proof fn law_character_is_replaced(s: Seq<char>, from: char, to: char, i: int)
    requires
        0 <= i < s.len(),
    ensures
        replaced(s, from, to).len() == s.len(),
        s[i] == from ==> replaced(s, from, to)[i] == to,
        s[i] != from ==> replaced(s, from, to)[i] == s[i],
{
}

/// Texts are ordered by the first character at which they differ, and a text comes before what
/// goes on from it.
pub proof fn law_first_difference_orders(
    common: Seq<char>,
    a: char,
    b: char,
    x: Seq<char>,
    y: Seq<char>,
)
    ensures
        text_le(common, common + x),
        x.len() > 0 ==> !text_le(common + x, common),
        (a as int) < (b as int) ==> text_le(common + seq![a] + x, common + seq![b] + y),
        (a as int) > (b as int) ==> !text_le(common + seq![a] + x, common + seq![b] + y),
    decreases common.len(),
{
    let s = common + seq![a] + x;
    let t = common + seq![b] + y;
    let u = common + x;
    if common.len() == 0 {
        assert(u =~= x);
        assert(s[0] == a);
        assert(t[0] == b);
    } else {
        let rest = common.drop_first();
        law_first_difference_orders(rest, a, b, x, y);
        assert(s.drop_first() =~= rest + seq![a] + x);
        assert(t.drop_first() =~= rest + seq![b] + y);
        assert(u.drop_first() =~= rest + x);
        assert(s[0] == common[0] && t[0] == common[0] && u[0] == common[0]);
    }
}

} // verus!
