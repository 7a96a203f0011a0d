//! Reading of JSON text that breaks off in the middle.
use vstd::prelude::*;
use crate::json::{Json, JsonView};
use crate::json_text;
use crate::json_text::parse_json;
use crate::text::{chars_of, text_of};
use crate::views;

verus! {

/// Where a scan of JSON text stands: the characters that would close what is open,
/// the innermost last, and whether it is inside a string or behind a backslash.
#[verifier::ext_equal]
pub struct ScanState {
    pub open: Seq<char>,
    pub in_string: bool,
    pub escape: bool,
}

/// The start of a scan.
pub open spec fn scan_start() -> ScanState {
    ScanState { open: Seq::empty(), in_string: false, escape: false }
}

/// The state behind one more character.
pub open spec fn scan_char(st: ScanState, c: char) -> ScanState {
    if st.escape {
        ScanState { escape: false, ..st }
    } else if c == '\\' {
        ScanState { escape: true, ..st }
    } else if c == '"' {
        ScanState { in_string: !st.in_string, ..st }
    } else if st.in_string {
        st
    } else if c == '{' {
        ScanState { open: st.open.push('}'), ..st }
    } else if c == '[' {
        ScanState { open: st.open.push(']'), ..st }
    } else if (c == '}' || c == ']') && st.open.len() > 0 && st.open.last() == c {
        ScanState { open: st.open.drop_last(), ..st }
    } else {
        st
    }
}

/// The state behind a text.
pub open spec fn scan(s: Seq<char>) -> ScanState
    decreases s.len(),
{
    if s.len() == 0 {
        scan_start()
    } else {
        scan_char(scan(s.drop_last()), s.last())
    }
}

/// A character that a complete value does not end with.
pub open spec fn is_dangling(c: char) -> bool {
    c == ',' || c == ':' || c == ' '
}

/// `s` without the separators at its end.
pub open spec fn without_tail(s: Seq<char>) -> Seq<char>
    decreases s.len(),
{
    if s.len() > 0 && is_dangling(s.last()) {
        without_tail(s.drop_last())
    } else {
        s
    }
}

/// `s` with its open string closed, and then whatever else is open, the innermost first.
pub open spec fn completed(s: Seq<char>) -> Seq<char> {
    let st = scan(s);
    without_tail(s) + (if st.in_string {
        seq!['"']
    } else {
        Seq::empty()
    }) + st.open.reverse()
}

/// `s` with a quotation mark behind it, unless it ends like a complete value.
pub open spec fn with_quote(s: Seq<char>) -> Seq<char> {
    if s.len() > 0 && (s.last() == '"' || s.last() == '}' || s.last() == ']') {
        s
    } else {
        s.push('"')
    }
}

/// What a scan finds.
struct Scanned {
    open: Vec<char>,
    in_string: bool,
    escape: bool,
}

impl View for Scanned {
    type V = ScanState;

    closed spec fn view(&self) -> ScanState {
        ScanState { open: self.open@, in_string: self.in_string, escape: self.escape }
    }
}

fn scan_exec(x: &Vec<char>) -> (r: Scanned)
    ensures
        r@ == scan(x@),
{
    let mut st: Scanned = Scanned { open: Vec::new(), in_string: false, escape: false };
    let mut i: usize = 0;
    assert(st@ =~= scan_start());
    while i < x.len()
        invariant
            i <= x@.len(),
            st@ == scan(x@.take(i as int)),
        decreases x@.len() - i,
    {
        proof {
            views::lemma_take_step(x@, i as int);
        }
        let ghost before = st@;
        let c: char = x[i];
        if st.escape {
            st.escape = false;
        } else if c == '\\' {
            st.escape = true;
        } else if c == '"' {
            st.in_string = !st.in_string;
        } else if st.in_string {
        } else if c == '{' {
            st.open.push('}');
        } else if c == '[' {
            st.open.push(']');
        } else if (c == '}' || c == ']') && st.open.len() > 0 && st.open[st.open.len() - 1] == c {
            let _ = st.open.pop();
        }
        assert(st@ =~= scan_char(before, c));
        i = i + 1;
    }
    proof {
        views::lemma_take_all(x@);
    }
    st
}

fn complete_chars(x: &Vec<char>) -> (r: Vec<char>)
    ensures
        r@ == completed(x@),
{
    let st: Scanned = scan_exec(x);
    let mut n: usize = x.len();
    assert(x@.take(n as int) =~= x@);
    while n > 0 && (x[n - 1] == ',' || x[n - 1] == ':' || x[n - 1] == ' ')
        invariant
            n <= x@.len(),
            without_tail(x@.take(n as int)) == without_tail(x@),
        decreases n,
    {
        assert(x@.take(n as int).drop_last() =~= x@.take(n - 1));
        n = n - 1;
    }
    let mut out: Vec<char> = Vec::new();
    let mut i: usize = 0;
    while i < n
        invariant
            i <= n <= x@.len(),
            out@ == x@.take(i as int),
        decreases n - i,
    {
        out.push(x[i]);
        proof {
            views::lemma_take_step(x@, i as int);
        }
        i = i + 1;
    }
    assert(out@ =~= without_tail(x@));
    if st.in_string {
        out.push('"');
    }
    assert(out@ =~= without_tail(x@) + (if st.in_string {
        seq!['"']
    } else {
        Seq::empty()
    }));
    let ghost start = out@;
    let mut k: usize = st.open.len();
    assert(start + st.open@.skip(k as int).reverse() =~= start);
    while k > 0
        invariant
            k <= st.open@.len(),
            out@ == start + st.open@.skip(k as int).reverse(),
        decreases k,
    {
        k = k - 1;
        out.push(st.open[k]);
        assert(out@ =~= start + st.open@.skip(k as int).reverse());
    }
    assert(st.open@.skip(0) =~= st.open@);
    out
}

/// Closes what a text leaves open.
pub fn complete_object(s: &str) -> (r: String)
    ensures
        r@ == completed(s@),
{
    let x: Vec<char> = chars_of(s);
    let y: Vec<char> = complete_chars(&x);
    text_of(&y)
}

/// Closes what a text leaves open.
pub fn complete_array(s: &str) -> (r: String)
    ensures
        r@ == completed(s@),
{
    complete_object(s)
}

/// Closes what a text leaves open, a string first.
pub fn add_quoted_string_tail(s: &str) -> (r: String)
    ensures
        r@ == completed(with_quote(s@)),
{
    let mut x: Vec<char> = chars_of(s);
    let n: usize = x.len();
    if n == 0 || !(x[n - 1] == '"' || x[n - 1] == '}' || x[n - 1] == ']') {
        x.push('"');
    }
    let y: Vec<char> = complete_chars(&x);
    text_of(&y)
}

/// The value of a text, where it reads as JSON.
pub open spec fn value_of(s: Seq<char>) -> Option<JsonView> {
    match json_text::json_of_text(s) {
        Ok(v) => Some(v),
        Err(_) => None,
    }
}

/// What can be read of a text that may break off in the middle: the text
/// itself, then with what it leaves open closed, then with a string closed
/// first.
pub open spec fn partial_value(s: Seq<char>) -> Option<JsonView> {
    views::first_of(
        value_of(s),
        views::first_of(value_of(completed(s)), value_of(completed(with_quote(s)))),
    )
}

/// Reads a text that may break off in the middle.
pub fn parse_partial_json(input: &str) -> (r: Option<Json>)
    ensures
        views::opt(r) == partial_value(input@),
{
    if let Ok(v) = parse_json(input) {
        return Some(v);
    }
    let closed: String = complete_object(input);
    if let Ok(v) = parse_json(closed.as_str()) {
        return Some(v);
    }
    let quoted: String = add_quoted_string_tail(input);
    match parse_json(quoted.as_str()) {
        Ok(v) => Some(v),
        Err(_) => None,
    }
}

/// Whether a text leaves nothing open and ends with no separator.
pub open spec fn is_closed(s: Seq<char>) -> bool {
    let st = scan(s);
    !st.in_string && st.open.len() == 0 && (s.len() > 0 ==> !is_dangling(s.last()))
}

/// Closing what a text leaves open does nothing to a text that leaves nothing
/// open.
pub proof fn law_completed_keeps_closed(s: Seq<char>)
    requires
        is_closed(s),
    ensures
        completed(s) == s,
{
    assert(completed(s) =~= s);
}

/// A text that breaks off is only ever cut at its end and added to there: what
/// it says before its trailing separators stays.
pub proof fn law_completed_keeps_beginning(s: Seq<char>)
    ensures
        without_tail(s).len() <= completed(s).len(),
        completed(s).take(without_tail(s).len() as int) == without_tail(s),
{
    assert(completed(s).take(without_tail(s).len() as int) =~= without_tail(s));
}

proof fn lemma_tail_says_nothing(s: Seq<char>)
    requires
        !scan(without_tail(s)).escape,
    ensures
        scan(s) == scan(without_tail(s)),
    decreases s.len(),
{
    if s.len() > 0 && is_dangling(s.last()) {
        lemma_tail_says_nothing(s.drop_last());
    }
}

proof fn lemma_no_tail_left(s: Seq<char>)
    ensures
        without_tail(s).len() > 0 ==> !is_dangling(without_tail(s).last()),
    decreases s.len(),
{
    if s.len() > 0 && is_dangling(s.last()) {
        lemma_no_tail_left(s.drop_last());
    }
}

proof fn lemma_open_is_closers(s: Seq<char>, i: int)
    requires
        0 <= i < scan(s).open.len(),
    ensures
        scan(s).open[i] == '}' || scan(s).open[i] == ']',
    decreases s.len(),
{
    let before = scan(s.drop_last()).open;
    if i < before.len() {
        lemma_open_is_closers(s.drop_last(), i);
    }
}

/// The closers of what is open close it one by one.
proof fn lemma_closers_close(t: Seq<char>, n: int)
    requires
        !scan(t).in_string,
        !scan(t).escape,
        0 <= n <= scan(t).open.len(),
    ensures
        scan(t + scan(t).open.reverse().take(n)) == (ScanState {
            open: scan(t).open.take(scan(t).open.len() - n),
            ..scan(t)
        }),
    decreases n,
{
    let open = scan(t).open;
    let closers = open.reverse();
    if n == 0 {
        assert(t + closers.take(0) =~= t);
        assert(open.take(open.len() as int) =~= open);
    } else {
        lemma_closers_close(t, n - 1);
        let u = t + closers.take(n);
        assert(u.drop_last() =~= t + closers.take(n - 1));
        assert(u.last() == open[open.len() - n]);
        lemma_open_is_closers(t, open.len() - n);
        assert(open.take(open.len() - (n - 1)).drop_last() =~= open.take(open.len() - n));
    }
}

/// A text that is completed leaves nothing open, unless it breaks off behind a
/// backslash; completing it once more changes nothing.
pub proof fn law_completed_is_closed(s: Seq<char>)
    requires
        !scan(without_tail(s)).escape,
    ensures
        is_closed(completed(s)),
        completed(completed(s)) == completed(s),
{
    lemma_tail_says_nothing(s);
    lemma_no_tail_left(s);
    let st = scan(s);
    let t = if st.in_string {
        without_tail(s).push('"')
    } else {
        without_tail(s)
    };
    assert(t.drop_last() =~= without_tail(s) || !st.in_string);
    assert(scan(t).open =~= st.open);
    lemma_closers_close(t, st.open.len() as int);
    assert(st.open.reverse().take(st.open.len() as int) =~= st.open.reverse());
    assert(completed(s) =~= t + st.open.reverse());
    if st.open.len() > 0 {
        assert(completed(s).last() == st.open[0]);
        lemma_open_is_closers(s, 0);
    } else {
        assert(completed(s) =~= t);
    }
    law_completed_keeps_closed(completed(s));
}

/// A text that reads as JSON is read as it is; one that breaks off is read with what it leaves
/// open closed, and where that is none, with a string closed first.
pub proof fn law_partial_text_is_read_as_far_as_it_goes(s: Seq<char>, v: JsonView)
    ensures
        json_text::json_of_text(s) == Ok::<JsonView, Seq<char>>(v) ==> partial_value(s) == Some(v),
        json_text::json_of_text(s) is Err && json_text::json_of_text(completed(s)) == Ok::<
            JsonView,
            Seq<char>,
        >(v) ==> partial_value(s) == Some(v),
        json_text::json_of_text(s) is Err && json_text::json_of_text(completed(s)) is Err
            && json_text::json_of_text(completed(with_quote(s))) == Ok::<JsonView, Seq<char>>(v)
            ==> partial_value(s) == Some(v),
{
}

/// A text that breaks off inside an object, an array or a string is closed as its own end would
/// close it: what was opened last is closed first.
pub proof fn law_what_is_open_is_closed(s: Seq<char>)
    requires
        s.len() > 0,
        !(s.last() == ',' || s.last() == ':' || s.last() == ' '),
    ensures
        !scan(s).in_string && !scan(s).escape ==> {
            &&& completed(s.push('{')) == s + seq!['{', '}'] + scan(s).open.reverse()
            &&& completed(s.push('[')) == s + seq!['[', ']'] + scan(s).open.reverse()
            &&& completed(s.push('"')) == s + seq!['"', '"'] + scan(s).open.reverse()
        },
        completed(Seq::empty()) == Seq::<char>::empty(),
{
    let open = scan(s).open;
    assert(s.push('{').drop_last() =~= s);
    assert(s.push('[').drop_last() =~= s);
    assert(s.push('"').drop_last() =~= s);
    assert(open.push('}').reverse() =~= seq!['}'] + open.reverse());
    assert(open.push(']').reverse() =~= seq![']'] + open.reverse());
    if !scan(s).in_string && !scan(s).escape {
        assert(completed(s.push('{')) =~= s + seq!['{', '}'] + open.reverse());
        assert(completed(s.push('[')) =~= s + seq!['[', ']'] + open.reverse());
        assert(completed(s.push('"')) =~= s + seq!['"', '"'] + open.reverse());
    }
    assert(completed(Seq::empty()) =~= Seq::<char>::empty());
}

/// What dangles at the end of a text, a comma, a colon or a space, is dropped, however much there
/// is of it; any other end stays.
pub proof fn law_dangling_end_is_dropped(s: Seq<char>, c: char)
    ensures
        c == ',' || c == ':' || c == ' ' ==> without_tail(s.push(c)) == without_tail(s),
        c != ',' && c != ':' && c != ' ' ==> without_tail(s.push(c)) == s.push(c),
        without_tail(Seq::empty()).len() == 0,
{
    assert(s.push(c).drop_last() =~= s);
}

/// A text that ends with a quote or a closing bracket gets no quote; any other gets one.
pub proof fn law_open_text_gets_a_quote(s: Seq<char>, c: char)
    ensures
        c == '"' || c == '}' || c == ']' ==> with_quote(s.push(c)) == s.push(c),
        c != '"' && c != '}' && c != ']' ==> with_quote(s.push(c)) == s.push(c).push('"'),
{
}

} // verus!
