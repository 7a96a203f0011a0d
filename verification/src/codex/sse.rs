//! The server-sent events of a response.
use vstd::prelude::*;
use crate::codex::errors;
use crate::codex::errors::CodexStreamError;
use crate::codex::events::{WireItem, WireItemView};
use crate::json::JsonView;
use crate::json_text;
use crate::json_text::parse_json;
use crate::text;
use crate::text::{chars_of, concat, join, same_text, split_chars, strip_prefix, trim};
use crate::utf8;
use crate::utf8::{text_from_bytes, valid_utf8_prefix_len};
use crate::views;

verus! {

broadcast use crate::views::group_views;

/// Whether a blank line begins at position `i`.
pub open spec fn is_break(s: Seq<char>, i: int) -> bool {
    0 <= i && i + 1 < s.len() && s[i] == '\n' && s[i + 1] == '\n'
}

/// Where the first blank line begins, at or behind position `i`; the length of
/// the text where there is none.
pub open spec fn find_break(s: Seq<char>, i: int) -> int
    decreases s.len() - i,
{
    if i >= s.len() || i < 0 {
        s.len() as int
    } else if is_break(s, i) {
        i
    } else {
        find_break(s, i + 1)
    }
}

/// The blocks of a text that a blank line ends.
pub open spec fn blocks(s: Seq<char>) -> Seq<Seq<char>>
    decreases s.len(),
{
    let i = find_break(s, 0);
    if 0 <= i && i + 2 <= s.len() {
        seq![s.take(i)] + blocks(s.skip(i + 2))
    } else {
        Seq::empty()
    }
}

/// What no blank line ends yet.
pub open spec fn remainder(s: Seq<char>) -> Seq<char>
    decreases s.len(),
{
    let i = find_break(s, 0);
    if 0 <= i && i + 2 <= s.len() {
        remainder(s.skip(i + 2))
    } else {
        s
    }
}

/// The data of the lines of a block, white space cut off.
pub open spec fn data_lines(lines: Seq<Seq<char>>) -> Seq<Seq<char>>
    decreases lines.len(),
{
    if lines.len() == 0 {
        Seq::empty()
    } else {
        let before = data_lines(lines.drop_last());
        match text::after_prefix(lines.last(), "data:"@) {
            Some(rest) => before.push(text::trimmed(rest)),
            None => before,
        }
    }
}

/// The data of a block, where it has any that counts.
pub open spec fn block_data(block: Seq<char>) -> Option<Seq<char>> {
    let data = text::trimmed(text::joined(data_lines(text::split(block, '\n')), "\n"@));
    if data.len() == 0 || data == "[DONE]"@ {
        None
    } else {
        Some(data)
    }
}

/// What the data of a block comes to.
pub open spec fn data_item(data: Seq<char>) -> WireItemView {
    match json_text::json_of_text(data) {
        Ok(v) => WireItemView::Event(v),
        Err(e) => WireItemView::Failure(
            errors::protocol_error("Invalid Codex SSE JSON: "@ + e),
        ),
    }
}

/// What blocks come to, up to the first that is no JSON.
pub open spec fn block_items(bs: Seq<Seq<char>>) -> Seq<WireItemView>
    decreases bs.len(),
{
    if bs.len() == 0 {
        Seq::empty()
    } else {
        let before = block_items(bs.drop_last());
        if has_failed(before) {
            before
        } else {
            match block_data(bs.last()) {
                Some(data) => before.push(data_item(data)),
                None => before,
            }
        }
    }
}

/// Whether the last item is a failure.
pub open spec fn has_failed(items: Seq<WireItemView>) -> bool {
    items.len() > 0 && items.last() is Failure
}

/// A reader of server-sent events.
pub struct SseReader {
    /// Bytes that are no complete character yet.
    carry: Vec<u8>,
    /// Text that no blank line ends yet.
    pending: Vec<char>,
    failed: bool,
}

#[verifier::ext_equal]
pub struct SseView {
    pub carry: Seq<u8>,
    pub pending: Seq<char>,
    pub failed: bool,
}

impl View for SseReader {
    type V = SseView;

    closed spec fn view(&self) -> SseView {
        SseView { carry: self.carry@, pending: self.pending@, failed: self.failed }
    }
}

/// The reader and the items behind one more piece of the response. A reader that
/// failed reads no more.
pub open spec fn fed(r: SseView, chunk: Seq<u8>) -> (SseView, Seq<WireItemView>) {
    if r.failed {
        (r, Seq::empty())
    } else {
        let bytes = r.carry + chunk;
        let t = r.pending + utf8::valid_text(bytes);
        let items = block_items(blocks(t));
        (
            SseView {
                carry: bytes.skip(utf8::valid_len(bytes) as int),
                pending: remainder(t),
                failed: has_failed(items),
            },
            items,
        )
    }
}

fn find_break_exec(s: &Vec<char>, from: usize) -> (r: usize)
    requires
        from <= s@.len(),
    ensures
        r - from == find_break(s@.skip(from as int), 0),
        from <= r <= s@.len(),
        r < s@.len() ==> r + 1 < s@.len(),
{
    let ghost rest = s@.skip(from as int);
    let mut i: usize = from;
    while i < s.len()
        invariant
            from <= i <= s@.len(),
            rest == s@.skip(from as int),
            find_break(rest, 0) == find_break(rest, i - from),
        decreases s@.len() - i,
    {
        if s.len() - i > 1 && s[i] == '\n' && s[i + 1] == '\n' {
            assert(is_break(rest, i - from));
            return i;
        }
        assert(!is_break(rest, i - from));
        i = i + 1;
    }
    i
}

fn data_lines_exec(lines: &Vec<String>) -> (r: Vec<String>)
    ensures
        views::all(r@) == data_lines(views::all(lines@)),
{
    let ghost all = views::all(lines@);
    let mut out: Vec<String> = Vec::new();
    let mut i: usize = 0;
    while i < lines.len()
        invariant
            i <= lines@.len(),
            all == views::all(lines@),
            views::all(out@) == data_lines(all.take(i as int)),
        decreases lines@.len() - i,
    {
        proof {
            views::lemma_take_step(all, i as int);
        }
        if let Some(rest) = strip_prefix(lines[i].as_str(), "data:") {
            let data: String = trim(rest.as_str());
            out.push(data);
        }
        i = i + 1;
    }
    proof {
        views::lemma_take_all(all);
    }
    out
}

fn block_data_exec(block: &Vec<char>) -> (r: Option<String>)
    ensures
        views::opt(r) == block_data(block@),
{
    let lines: Vec<String> = split_chars(block, '\n');
    let data: Vec<String> = data_lines_exec(&lines);
    let joined: String = join(&data, "\n");
    let whole: String = trim(joined.as_str());
    if whole.as_str().is_empty() || same_text(whole.as_str(), "[DONE]") {
        None
    } else {
        Some(whole)
    }
}

fn data_item_exec(data: &str) -> (r: WireItem)
    ensures
        r@ == data_item(data@),
{
    match parse_json(data) {
        Ok(v) => WireItem::Event(v),
        Err(e) => WireItem::Failure(
            CodexStreamError::protocol(concat("Invalid Codex SSE JSON: ", e.as_str())),
        ),
    }
}

proof fn lemma_blocks_step(before: Seq<Seq<char>>, rest: Seq<char>, i: int)
    requires
        i == find_break(rest, 0),
        0 <= i,
        i + 2 <= rest.len(),
    ensures
        before.push(rest.take(i)) + blocks(rest.skip(i + 2)) == before + blocks(rest),
        remainder(rest) == remainder(rest.skip(i + 2)),
{
    let tail = blocks(rest.skip(i + 2));
    assert(before.push(rest.take(i)) + tail =~= before + (seq![rest.take(i)] + tail));
}

fn to_vec(s: &Vec<char>, from: usize, to: usize) -> (r: Vec<char>)
    requires
        from <= to <= s@.len(),
    ensures
        r@ == s@.subrange(from as int, to as int),
{
    let mut out: Vec<char> = Vec::new();
    let mut i: usize = from;
    while i < to
        invariant
            from <= i <= to <= s@.len(),
            out@ == s@.subrange(from as int, i as int),
        decreases to - i,
    {
        out.push(s[i]);
        assert(s@.subrange(from as int, i + 1) =~= s@.subrange(from as int, i as int).push(
            s@[i as int],
        ));
        i = i + 1;
    }
    out
}

impl SseReader {
    /// A reader before the first piece.
    pub fn new() -> (r: SseReader)
        ensures
            r@ == (SseView { carry: Seq::empty(), pending: Seq::empty(), failed: false }),
    {
        SseReader { carry: Vec::new(), pending: Vec::new(), failed: false }
    }

    /// Reads one more piece of the response.
    pub fn feed(&mut self, chunk: &[u8]) -> (r: Vec<WireItem>)
        ensures
            (final(self)@, views::all(r@)) == fed(old(self)@, chunk@),
    {
        let mut items: Vec<WireItem> = Vec::new();
        if self.failed {
            return items;
        }
        let ghost start = self@;
        let ghost bytes = start.carry + chunk@;
        let mut k: usize = 0;
        while k < chunk.len()
            invariant
                k <= chunk@.len(),
                self.carry@ == start.carry + chunk@.take(k as int),
                self.pending@ == start.pending,
                !self.failed,
            decreases chunk@.len() - k,
        {
            self.carry.push(chunk[k]);
            proof {
                views::lemma_take_step(chunk@, k as int);
                assert(self.carry@ =~= start.carry + chunk@.take(k + 1));
            }
            k = k + 1;
        }
        assert(self.carry@ =~= bytes) by {
            views::lemma_take_all(chunk@);
        }
        let n: usize = valid_utf8_prefix_len(self.carry.as_slice());
        proof {
            utf8::lemma_valid_len(bytes);
        }
        let tail: Vec<u8> = self.carry.split_off(n);
        assert(self.carry@ =~= bytes.take(n as int));
        let decoded: String = text_from_bytes(self.carry.as_slice());
        self.carry = tail;
        assert(self.carry@ =~= bytes.skip(n as int));
        let mut more: Vec<char> = chars_of(decoded.as_str());
        self.pending.append(&mut more);
        let ghost t = start.pending + utf8::valid_text(bytes);
        assert(self.pending@ =~= t);
        let mut from: usize = 0;
        let ghost mut done: Seq<Seq<char>> = Seq::empty();
        assert(t.skip(0) =~= t);
        assert(done + blocks(t) =~= blocks(t));
        let mut at: usize = find_break_exec(&self.pending, 0);
        while at < self.pending.len()
            invariant
                self.pending@ == t,
                self.carry@ == bytes.skip(utf8::valid_len(bytes) as int),
                from <= at <= t.len(),
                at < t.len() ==> at + 1 < t.len(),
                at - from == find_break(t.skip(from as int), 0),
                done + blocks(t.skip(from as int)) == blocks(t),
                remainder(t.skip(from as int)) == remainder(t),
                views::all(items@) == block_items(done),
                self.failed == has_failed(views::all(items@)),
            decreases t.len() - from,
        {
            let ghost rest = t.skip(from as int);
            let block: Vec<char> = to_vec(&self.pending, from, at);
            assert(block@ =~= rest.take(at - from));
            let ghost before = done;
            proof {
                lemma_blocks_step(done, rest, at - from);
                assert(rest.skip(at - from + 2) =~= t.skip(at + 2));
                done = done.push(block@);
                assert(done.drop_last() =~= before);
            }
            if !self.failed {
                if let Some(data) = block_data_exec(&block) {
                    let item: WireItem = data_item_exec(data.as_str());
                    match &item {
                        WireItem::Failure(_) => {
                            self.failed = true;
                        },
                        WireItem::Event(_) => {},
                    }
                    items.push(item);
                }
            }
            from = at + 2;
            at = find_break_exec(&self.pending, from);
        }
        proof {
            let rest = t.skip(from as int);
            assert(blocks(rest) =~= Seq::empty());
            assert(done + blocks(rest) =~= done);
        }
        let left: Vec<char> = to_vec(&self.pending, from, self.pending.len());
        assert(left@ =~= t.skip(from as int));
        self.pending = left;
        items
    }
}

proof fn lemma_find_break(s: Seq<char>, i: int)
    requires
        0 <= i <= s.len(),
    ensures
        i <= find_break(s, i) <= s.len(),
        find_break(s, i) < s.len() ==> is_break(s, find_break(s, i)),
        forall|j: int| i <= j < find_break(s, i) ==> !#[trigger] is_break(s, j),
    decreases s.len() - i,
{
    if i < s.len() && !is_break(s, i) {
        lemma_find_break(s, i + 1);
    }
}

proof fn lemma_find_break_is(s: Seq<char>, i: int, n: int)
    requires
        0 <= i <= n <= s.len(),
        n < s.len() ==> is_break(s, n),
        forall|j: int| i <= j < n ==> !#[trigger] is_break(s, j),
    ensures
        find_break(s, i) == n,
    decreases s.len() - i,
{
    lemma_find_break(s, i);
}

/// The blocks of a text that comes in two pieces.
proof fn lemma_blocks_in_pieces(x: Seq<char>, y: Seq<char>)
    ensures
        blocks(x + y) == blocks(x) + blocks(remainder(x) + y),
        remainder(x + y) == remainder(remainder(x) + y),
    decreases x.len(),
{
    lemma_find_break(x, 0);
    let i = find_break(x, 0);
    if i + 2 <= x.len() {
        let whole = x + y;
        assert forall|j: int| 0 <= j < i implies !#[trigger] is_break(whole, j) by {
            assert(!is_break(x, j));
        }
        assert(is_break(x, i));
        assert(is_break(whole, i));
        lemma_find_break_is(whole, 0, i);
        lemma_blocks_in_pieces(x.skip(i + 2), y);
        assert(whole.skip(i + 2) =~= x.skip(i + 2) + y);
        assert(whole.take(i) =~= x.take(i));
        assert(blocks(whole) =~= blocks(x) + blocks(remainder(x) + y));
    } else {
        assert(blocks(x) + blocks(x + y) =~= blocks(x + y));
    }
}

proof fn lemma_items_in_pieces(a: Seq<Seq<char>>, b: Seq<Seq<char>>)
    requires
        !has_failed(block_items(a)),
    ensures
        block_items(a + b) == block_items(a) + block_items(b),
    decreases b.len(),
{
    if b.len() > 0 {
        lemma_items_in_pieces(a, b.drop_last());
        assert((a + b).drop_last() =~= a + b.drop_last());
        let init = block_items(b.drop_last());
        let all = block_items(a) + init;
        if init.len() > 0 {
            assert(all.last() == init.last());
        } else {
            assert(all =~= block_items(a));
        }
        match block_data(b.last()) {
            Some(data) => {
                assert(all.push(data_item(data)) =~= block_items(a) + init.push(data_item(data)));
            },
            None => {},
        }
    } else {
        assert(a + b =~= a);
        assert(block_items(a) + block_items(b) =~= block_items(a));
    }
}

proof fn lemma_items_end_at_failure(a: Seq<Seq<char>>, b: Seq<Seq<char>>)
    requires
        has_failed(block_items(a)),
    ensures
        block_items(a + b) == block_items(a),
    decreases b.len(),
{
    if b.len() > 0 {
        lemma_items_end_at_failure(a, b.drop_last());
        assert((a + b).drop_last() =~= a + b.drop_last());
    } else {
        assert(a + b =~= a);
    }
}

/// How the response is cut into pieces does not matter: two pieces, one after
/// the other, give the items that they give as one, and the reader fails on both ways or
/// on neither. The same reader is left, unless it failed in the first piece: what comes
/// behind a failure is not looked at any more.
pub proof fn law_pieces_do_not_matter(r: SseView, a: Seq<u8>, b: Seq<u8>)
    ensures
        ({
            let (mid, first) = fed(r, a);
            let (end, second) = fed(mid, b);
            let (whole, items) = fed(r, a + b);
            &&& items == first + second
            &&& whole.failed == end.failed
            &&& r.failed || !mid.failed ==> whole == end
            &&& mid.failed ==> second.len() == 0 && end == mid
        }),
{
    let (mid, first) = fed(r, a);
    if r.failed {
        let none = Seq::<WireItemView>::empty();
        assert(none + none =~= none);
    } else {
        let bytes = r.carry + a;
        utf8::lemma_valid_text_in_pieces(bytes, b);
        assert(r.carry + (a + b) =~= bytes + b);
        let t1 = r.pending + utf8::valid_text(bytes);
        let t2 = utf8::valid_text(mid.carry + b);
        lemma_blocks_in_pieces(t1, t2);
        assert(r.pending + utf8::valid_text(bytes + b) =~= t1 + t2);
        if mid.failed {
            lemma_items_end_at_failure(blocks(t1), blocks(remainder(t1) + t2));
            assert(first + Seq::<WireItemView>::empty() =~= first);
        } else {
            lemma_items_in_pieces(blocks(t1), blocks(remainder(t1) + t2));
            let second = block_items(blocks(remainder(t1) + t2));
            let both = first + second;
            if second.len() > 0 {
                assert(both.last() == second.last());
            } else {
                assert(both =~= first);
            }
        }
    }
}

/// A block that a blank line ends is read on its own, and what comes behind it is read as if it
/// came first.
pub proof fn law_blank_line_ends_a_block(block: Seq<char>, rest: Seq<char>)
    requires
        forall|i: int| !#[trigger] is_break(block, i),
        block.len() > 0 ==> block.last() != '\n',
    ensures
        blocks(block + seq!['\n', '\n'] + rest) == seq![block] + blocks(rest),
        remainder(block + seq!['\n', '\n'] + rest) == remainder(rest),
        blocks(block).len() == 0,
        remainder(block) == block,
{
    let s = block + seq!['\n', '\n'] + rest;
    let n = block.len() as int;
    assert(s[n] == '\n' && s[n + 1] == '\n');
    assert forall|i: int| 0 <= i < n implies !#[trigger] is_break(s, i) by {
        assert(!is_break(block, i));
        assert(s[i] == block[i]);
        if i + 1 < n {
            assert(s[i + 1] == block[i + 1]);
        } else {
            assert(block.last() == block[i]);
        }
    }
    lemma_find_break_is(s, 0, n);
    assert(s.take(n) =~= block);
    assert(s.skip(n + 2) =~= rest);
    assert(is_break(s, n));
    lemma_find_break_is(block, 0, n);
}

proof fn lemma_data_lines_add(a: Seq<Seq<char>>, b: Seq<Seq<char>>)
    ensures
        data_lines(a + b) == data_lines(a) + data_lines(b),
    decreases b.len(),
{
    if b.len() == 0 {
        assert(a + b =~= a);
    } else {
        lemma_data_lines_add(a, b.drop_last());
        assert((a + b).drop_last() =~= a + b.drop_last());
    }
    assert(data_lines(a + b) =~= data_lines(a) + data_lines(b));
}

/// Of the lines of a block those that begin with `data:` count, in order, each without the white
/// space around what follows; any other line is read over.
pub proof fn law_data_lines_count(before: Seq<Seq<char>>, line: Seq<char>, behind: Seq<Seq<char>>)
    ensures
        ({
            let all = data_lines(before + seq![line] + behind);
            let (a, b) = (data_lines(before), data_lines(behind));
            &&& text::begins(line, "data:"@) ==> all == a.push(text::trimmed(line.skip(5))) + b
            &&& !text::begins(line, "data:"@) ==> all == a + b
        }),
        data_lines(Seq::empty()).len() == 0,
{
    reveal_strlit("data:");
    assert("data:"@.len() == 5);
    reveal_with_fuel(data_lines, 2);
    lemma_data_lines_add(before + seq![line], behind);
    lemma_data_lines_add(before, seq![line]);
    assert(seq![line].drop_last() =~= Seq::<Seq<char>>::empty());
    let all = data_lines(before + seq![line] + behind);
    let (a, b) = (data_lines(before), data_lines(behind));
    if text::begins(line, "data:"@) {
        assert(data_lines(seq![line]) =~= seq![text::trimmed(line.skip(5))]);
        assert(all =~= a.push(text::trimmed(line.skip(5))) + b);
    } else {
        assert(data_lines(seq![line]) =~= Seq::<Seq<char>>::empty());
        assert(all =~= a + b);
    }
}

/// A line of data that is JSON text, with a blank line behind it, is read as that event; the mark
/// of the end and a line without data are read as nothing.
pub proof fn law_event_is_read(data: Seq<char>, event: JsonView, e: Seq<char>)
    requires
        !data.contains('\n'),
        text::trimmed(data) == data,
    ensures
        ({
            let items = block_items(blocks("data:"@ + data + seq!['\n', '\n']));
            &&& data.len() > 0 && data != "[DONE]"@ && json_text::json_of_text(data) == Ok::<
                JsonView,
                Seq<char>,
            >(event) ==> items == seq![WireItemView::Event(event)]
            &&& data.len() > 0 && data != "[DONE]"@ && json_text::json_of_text(data) == Err::<
                JsonView,
                Seq<char>,
            >(e) ==> {
                &&& items.len() == 1
                &&& items[0] is Failure
                &&& items[0]->Failure_0.kind == errors::CodexErrorKind::Protocol
            }
            &&& data.len() == 0 || data == "[DONE]"@ ==> items.len() == 0
        }),
{
    reveal_strlit("data:");
    let line = "data:"@ + data;
    assert(!line.contains('\n')) by {
        if line.contains('\n') {
            let x = choose|x: int| 0 <= x < line.len() && line[x] == '\n';
            if x >= 5 {
                assert(data[x - 5] == '\n');
            } else {
                assert(line[x] == "data:"@[x]);
            }
        }
    }
    assert forall|i: int| !#[trigger] is_break(line, i) by {
        if is_break(line, i) {
            assert(line[i] == '\n');
            assert(line.contains('\n'));
        }
    }
    if line.last() == '\n' {
        assert(line.contains('\n'));
    }
    law_blank_line_ends_a_block(line, Seq::empty());
    let whole = line + seq!['\n', '\n'];
    assert(line + seq!['\n', '\n'] + Seq::<char>::empty() =~= whole);
    lemma_find_break_is(Seq::empty(), 0, 0);
    assert(blocks(Seq::<char>::empty()) =~= Seq::<Seq<char>>::empty());
    assert(blocks(whole) =~= seq![line]);
    text::law_text_is_parted_at_the_first(line, '\n', Seq::empty());
    law_data_lines_count(Seq::empty(), line, Seq::empty());
    assert(Seq::<Seq<char>>::empty() + seq![line] + Seq::<Seq<char>>::empty() =~= seq![line]);
    assert(line.skip(5) =~= data);
    assert(line.take(5) =~= "data:"@);
    assert(data_lines(seq![line]) =~= seq![data]);
    text::law_joined_texts_are_all_there(Seq::empty(), Seq::empty(), "\n"@, data);
    reveal_with_fuel(block_items, 2);
    assert(seq![line].drop_last() =~= Seq::<Seq<char>>::empty());
    assert(block_items(seq![line]) =~= match block_data(line) {
        Some(d) => seq![data_item(d)],
        None => Seq::empty(),
    });
}

/// A reader that was just made has read nothing and reads text as it comes: what a blank line does
/// not end yet is kept for the next piece.
pub proof fn law_reader_keeps_the_rest(r: SseView, chunk: Seq<u8>)
    requires
        !r.failed,
    ensures
        ({
            let (after, items) = fed(r, chunk);
            let read = r.pending + utf8::valid_text(r.carry + chunk);
            &&& items == block_items(blocks(read))
            &&& after.pending == remainder(read)
            &&& text::ends(read, after.pending)
            &&& after.failed <==> items.len() > 0 && items.last() is Failure
        }),
{
    lemma_remainder_ends(r.pending + utf8::valid_text(r.carry + chunk));
}

proof fn lemma_remainder_ends(s: Seq<char>)
    ensures
        text::ends(s, remainder(s)),
    decreases s.len(),
{
    let i = find_break(s, 0);
    if 0 <= i && i + 2 <= s.len() {
        let rest = s.skip(i + 2);
        lemma_remainder_ends(rest);
        let r = remainder(s);
        assert(s.skip(s.len() - r.len()) =~= rest.skip(rest.len() - r.len()));
    } else {
        assert(s.skip(0) =~= s);
    }
}

/// The data of a block that comes in two lines is both lines, one below the other.
pub proof fn law_data_lines_are_joined(a: Seq<char>, b: Seq<char>)
    requires
        a.len() > 0,
        b.len() > 0,
        !a.contains('\n'),
        !b.contains('\n'),
        !text::is_space(a[0]),
        !text::is_space(a.last()),
        !text::is_space(b[0]),
        !text::is_space(b.last()),
    ensures
        block_data("data:"@ + a + seq!['\n'] + ("data:"@ + b)) == Some(a + seq!['\n'] + b),
{
    reveal_strlit("data:");
    reveal_strlit("\n");
    reveal_strlit("[DONE]");
    let first = "data:"@ + a;
    let second = "data:"@ + b;
    let block = first + seq!['\n'] + second;
    assert forall|i: int| 0 <= i < first.len() implies first[i] != '\n' by {
        if i >= 5 {
            assert(first[i] == a[i - 5]);
            assert(a.contains(a[i - 5]));
        }
    }
    assert forall|i: int| 0 <= i < second.len() implies second[i] != '\n' by {
        if i >= 5 {
            assert(second[i] == b[i - 5]);
            assert(b.contains(b[i - 5]));
        }
    }
    text::law_text_is_parted_at_the_first(first, '\n', second);
    text::law_text_is_parted_at_the_first(second, '\n', Seq::empty());
    let lines = text::split(block, '\n');
    assert(lines =~= seq![first, second]);
    reveal_with_fuel(data_lines, 3);
    assert(first.take(5) =~= "data:"@);
    assert(second.take(5) =~= "data:"@);
    assert(first.skip(5) =~= a);
    assert(second.skip(5) =~= b);
    assert(lines.drop_last() =~= seq![first]);
    assert(lines.drop_last().drop_last() =~= Seq::<Seq<char>>::empty());
    assert(text::trimmed(a) == a);
    assert(text::trimmed(b) == b);
    assert(data_lines(lines) =~= seq![a, b]);
    assert("\n"@ =~= seq!['\n']);
    text::law_joined_texts_are_all_there(seq![a], seq![b], seq!['\n'], a);
    text::law_joined_texts_are_all_there(Seq::empty(), Seq::empty(), seq!['\n'], b);
    assert(seq![a] + seq![b] =~= seq![a, b]);
    let whole = a + seq!['\n'] + b;
    assert(text::trimmed(whole) == whole);
    if whole == "[DONE]"@ {
        assert(whole[a.len() as int] == '\n');
    }
}

} // verus!
