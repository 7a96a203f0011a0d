//! A scripted message streamed piece by piece.
use vstd::prelude::*;
use vstd::utf8::*;
use crate::codex::output;
use crate::codex::output::{append_text, append_thinking};
use crate::faux::content;
use crate::faux::content::{create_aborted_message, create_error_message, error_str};
use crate::faux::estimate;
use crate::faux::estimate::estimate_tokens;
use crate::faux::split;
use crate::faux::split::{draw_sizes, split_at_sizes};
use crate::json::{Json, JsonView};
use crate::json_text;
use crate::json_text::print_json;
use crate::text::same_text;
use crate::types;
use crate::types::{
    clone_block, AssistantMessage, AssistantMessageEvent, AssistantView, BlockView, ContentBlock,
    EventView, Message, MessageView, Usage,
};
use crate::views;
use crate::views::clone_opt_text;

verus! {

broadcast use crate::views::group_views;

/// The text that a block is streamed as; none where it is not streamed.
pub open spec fn streamed_text(b: BlockView) -> Option<Seq<char>> {
    match b {
        BlockView::Thinking { thinking, .. } => Some(thinking),
        BlockView::Text { text, .. } => Some(text),
        BlockView::ToolCall { arguments, .. } => Some(json_text::text_of_json(arguments)),
        _ => None,
    }
}

fn streamed_text_exec(b: &ContentBlock) -> (r: Option<String>)
    ensures
        views::opt(r) == streamed_text(b@),
{
    match b {
        ContentBlock::Thinking { thinking, .. } => Some(thinking.clone()),
        ContentBlock::Text { text, .. } => Some(text.clone()),
        ContentBlock::ToolCall { arguments, .. } => Some(print_json(arguments)),
        _ => None,
    }
}

/// The blocks that a message is streamed as.
pub open spec fn blocks_of(m: MessageView) -> Seq<BlockView> {
    match m {
        MessageView::Assistant(a) => a.content,
        _ => Seq::empty(),
    }
}

/// A block of which nothing was streamed yet.
pub open spec fn opened(b: BlockView) -> BlockView {
    match b {
        BlockView::Thinking { signature, .. } => BlockView::Thinking {
            thinking: Seq::empty(),
            signature,
        },
        BlockView::Text { .. } => BlockView::Text { text: Seq::empty(), text_signature: None },
        BlockView::ToolCall { id, name, .. } => BlockView::ToolCall {
            id,
            name,
            arguments: JsonView::object(),
        },
        other => other,
    }
}

/// The event that opens a block.
pub open spec fn start_event(index: int, b: BlockView) -> EventView {
    match b {
        BlockView::Thinking { .. } => EventView::ThinkingStart,
        BlockView::ToolCall { id, name, .. } => EventView::ToolcallStart {
            content_index: index,
            id: Some(id),
            name: Some(name),
        },
        _ => EventView::TextStart,
    }
}

/// The event that a piece of a block comes as.
pub open spec fn delta_event(index: int, b: BlockView, piece: Seq<char>) -> EventView {
    match b {
        BlockView::Thinking { .. } => EventView::ThinkingDelta { delta: piece },
        BlockView::ToolCall { .. } => EventView::ToolcallDelta {
            content_index: index,
            delta: piece,
        },
        _ => EventView::TextDelta { delta: piece },
    }
}

/// The event that closes a block.
pub open spec fn end_event(index: int, b: BlockView) -> EventView {
    match b {
        BlockView::Thinking { signature, .. } => EventView::ThinkingEnd { signature },
        BlockView::ToolCall { .. } => EventView::ToolcallEnd { content_index: index, tool_call: b },
        _ => EventView::TextEnd,
    }
}

/// The content behind a piece: text and thinking grow, the arguments of a tool call
/// do not. Behind a block that is not streamed, the places no longer agree and
/// nothing grows.
pub open spec fn grown(
    so_far: Seq<BlockView>,
    index: int,
    b: BlockView,
    piece: Seq<char>,
) -> Seq<BlockView> {
    match b {
        BlockView::Thinking { .. } => output::thinking_appended(so_far, index, piece),
        BlockView::Text { .. } => output::text_appended(so_far, index, piece),
        _ => so_far,
    }
}

/// Where a stream stands.
pub enum DeltaPhase {
    /// Nothing happened.
    Start,
    /// The block at this place comes next.
    Block(usize),
    /// A piece of the block at this place comes next.
    Piece(usize, usize),
    Done,
}

/// A scripted message on its way.
pub struct DeltaStream {
    pub message: AssistantMessage,
    /// The pieces of every block.
    pub pieces: Vec<Vec<String>>,
    /// The message as far as it was streamed.
    pub partial: AssistantMessage,
    pub phase: DeltaPhase,
}

#[verifier::ext_equal]
pub struct DeltaView {
    pub message: MessageView,
    pub pieces: Seq<Seq<Seq<char>>>,
    pub partial: MessageView,
    pub phase: DeltaPhase,
}

/// The pieces of every block.
pub open spec fn all_pieces(pieces: Seq<Vec<String>>) -> Seq<Seq<Seq<char>>> {
    pieces.map_values(|p: Vec<String>| views::all(p@))
}

impl View for DeltaStream {
    type V = DeltaView;

    open spec fn view(&self) -> DeltaView {
        DeltaView {
            message: self.message@,
            pieces: all_pieces(self.pieces@),
            partial: self.partial@,
            phase: self.phase,
        }
    }
}

/// Whether every block that is streamed has a piece.
pub open spec fn has_pieces(blocks: Seq<BlockView>, pieces: Seq<Seq<Seq<char>>>) -> bool {
    &&& pieces.len() == blocks.len()
    &&& forall|i: int|
        0 <= i < blocks.len() && streamed_text(#[trigger] blocks[i]) is Some ==> pieces[i].len() > 0
}

/// Whether every block that is streamed is cut into pieces of the sizes given.
pub open spec fn is_cut(
    blocks: Seq<BlockView>,
    pieces: Seq<Seq<Seq<char>>>,
    min: int,
    max: int,
) -> bool {
    &&& pieces.len() == blocks.len()
    &&& forall|i: int|
        0 <= i < blocks.len() ==> match streamed_text(#[trigger] blocks[i]) {
            Some(t) => split::is_split(pieces[i], t, min, max),
            None => pieces[i].len() == 0,
        }
}

/// Whether every block that is streamed can be cut, whatever sizes are drawn.
pub open spec fn can_be_cut(blocks: Seq<BlockView>, min: int, max: int) -> bool {
    forall|i: int|
        0 <= i < blocks.len() ==> match streamed_text(#[trigger] blocks[i]) {
            Some(t) => split::cuts_fall_between(encode_utf8(t), 0, min, max),
            None => true,
        }
}

/// The pieces of a block at drawn sizes; one that is not streamed has none.
pub open spec fn block_pieces(b: BlockView, sizes: Seq<usize>) -> Option<Seq<Seq<char>>> {
    match streamed_text(b) {
        Some(t) => split::pieces_at_sizes(t, sizes),
        None => Some(Seq::empty()),
    }
}

/// The pieces of every block at the sizes drawn for it; none where a cut parts a
/// character.
pub open spec fn pieces_at(blocks: Seq<BlockView>, draws: Seq<Seq<usize>>) -> Option<
    Seq<Seq<Seq<char>>>,
> {
    if forall|i: int| 0 <= i < blocks.len() ==> block_pieces(#[trigger] blocks[i], draws[i]) is Some {
        Some(Seq::new(blocks.len(), |i: int| block_pieces(blocks[i], draws[i])->0))
    } else {
        None
    }
}

/// Whether sizes can be drawn for the blocks.
pub open spec fn are_draws(
    blocks: Seq<BlockView>,
    draws: Seq<Seq<usize>>,
    min: int,
    max: int,
) -> bool {
    &&& draws.len() == blocks.len()
    &&& forall|i: int|
        0 <= i < blocks.len() ==> match streamed_text(#[trigger] blocks[i]) {
            Some(t) => split::are_draws(draws[i], t, min, max),
            None => draws[i].len() == 0,
        }
}

/// The sizes that were drawn.
pub open spec fn all_draws(draws: Seq<Vec<usize>>) -> Seq<Seq<usize>> {
    draws.map_values(|d: Vec<usize>| d@)
}

/// Whether sizes can be counted with.
pub open spec fn are_sizes(draws: Seq<Vec<usize>>) -> bool {
    forall|i: int, j: int|
        0 <= i < draws.len() && 0 <= j < draws[i]@.len() ==> 1 <= #[trigger] draws[i]@[j] && 4
            * draws[i]@[j] <= usize::MAX
}

/// Pieces at drawn sizes are pieces of the blocks, and there are such where no cut can
/// part a character.
proof fn lemma_pieces_at_draws(blocks: Seq<BlockView>, draws: Seq<Seq<usize>>, min: int, max: int)
    requires
        1 <= min <= max,
        are_draws(blocks, draws, min, max),
    ensures
        pieces_at(blocks, draws) is Some ==> is_cut(blocks, pieces_at(blocks, draws)->0, min, max),
        can_be_cut(blocks, min, max) ==> pieces_at(blocks, draws) is Some,
{
    assert forall|i: int| 0 <= i < blocks.len() implies {
        let sizes = draws[i];
        match streamed_text(#[trigger] blocks[i]) {
            Some(t) => {
                &&& block_pieces(blocks[i], sizes) is Some ==> split::is_split(
                    block_pieces(blocks[i], sizes)->0,
                    t,
                    min,
                    max,
                )
                &&& split::cuts_fall_between(encode_utf8(t), 0, min, max) ==> block_pieces(
                    blocks[i],
                    sizes,
                ) is Some
            },
            None => block_pieces(blocks[i], sizes) == Some(Seq::<Seq<char>>::empty()),
        }
    } by {
        if let Some(t) = streamed_text(blocks[i]) {
            if block_pieces(blocks[i], draws[i]) is Some {
                split::law_pieces_are_the_text(t, draws[i], min, max);
            }
            if split::cuts_fall_between(encode_utf8(t), 0, min, max) {
                split::law_sound_cuts_succeed(t, draws[i], min, max);
            }
        }
    }
}

/// Whether the places in a message can be counted.
pub open spec fn fits(m: MessageView, pieces: Seq<Seq<Seq<char>>>) -> bool {
    &&& blocks_of(m).len() <= usize::MAX
    &&& forall|i: int| 0 <= i < pieces.len() ==> (#[trigger] pieces[i]).len() <= usize::MAX
}

impl DeltaView {
    /// Whether a stream stands at a place that there is.
    pub open spec fn wf(self) -> bool {
        let blocks = blocks_of(self.message);
        &&& has_pieces(blocks, self.pieces)
        &&& fits(self.message, self.pieces)
        &&& (self.partial is Assistant <==> self.message is Assistant)
        &&& match self.phase {
            DeltaPhase::Block(i) => i <= blocks.len(),
            DeltaPhase::Piece(i, j) => {
                &&& i < blocks.len()
                &&& streamed_text(blocks[i as int]) is Some
                &&& j < self.pieces[i as int].len()
            },
            _ => true,
        }
    }
}

/// A message of which nothing was streamed yet.
pub open spec fn unstreamed(m: MessageView) -> MessageView {
    match m {
        MessageView::Assistant(a) => MessageView::Assistant(
            AssistantView { content: Seq::empty(), stop_reason: Some("pending"@), ..a },
        ),
        _ => m,
    }
}

/// A stream that has not begun.
pub open spec fn fresh(m: MessageView, pieces: Seq<Seq<Seq<char>>>) -> DeltaView {
    DeltaView { message: m, pieces, partial: unstreamed(m), phase: DeltaPhase::Start }
}

/// What a step comes to: events, for how many tokens to wait before the next step,
/// and whether the stream ended. A stream that ends may end with a message of its
/// own.
pub struct DeltaStep {
    pub events: Vec<AssistantMessageEvent>,
    pub wait_tokens: Option<u64>,
    pub ended: bool,
    pub result: Option<AssistantMessage>,
}

#[verifier::ext_equal]
pub struct DeltaStepView {
    pub events: Seq<EventView>,
    pub wait_tokens: Option<u64>,
    pub ended: bool,
    pub result: Option<MessageView>,
}

impl View for DeltaStep {
    type V = DeltaStepView;

    open spec fn view(&self) -> DeltaStepView {
        DeltaStepView {
            events: views::all(self.events@),
            wait_tokens: self.wait_tokens,
            ended: self.ended,
            result: views::opt(self.result),
        }
    }
}

/// How many tokens to wait for before a piece: one at least.
pub open spec fn wait_for(piece: Seq<char>) -> u64 {
    let t = estimate::tokens_of(encode_utf8(piece).len());
    if t == 0 {
        1
    } else {
        t as u64
    }
}

fn wait_for_exec(piece: &str) -> (r: u64)
    ensures
        r == wait_for(piece@),
{
    let t: u64 = estimate_tokens(piece);
    if t == 0 {
        1
    } else {
        t
    }
}

/// The end of a stream that was cancelled.
pub open spec fn cut_short(partial: MessageView) -> DeltaStepView {
    DeltaStepView {
        events: seq![
            EventView::Error {
                reason: "aborted"@,
                error: content::error_text(content::aborted(partial)),
            },
        ],
        wait_tokens: None,
        ended: true,
        result: Some(content::aborted(partial)),
    }
}

/// The end of a stream whose blocks were all streamed.
pub open spec fn concluded(m: MessageView, now: i64) -> DeltaStepView {
    let stop = match m {
        MessageView::Assistant(a) => a.stop_reason,
        _ => None,
    };
    match stop {
        None => unexplained(m, now),
        Some(reason) => if reason == "pending"@ {
            unexplained(m, now)
        } else if reason == "error"@ || reason == "aborted"@ {
            DeltaStepView {
                events: seq![EventView::Error { reason, error: content::error_text(m) }],
                wait_tokens: None,
                ended: true,
                result: Some(m),
            }
        } else {
            DeltaStepView {
                events: seq![
                    EventView::Usage {
                        usage: match m {
                            MessageView::Assistant(a) => a.usage,
                            _ => types::no_usage(),
                        },
                    },
                    EventView::Done { reason, message: m },
                ],
                wait_tokens: None,
                ended: true,
                result: None,
            }
        },
    }
}

/// The end of a stream whose message does not say why it stopped.
pub open spec fn unexplained(m: MessageView, now: i64) -> DeltaStepView {
    let e = MessageView::Assistant(
        match m {
            MessageView::Assistant(a) => content::error_message_of(
                "Faux response ended without a stop reason"@,
                a.api,
                a.provider,
                views::or(a.model, ""@),
                now,
            ),
            _ => content::error_message_of(
                "Faux response ended without a stop reason"@,
                ""@,
                ""@,
                ""@,
                now,
            ),
        },
    );
    DeltaStepView {
        events: seq![EventView::Error { reason: "error"@, error: content::error_text(e) }],
        wait_tokens: None,
        ended: true,
        result: Some(e),
    }
}

/// A message with other content.
pub open spec fn with_blocks(m: MessageView, blocks: Seq<BlockView>) -> MessageView {
    match m {
        MessageView::Assistant(a) => MessageView::Assistant(AssistantView { content: blocks, ..a }),
        _ => m,
    }
}

/// A stream behind a step, and what the step comes to. Cancellation is heard before
/// the stream starts, before every block and before every piece.
pub open spec fn stepped(v: DeltaView, cancelled: bool, now: i64) -> (DeltaView, DeltaStepView) {
    let blocks = blocks_of(v.message);
    let going = DeltaStepView {
        events: Seq::empty(),
        wait_tokens: None,
        ended: false,
        result: None,
    };
    match v.phase {
        DeltaPhase::Done => (v, DeltaStepView { ended: true, ..going }),
        DeltaPhase::Start => if cancelled {
            (DeltaView { phase: DeltaPhase::Done, ..v }, cut_short(v.partial))
        } else {
            (
                DeltaView { phase: DeltaPhase::Block(0), ..v },
                DeltaStepView { events: seq![EventView::Start { partial: v.partial }], ..going },
            )
        },
        DeltaPhase::Block(i) => if i >= blocks.len() {
            (DeltaView { phase: DeltaPhase::Done, ..v }, concluded(v.message, now))
        } else if cancelled {
            (DeltaView { phase: DeltaPhase::Done, ..v }, cut_short(v.partial))
        } else {
            let b = blocks[i as int];
            if streamed_text(b) is Some {
                (
                    DeltaView {
                        phase: DeltaPhase::Piece(i, 0),
                        partial: with_blocks(v.partial, blocks_of(v.partial).push(opened(b))),
                        ..v
                    },
                    DeltaStepView {
                        events: seq![start_event(i as int, b)],
                        wait_tokens: Some(wait_for(v.pieces[i as int][0])),
                        ..going
                    },
                )
            } else {
                (DeltaView { phase: DeltaPhase::Block((i + 1) as usize), ..v }, going)
            }
        },
        DeltaPhase::Piece(i, j) => if cancelled {
            (DeltaView { phase: DeltaPhase::Done, ..v }, cut_short(v.partial))
        } else {
            let b = blocks[i as int];
            let piece = v.pieces[i as int][j as int];
            let partial = with_blocks(
                v.partial,
                grown(blocks_of(v.partial), i as int, b, piece),
            );
            let delta = delta_event(i as int, b, piece);
            if j + 1 < v.pieces[i as int].len() {
                (
                    DeltaView { phase: DeltaPhase::Piece(i, (j + 1) as usize), partial, ..v },
                    DeltaStepView {
                        events: seq![delta],
                        wait_tokens: Some(wait_for(v.pieces[i as int][j + 1])),
                        ..going
                    },
                )
            } else {
                (
                    DeltaView { phase: DeltaPhase::Block((i + 1) as usize), partial, ..v },
                    DeltaStepView { events: seq![delta, end_event(i as int, b)], ..going },
                )
            }
        },
    }
}

fn opened_exec(b: &ContentBlock) -> (r: ContentBlock)
    ensures
        r@ == opened(b@),
{
    match b {
        ContentBlock::Thinking { signature, .. } => ContentBlock::Thinking {
            thinking: String::new(),
            signature: clone_opt_text(signature),
        },
        ContentBlock::Text { .. } => ContentBlock::Text {
            text: String::new(),
            text_signature: None,
        },
        ContentBlock::ToolCall { id, name, .. } => ContentBlock::ToolCall {
            id: id.clone(),
            name: name.clone(),
            arguments: Json::object(),
        },
        other => clone_block(other),
    }
}

fn start_event_exec(index: usize, b: &ContentBlock) -> (r: AssistantMessageEvent)
    ensures
        r@ == start_event(index as int, b@),
{
    match b {
        ContentBlock::Thinking { .. } => AssistantMessageEvent::ThinkingStart,
        ContentBlock::ToolCall { id, name, .. } => AssistantMessageEvent::ToolcallStart {
            content_index: index,
            id: Some(id.clone()),
            name: Some(name.clone()),
        },
        _ => AssistantMessageEvent::TextStart,
    }
}

fn delta_event_exec(index: usize, b: &ContentBlock, piece: &str) -> (r: AssistantMessageEvent)
    ensures
        r@ == delta_event(index as int, b@, piece@),
{
    let delta: String = piece.to_owned();
    match b {
        ContentBlock::Thinking { .. } => AssistantMessageEvent::ThinkingDelta { delta },
        ContentBlock::ToolCall { .. } => AssistantMessageEvent::ToolcallDelta {
            content_index: index,
            delta,
        },
        _ => AssistantMessageEvent::TextDelta { delta },
    }
}

fn end_event_exec(index: usize, b: &ContentBlock) -> (r: AssistantMessageEvent)
    ensures
        r@ == end_event(index as int, b@),
{
    match b {
        ContentBlock::Thinking { signature, .. } => AssistantMessageEvent::ThinkingEnd {
            signature: clone_opt_text(signature),
        },
        ContentBlock::ToolCall { .. } => AssistantMessageEvent::ToolcallEnd {
            content_index: index,
            tool_call: clone_block(b),
        },
        _ => AssistantMessageEvent::TextEnd,
    }
}

fn end_with(event: AssistantMessageEvent, result: Option<AssistantMessage>) -> (r: DeltaStep)
    ensures
        r@ == (DeltaStepView {
            events: seq![event@],
            wait_tokens: None,
            ended: true,
            result: views::opt(result),
        }),
{
    let mut events: Vec<AssistantMessageEvent> = Vec::new();
    events.push(event);
    assert(views::all(events@) =~= seq![event@]);
    DeltaStep { events, wait_tokens: None, ended: true, result }
}

fn cut_short_exec(partial: &AssistantMessage) -> (r: DeltaStep)
    ensures
        r@ == cut_short(partial@),
{
    let m: AssistantMessage = create_aborted_message(partial.clone());
    let error: String = error_str(&m);
    end_with(AssistantMessageEvent::Error { reason: "aborted".to_owned(), error }, Some(m))
}

fn unexplained_exec(m: &AssistantMessage, now: i64) -> (r: DeltaStep)
    ensures
        r@ == unexplained(m@, now),
{
    let said: String = "Faux response ended without a stop reason".to_owned();
    let e: AssistantMessage = match m {
        Message::Assistant { api, provider, model, .. } => {
            let id: &str = match model {
                Some(s) => s.as_str(),
                None => "",
            };
            create_error_message(said, api.as_str(), provider.as_str(), id, now)
        },
        _ => create_error_message(said, "", "", "", now),
    };
    let error: String = error_str(&e);
    end_with(AssistantMessageEvent::Error { reason: "error".to_owned(), error }, Some(e))
}

fn concluded_exec(m: &AssistantMessage, now: i64) -> (r: DeltaStep)
    ensures
        r@ == concluded(m@, now),
{
    match m {
        Message::Assistant { stop_reason: Some(reason), usage, .. } => {
            if same_text(reason.as_str(), "pending") {
                unexplained_exec(m, now)
            } else if same_text(reason.as_str(), "error") || same_text(reason.as_str(), "aborted") {
                end_with(
                    AssistantMessageEvent::Error { reason: reason.clone(), error: error_str(m) },
                    Some(m.clone()),
                )
            } else {
                let mut events: Vec<AssistantMessageEvent> = Vec::new();
                events.push(AssistantMessageEvent::Usage { usage: usage.clone() });
                events.push(
                    AssistantMessageEvent::Done { reason: reason.clone(), message: m.clone() },
                );
                assert(views::all(events@) =~= concluded(m@, now).events);
                DeltaStep { events, wait_tokens: None, ended: true, result: None }
            }
        },
        _ => unexplained_exec(m, now),
    }
}

/// Draws the sizes of the pieces of every block.
pub fn draw_pieces(blocks: &Vec<ContentBlock>, min: usize, max: usize) -> (r: Vec<Vec<usize>>)
    requires
        1 <= min <= max,
        4 * max <= usize::MAX,
    ensures
        are_draws(views::all(blocks@), all_draws(r@), min as int, max as int),
        are_sizes(r@),
{
    let ghost all = views::all(blocks@);
    let mut out: Vec<Vec<usize>> = Vec::new();
    let mut i: usize = 0;
    while i < blocks.len()
        invariant
            1 <= min <= max,
            4 * max <= usize::MAX,
            i <= blocks@.len(),
            all == views::all(blocks@),
            out@.len() == i,
            are_sizes(out@),
            forall|k: int|
                0 <= k < i ==> match streamed_text(#[trigger] all[k]) {
                    Some(t) => split::are_draws(all_draws(out@)[k], t, min as int, max as int),
                    None => all_draws(out@)[k].len() == 0,
                },
        decreases blocks@.len() - i,
    {
        let ghost before = out@;
        let sizes: Vec<usize> = match streamed_text_exec(&blocks[i]) {
            Some(t) => draw_sizes(t.as_str(), min, max),
            None => Vec::new(),
        };
        let ghost drawn = sizes@;
        assert(blocks@[i as int]@ == all[i as int]);
        assert(match streamed_text(all[i as int]) {
            Some(t) => split::are_draws(drawn, t, min as int, max as int),
            None => drawn.len() == 0,
        });
        out.push(sizes);
        assert(forall|k: int| 0 <= k < i ==> #[trigger] all_draws(out@)[k] == all_draws(before)[k]);
        assert(all_draws(out@)[i as int] == drawn);
        assert(are_sizes(out@)) by {
            assert forall|k: int, j: int| 0 <= k < out@.len() && 0 <= j < out@[k]@.len() implies 1
                <= #[trigger] out@[k]@[j] && 4 * out@[k]@[j] <= usize::MAX by {
                if k < i {
                    assert(out@[k] == before[k]);
                } else {
                    assert(min <= drawn[j] <= max);
                }
            }
        }
        i = i + 1;
    }
    out
}

/// The pieces of every block, cut at given sizes; none where a cut parts a character.
pub fn message_pieces_at(blocks: &Vec<ContentBlock>, draws: &Vec<Vec<usize>>) -> (r: Option<
    Vec<Vec<String>>,
>)
    requires
        draws@.len() == blocks@.len(),
        are_sizes(draws@),
    ensures
        match r {
            Some(p) => pieces_at(views::all(blocks@), all_draws(draws@)) == Some(all_pieces(p@)),
            None => pieces_at(views::all(blocks@), all_draws(draws@)) is None,
        },
{
    let ghost all = views::all(blocks@);
    let ghost drawn = all_draws(draws@);
    let mut out: Vec<Vec<String>> = Vec::new();
    let mut i: usize = 0;
    while i < blocks.len()
        invariant
            draws@.len() == blocks@.len(),
            are_sizes(draws@),
            i <= blocks@.len(),
            all == views::all(blocks@),
            drawn == all_draws(draws@),
            out@.len() == i,
            forall|k: int|
                0 <= k < i ==> block_pieces(#[trigger] all[k], drawn[k]) == Some(
                    all_pieces(out@)[k],
                ),
        decreases blocks@.len() - i,
    {
        let ghost before = all_pieces(out@);
        assert(drawn[i as int] == draws@[i as int]@);
        assert(blocks@[i as int]@ == all[i as int]);
        let p: Vec<String> = match streamed_text_exec(&blocks[i]) {
            Some(t) => {
                assert forall|j: int| 0 <= j < draws@[i as int]@.len() implies 1
                    <= #[trigger] draws@[i as int]@[j] && 4 * draws@[i as int]@[j] <= usize::MAX by {}
                match split_at_sizes(t.as_str(), &draws[i]) {
                    Some(p) => p,
                    None => {
                        assert(block_pieces(all[i as int], drawn[i as int]) is None);
                        return None;
                    },
                }
            },
            None => {
                let none: Vec<String> = Vec::new();
                assert(views::all(none@) =~= Seq::<Seq<char>>::empty());
                none
            },
        };
        assert(block_pieces(all[i as int], drawn[i as int]) == Some(views::all(p@)));
        out.push(p);
        assert(forall|k: int| 0 <= k < i ==> #[trigger] all_pieces(out@)[k] == before[k]);
        assert(all_pieces(out@)[i as int] == views::all(p@));
        i = i + 1;
    }
    assert(pieces_at(all, drawn)->0 =~= all_pieces(out@));
    Some(out)
}

/// Makes a stream of a message, cut at sizes given for each of its blocks; none where a
/// cut parts a character.
pub fn stream_at_sizes(message: AssistantMessage, draws: &Vec<Vec<usize>>) -> (r: Option<
    DeltaStream,
>)
    requires
        draws@.len() == blocks_of(message@).len(),
        are_sizes(draws@),
    ensures
        match r {
            Some(s) => {
                &&& pieces_at(blocks_of(message@), all_draws(draws@)) == Some(s@.pieces)
                &&& s@ == fresh(message@, s@.pieces)
                &&& fits(message@, s@.pieces)
            },
            None => pieces_at(blocks_of(message@), all_draws(draws@)) is None,
        },
{
    let none: Vec<ContentBlock> = Vec::new();
    let blocks: &Vec<ContentBlock> = match &message {
        Message::Assistant { content, .. } => content,
        _ => &none,
    };
    assert(views::all(blocks@) =~= blocks_of(message@));
    match message_pieces_at(blocks, draws) {
        Some(p) => {
            let partial: AssistantMessage = message.clone().with_content(
                Vec::new(),
            ).with_stop_reason(Some("pending".to_owned()));
            assert(partial@ =~= unstreamed(message@));
            assert(blocks_of(message@).len() <= usize::MAX) by {
                assert(blocks.len() == blocks@.len());
            }
            let s: DeltaStream = DeltaStream {
                message,
                pieces: p,
                partial,
                phase: DeltaPhase::Start,
            };
            assert(s@ =~= fresh(message@, s@.pieces));
            assert(fits(message@, s@.pieces)) by {
                assert forall|i: int| 0 <= i < s@.pieces.len() implies (
                #[trigger] s@.pieces[i]).len() <= usize::MAX by {
                    assert(p@[i].len() == p@[i]@.len());
                }
            }
            Some(s)
        },
        None => None,
    }
}

/// Whether a message came to a stream by sizes that can be drawn: none where one of the
/// cuts parts a character.
pub open spec fn is_drawn_stream(
    m: MessageView,
    draws: Seq<Seq<usize>>,
    min: int,
    max: int,
    stream: Option<DeltaView>,
) -> bool {
    &&& are_draws(blocks_of(m), draws, min, max)
    &&& stream == match pieces_at(blocks_of(m), draws) {
        Some(p) => Some(fresh(m, p)),
        None => None,
    }
}

/// Whether a message came to a stream by some sizes that can be drawn.
pub open spec fn is_some_stream(m: MessageView, min: int, max: int, stream: Option<DeltaView>) -> bool {
    exists|draws: Seq<Seq<usize>>| #[trigger] is_drawn_stream(m, draws, min, max, stream)
}

/// Makes a stream of a message, cut into pieces of `min` to `max` tokens, each size drawn
/// at random; none where a drawn cut parts a character.
pub fn stream_with_deltas(message: AssistantMessage, min: usize, max: usize) -> (r: Option<
    DeltaStream,
>)
    requires
        1 <= min <= max,
        4 * max <= usize::MAX,
    ensures
        is_some_stream(message@, min as int, max as int, views::opt(r)),
        r matches Some(s) ==> is_cut(blocks_of(message@), s@.pieces, min as int, max as int)
            && s@.wf(),
        can_be_cut(blocks_of(message@), min as int, max as int) ==> r is Some,
{
    let none: Vec<ContentBlock> = Vec::new();
    let blocks: &Vec<ContentBlock> = match &message {
        Message::Assistant { content, .. } => content,
        _ => &none,
    };
    assert(views::all(blocks@) =~= blocks_of(message@));
    let draws: Vec<Vec<usize>> = draw_pieces(blocks, min, max);
    let r: Option<DeltaStream> = stream_at_sizes(message, &draws);
    proof {
        lemma_pieces_at_draws(blocks_of(message@), all_draws(draws@), min as int, max as int);
        assert(is_drawn_stream(
            message@,
            all_draws(draws@),
            min as int,
            max as int,
            views::opt(r),
        ));
    }
    r
}

impl DeltaStream {
    /// Goes one step, given whether the stream was cancelled and the time.
    pub fn step(&mut self, cancelled: bool, now: i64) -> (r: DeltaStep)
        requires
            old(self)@.wf(),
        ensures
            (final(self)@, r@) == stepped(old(self)@, cancelled, now),
            final(self)@.wf(),
    {
        let ghost v = self@;
        match self.phase {
            DeltaPhase::Done => {
                let events: Vec<AssistantMessageEvent> = Vec::new();
                assert(views::all(events@) =~= Seq::<EventView>::empty());
                DeltaStep { events, wait_tokens: None, ended: true, result: None }
            },
            DeltaPhase::Start => {
                if cancelled {
                    self.phase = DeltaPhase::Done;
                    return cut_short_exec(&self.partial);
                }
                self.phase = DeltaPhase::Block(0);
                let mut events: Vec<AssistantMessageEvent> = Vec::new();
                events.push(AssistantMessageEvent::Start { partial: self.partial.clone() });
                assert(views::all(events@) =~= seq![EventView::Start { partial: v.partial }]);
                DeltaStep { events, wait_tokens: None, ended: false, result: None }
            },
            DeltaPhase::Block(i) => self.block_step(i, cancelled, now),
            DeltaPhase::Piece(i, j) => self.piece_step(i, j, cancelled, now),
        }
    }

    fn block_step(&mut self, i: usize, cancelled: bool, now: i64) -> (r: DeltaStep)
        requires
            old(self)@.wf(),
            old(self)@.phase == DeltaPhase::Block(i),
        ensures
            (final(self)@, r@) == stepped(old(self)@, cancelled, now),
            final(self)@.wf(),
    {
        let ghost v = self@;
        let ghost blocks = blocks_of(v.message);
        let none: Vec<ContentBlock> = Vec::new();
        let content: &Vec<ContentBlock> = match &self.message {
            Message::Assistant { content, .. } => content,
            _ => &none,
        };
        assert(views::all(content@) =~= blocks);
        if i >= content.len() {
            self.phase = DeltaPhase::Done;
            return concluded_exec(&self.message, now);
        }
        if cancelled {
            self.phase = DeltaPhase::Done;
            return cut_short_exec(&self.partial);
        }
        let b: &ContentBlock = &content[i];
        let ghost bv = blocks[i as int];
        assert(b@ == bv);
        let mut events: Vec<AssistantMessageEvent> = Vec::new();
        let streamed: bool = match b {
            ContentBlock::Thinking { .. } => true,
            ContentBlock::Text { .. } => true,
            ContentBlock::ToolCall { .. } => true,
            _ => false,
        };
        if streamed {
            assert(streamed_text(bv) is Some);
            let open: ContentBlock = opened_exec(b);
            events.push(start_event_exec(i, b));
            match &mut self.partial {
                Message::Assistant { content: so_far, .. } => {
                    so_far.push(open);
                },
                _ => {},
            }
            assert(self.partial@ =~= with_blocks(v.partial, blocks_of(v.partial).push(opened(bv))));
            let wait: u64 = wait_for_exec(self.pieces[i][0].as_str());
            assert(v.pieces[i as int][0] == self.pieces@[i as int]@[0]@);
            self.phase = DeltaPhase::Piece(i, 0);
            assert(views::all(events@) =~= seq![start_event(i as int, bv)]);
            DeltaStep { events, wait_tokens: Some(wait), ended: false, result: None }
        } else {
            self.phase = DeltaPhase::Block(i + 1);
            assert(views::all(events@) =~= Seq::<EventView>::empty());
            DeltaStep { events, wait_tokens: None, ended: false, result: None }
        }
    }

    fn piece_step(&mut self, i: usize, j: usize, cancelled: bool, now: i64) -> (r: DeltaStep)
        requires
            old(self)@.wf(),
            old(self)@.phase == DeltaPhase::Piece(i, j),
        ensures
            (final(self)@, r@) == stepped(old(self)@, cancelled, now),
            final(self)@.wf(),
    {
        let ghost v = self@;
        let ghost blocks = blocks_of(v.message);
        if cancelled {
            self.phase = DeltaPhase::Done;
            return cut_short_exec(&self.partial);
        }
        let none: Vec<ContentBlock> = Vec::new();
        let content: &Vec<ContentBlock> = match &self.message {
            Message::Assistant { content, .. } => content,
            _ => &none,
        };
        assert(views::all(content@) =~= blocks);
        let b: &ContentBlock = &content[i];
        let ghost bv = blocks[i as int];
        assert(b@ == bv);
        assert(v.pieces[i as int].len() == self.pieces@[i as int]@.len());
        let last_block: usize = content.len() - 1;
        let last_piece: usize = self.pieces[i].len() - 1;
        assert(i <= last_block && j <= last_piece);
        let piece: &str = self.pieces[i][j].as_str();
        assert(piece@ == v.pieces[i as int][j as int]);
        let mut events: Vec<AssistantMessageEvent> = Vec::new();
        events.push(delta_event_exec(i, b, piece));
        match b {
            ContentBlock::Thinking { .. } => {
                match &mut self.partial {
                    Message::Assistant { content: so_far, .. } => {
                        append_thinking(so_far, i, piece);
                    },
                    _ => {},
                }
            },
            ContentBlock::Text { .. } => {
                match &mut self.partial {
                    Message::Assistant { content: so_far, .. } => {
                        append_text(so_far, i, piece);
                    },
                    _ => {},
                }
            },
            _ => {},
        }
        assert(self.partial@ =~= with_blocks(
            v.partial,
            grown(blocks_of(v.partial), i as int, bv, piece@),
        ));
        if j < last_piece {
            let wait: u64 = wait_for_exec(self.pieces[i][j + 1].as_str());
            assert(v.pieces[i as int][j + 1] == self.pieces@[i as int]@[j + 1]@);
            self.phase = DeltaPhase::Piece(i, j + 1);
            assert(views::all(events@) =~= seq![
                delta_event(i as int, bv, v.pieces[i as int][j as int]),
            ]);
            DeltaStep { events, wait_tokens: Some(wait), ended: false, result: None }
        } else {
            events.push(end_event_exec(i, b));
            self.phase = DeltaPhase::Block(i + 1);
            assert(views::all(events@) =~= seq![
                delta_event(i as int, bv, v.pieces[i as int][j as int]),
                end_event(i as int, bv),
            ]);
            DeltaStep { events, wait_tokens: None, ended: false, result: None }
        }
    }
}

/// The events of a block that is not cut short.
pub open spec fn block_events(index: int, b: BlockView, pieces: Seq<Seq<char>>) -> Seq<EventView> {
    if streamed_text(b) is Some {
        seq![start_event(index, b)] + pieces.map_values(
            |p: Seq<char>| delta_event(index, b, p),
        ) + seq![end_event(index, b)]
    } else {
        Seq::empty()
    }
}

/// The events of the blocks from one on.
pub open spec fn events_from(
    index: int,
    blocks: Seq<BlockView>,
    pieces: Seq<Seq<Seq<char>>>,
) -> Seq<EventView>
    decreases blocks.len() - index,
{
    if index < 0 || index >= blocks.len() {
        Seq::empty()
    } else {
        block_events(index, blocks[index], pieces[index]) + events_from(index + 1, blocks, pieces)
    }
}

/// How far a stream is from its end.
pub open spec fn steps_left(v: DeltaView) -> (int, int) {
    let n = blocks_of(v.message).len() as int;
    match v.phase {
        DeltaPhase::Start => (2 * n + 2, 0),
        DeltaPhase::Block(i) => (2 * (n - i) + 1, 0),
        DeltaPhase::Piece(i, j) => (2 * (n - i), v.pieces[i as int].len() - j),
        DeltaPhase::Done => (0, 0),
    }
}

/// All the events of a stream that nobody cancels, taken step by step.
pub open spec fn uncancelled(v: DeltaView, now: i64) -> Seq<EventView>
    decreases steps_left(v).0, steps_left(v).1,
    when v.wf()
{
    if v.phase is Done {
        Seq::empty()
    } else {
        let (next, step) = stepped(v, false, now);
        step.events + uncancelled(next, now)
    }
}

/// The events that a stream still owes.
spec fn owed(v: DeltaView, now: i64) -> Seq<EventView> {
    let blocks = blocks_of(v.message);
    let end = concluded(v.message, now).events;
    match v.phase {
        DeltaPhase::Start => seq![EventView::Start { partial: v.partial }] + events_from(
            0,
            blocks,
            v.pieces,
        ) + end,
        DeltaPhase::Block(i) => events_from(i as int, blocks, v.pieces) + end,
        DeltaPhase::Piece(i, j) => {
            let b = blocks[i as int];
            v.pieces[i as int].skip(j as int).map_values(
                |p: Seq<char>| delta_event(i as int, b, p),
            ) + seq![end_event(i as int, b)] + events_from(i + 1, blocks, v.pieces) + end
        },
        DeltaPhase::Done => Seq::empty(),
    }
}

proof fn lemma_uncancelled(v: DeltaView, now: i64)
    requires
        v.wf(),
    ensures
        uncancelled(v, now) == owed(v, now),
    decreases steps_left(v).0, steps_left(v).1,
{
    let blocks = blocks_of(v.message);
    let (next, step) = stepped(v, false, now);
    match v.phase {
        DeltaPhase::Done => {},
        DeltaPhase::Start => {
            lemma_uncancelled(next, now);
            assert(uncancelled(v, now) =~= owed(v, now));
        },
        DeltaPhase::Block(i) => {
            if i >= blocks.len() {
                assert(owed(v, now) =~= step.events);
                assert(uncancelled(next, now) =~= Seq::empty());
                assert(uncancelled(v, now) =~= owed(v, now));
            } else {
                let b = blocks[i as int];
                if streamed_text(b) is Some {
                    assert(v.pieces[i as int].len() > 0);
                    lemma_uncancelled(next, now);
                    assert(v.pieces[i as int].skip(0) =~= v.pieces[i as int]);
                    assert(uncancelled(v, now) =~= owed(v, now));
                } else {
                    lemma_uncancelled(next, now);
                    assert(uncancelled(v, now) =~= owed(v, now));
                }
            }
        },
        DeltaPhase::Piece(i, j) => {
            let b = blocks[i as int];
            let all = v.pieces[i as int];
            let f = |p: Seq<char>| delta_event(i as int, b, p);
            assert(all.skip(j as int).map_values(f) =~= seq![f(all[j as int])] + all.skip(
                j + 1,
            ).map_values(f));
            lemma_uncancelled(next, now);
            if j + 1 < all.len() {
                assert(uncancelled(v, now) =~= owed(v, now));
            } else {
                assert(all.skip(j + 1).map_values(f) =~= Seq::empty());
                assert(uncancelled(v, now) =~= owed(v, now));
            }
        },
    }
}

/// A stream that nobody cancels opens, streams every block in order, each with a
/// start, its pieces and an end, and concludes as its message says.
pub proof fn law_uncancelled_stream_is_complete(
    m: MessageView,
    pieces: Seq<Seq<Seq<char>>>,
    now: i64,
)
    requires
        has_pieces(blocks_of(m), pieces),
        fits(m, pieces),
    ensures
        uncancelled(fresh(m, pieces), now) == seq![
            EventView::Start { partial: unstreamed(m) },
        ] + events_from(0, blocks_of(m), pieces) + concluded(m, now).events,
{
    lemma_uncancelled(fresh(m, pieces), now);
}

/// The text that a piece of an event carries.
pub open spec fn delta_of(e: EventView) -> Seq<char> {
    match e {
        EventView::TextDelta { delta } => delta,
        EventView::ThinkingDelta { delta } => delta,
        EventView::ToolcallDelta { delta, .. } => delta,
        _ => Seq::empty(),
    }
}

/// The texts that events carry, one after the other.
pub open spec fn deltas_of(events: Seq<EventView>) -> Seq<char> {
    split::concatenated(events.map_values(|e: EventView| delta_of(e)))
}

proof fn lemma_concatenated_add(a: Seq<Seq<char>>, b: Seq<Seq<char>>)
    ensures
        split::concatenated(a + b) == split::concatenated(a) + split::concatenated(b),
    decreases b.len(),
{
    if b.len() == 0 {
        assert(a + b =~= a);
        assert(split::concatenated(a + b) =~= split::concatenated(a) + split::concatenated(b));
    } else {
        lemma_concatenated_add(a, b.drop_last());
        assert((a + b).drop_last() =~= a + b.drop_last());
        assert(split::concatenated(a + b) =~= split::concatenated(a) + split::concatenated(b));
    }
}

/// The deltas of a block, one after the other, are its text, and those of a tool
/// call are its arguments.
pub proof fn law_deltas_add_up(
    index: int,
    b: BlockView,
    pieces: Seq<Seq<char>>,
    min: int,
    max: int,
)
    requires
        match streamed_text(b) {
            Some(t) => split::is_split(pieces, t, min, max),
            None => false,
        },
    ensures
        Some(deltas_of(block_events(index, b, pieces))) == streamed_text(b),
{
    let events = block_events(index, b, pieces);
    let empty: Seq<Seq<char>> = seq![Seq::empty()];
    assert(events.map_values(|e: EventView| delta_of(e)) =~= empty + pieces + empty);
    lemma_concatenated_add(empty + pieces, empty);
    lemma_concatenated_add(empty, pieces);
    assert(empty.drop_last() =~= Seq::<Seq<char>>::empty());
    assert(split::concatenated(empty) =~= Seq::<char>::empty()) by {
        reveal_with_fuel(split::concatenated, 2);
    }
    assert(deltas_of(events) =~= split::concatenated(pieces));
}

/// A stream that is cancelled before its last block is done ends at once, with an
/// error and with what was streamed.
pub proof fn law_cancelled_stream_ends(v: DeltaView, now: i64)
    requires
        v.wf(),
        !(v.phase is Done),
        v.phase != DeltaPhase::Block(blocks_of(v.message).len() as usize),
    ensures
        stepped(v, true, now) == (
            DeltaView { phase: DeltaPhase::Done, ..v },
            cut_short(v.partial),
        ),
{
}

} // verus!
