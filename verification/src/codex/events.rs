//! The projection of service events onto a message and its stream events.
use std::collections::HashMap;
use vstd::prelude::*;
use crate::codex::errors;
use crate::codex::errors::{CodexErrorView, CodexStreamError};
use crate::codex::output;
use crate::codex::output::{
    append_text, append_thinking, content_block, finish_text, finish_thinking,
    set_custom_tool_input, set_tool_arguments, AssistantOutput,
};
use crate::codex::signature;
use crate::codex::signature::encode_text_signature_v1;
use crate::cost;
use crate::cost::{calculate_cost, resolve_codex_service_tier, service_tier_cost_multiplier};
use crate::dict;
use crate::dict::Dict;
use crate::json;
use crate::json::{clone_json, Json, JsonView};
use crate::json_parse;
use crate::json_parse::parse_partial_json;
use crate::json_text;
use crate::json_text::print_json;
use crate::text;
use crate::text::{concat, concat3, join, same_text, strip_prefix};
use crate::types::{
    AssistantMessageEvent, AssistantView, BlockView, ContentBlock, EventView, MessageView, Model,
    ModelView, Usage, UsageCostView, UsageView,
};
use crate::views;
use crate::views::{clone_opt_text, opt_owned, opt_str};

verus! {

broadcast use {crate::views::group_views, vstd::std_specs::hash::group_hash_axioms};

/// What an item of the output is.
#[derive(Debug, Clone, Copy, PartialEq, Eq, Structural)]
pub enum SlotKind {
    Thinking,
    Text,
    ToolCall,
    Other,
}

/// An item of the output that is not complete yet.
pub struct Slot {
    pub kind: SlotKind,
    /// Where its block stands in the content.
    pub content_index: usize,
    /// The arguments or the input of a tool call, as far as they came.
    pub partial_json: Option<String>,
    /// Whether it is a call of a tool with a grammar.
    pub custom_input: bool,
}

#[verifier::ext_equal]
pub struct SlotView {
    pub kind: SlotKind,
    pub content_index: int,
    pub partial_json: Option<Seq<char>>,
    pub custom_input: bool,
}

impl View for Slot {
    type V = SlotView;

    open spec fn view(&self) -> SlotView {
        SlotView {
            kind: self.kind,
            content_index: self.content_index as int,
            partial_json: views::opt(self.partial_json),
            custom_input: self.custom_input,
        }
    }
}

impl Clone for Slot {
    fn clone(&self) -> (r: Slot)
        ensures
            r == *self,
    {
        Slot {
            kind: self.kind,
            content_index: self.content_index,
            partial_json: clone_opt_text(&self.partial_json),
            custom_input: self.custom_input,
        }
    }
}

/// The state of a projection.
pub struct Projector {
    pub output: AssistantOutput,
    slots: HashMap<u64, Slot>,
    saw_tool_call: bool,
    started: bool,
    /// The stream events so far.
    pub emitted: Vec<AssistantMessageEvent>,
}

/// What the state of a projection means.
#[verifier::ext_equal]
pub struct ProjectorView {
    pub output: AssistantView,
    pub slots: Map<u64, SlotView>,
    pub saw_tool_call: bool,
    pub started: bool,
    pub emitted: Seq<EventView>,
}

impl View for Projector {
    type V = ProjectorView;

    closed spec fn view(&self) -> ProjectorView {
        ProjectorView {
            output: self.output@,
            slots: self.slots@.map_values(|s: Slot| s@),
            saw_tool_call: self.saw_tool_call,
            started: self.started,
            emitted: views::all(self.emitted@),
        }
    }
}

/// What a projection is made against: the model, the service tier that the
/// request asked for, and the input properties of tools with a grammar.
pub struct ProjectionEnv {
    pub model: ModelView,
    pub service_tier: Option<Seq<char>>,
    pub properties: Map<Seq<char>, Seq<char>>,
}

/// What an event leads to.
pub enum StepOutcome {
    /// More events are to come.
    Continue,
    /// The response is complete.
    Finished,
    Failed(CodexStreamError),
}

pub enum StepOutcomeView {
    Continue,
    Finished,
    Failed(CodexErrorView),
}

impl View for StepOutcome {
    type V = StepOutcomeView;

    open spec fn view(&self) -> StepOutcomeView {
        match *self {
            StepOutcome::Continue => StepOutcomeView::Continue,
            StepOutcome::Finished => StepOutcomeView::Finished,
            StepOutcome::Failed(e) => StepOutcomeView::Failed(e@),
        }
    }
}

impl ProjectorView {
    pub open spec fn emit(self, event: EventView) -> ProjectorView {
        ProjectorView { emitted: self.emitted.push(event), ..self }
    }

    pub open spec fn with_content(self, content: Seq<BlockView>) -> ProjectorView {
        ProjectorView { output: AssistantView { content, ..self.output }, ..self }
    }

    pub open spec fn with_slot(self, index: u64, slot: SlotView) -> ProjectorView {
        ProjectorView { slots: self.slots.insert(index, slot), ..self }
    }

    pub open spec fn without_slot(self, index: u64) -> ProjectorView {
        ProjectorView { slots: self.slots.remove(index), ..self }
    }

    /// The open slot at `index`, where it is of this kind.
    pub open spec fn slot_of(self, index: u64, kind: SlotKind, custom: bool) -> Option<SlotView> {
        if self.slots.contains_key(index) && self.slots[index].kind == kind
            && self.slots[index].custom_input == custom {
            Some(self.slots[index])
        } else {
            None
        }
    }
}

/// The item of the output that an event speaks of.
pub open spec fn output_index(event: JsonView) -> u64 {
    views::or(event.field_unsigned("output_index"@), 0u64)
}

/// The text in field `key`, empty where there is none.
pub open spec fn text_or_empty(json: JsonView, key: Seq<char>) -> Seq<char> {
    views::or(json.field_text(key), Seq::empty())
}

fn output_index_exec(event: &Json) -> (r: u64)
    ensures
        r == output_index(event@),
{
    match event.field_u64("output_index") {
        Some(n) => n,
        None => 0,
    }
}

fn text_or_empty_exec(json: &Json, key: &str) -> (r: String)
    ensures
        r@ == text_or_empty(json@, key@),
{
    match json.field_str(key) {
        Some(s) => s.to_owned(),
        None => String::new(),
    }
}

/// The slot of an item without a block.
pub open spec fn other_slot() -> SlotView {
    SlotView {
        kind: SlotKind::Other,
        content_index: usize::MAX as int,
        partial_json: None,
        custom_input: false,
    }
}

/// The id of a tool call: its call id and its item id.
pub open spec fn combined_id(item: JsonView) -> Seq<char> {
    text_or_empty(item, "call_id"@) + "|"@ + text_or_empty(item, "id"@)
}

/// The slot that a new item gets when the content holds `n` blocks.
pub open spec fn new_slot(item: JsonView, n: int) -> SlotView {
    let kind = text_or_empty(item, "type"@);
    if kind == "reasoning"@ {
        SlotView {
            kind: SlotKind::Thinking,
            content_index: n,
            partial_json: None,
            custom_input: false,
        }
    } else if kind == "message"@ {
        SlotView {
            kind: SlotKind::Text,
            content_index: n,
            partial_json: None,
            custom_input: false,
        }
    } else if kind == "function_call"@ {
        SlotView {
            kind: SlotKind::ToolCall,
            content_index: n,
            partial_json: Some(text_or_empty(item, "arguments"@)),
            custom_input: false,
        }
    } else if kind == "custom_tool_call"@ {
        SlotView {
            kind: SlotKind::ToolCall,
            content_index: n,
            partial_json: Some(text_or_empty(item, "input"@)),
            custom_input: true,
        }
    } else {
        other_slot()
    }
}

/// The block that a new item gets, if it gets one.
pub open spec fn new_block(item: JsonView, properties: Map<Seq<char>, Seq<char>>) -> Option<
    BlockView,
> {
    let kind = text_or_empty(item, "type"@);
    let name = text_or_empty(item, "name"@);
    if kind == "reasoning"@ {
        Some(BlockView::Thinking { thinking: Seq::empty(), signature: None })
    } else if kind == "message"@ {
        Some(BlockView::Text { text: Seq::empty(), text_signature: None })
    } else if kind == "function_call"@ {
        Some(
            BlockView::ToolCall {
                id: combined_id(item),
                name,
                arguments: JsonView::object(),
            },
        )
    } else if kind == "custom_tool_call"@ {
        Some(
            BlockView::ToolCall {
                id: combined_id(item),
                name,
                arguments: JsonView::object().with(
                    if properties.contains_key(name) {
                        properties[name]
                    } else {
                        "input"@
                    },
                    json::jtext(text_or_empty(item, "input"@)),
                ),
            },
        )
    } else {
        None
    }
}

/// The event that reports a new block at `index`.
pub open spec fn block_started(block: BlockView, index: int) -> EventView {
    match block {
        BlockView::Thinking { .. } => EventView::ThinkingStart,
        BlockView::ToolCall { id, name, .. } => EventView::ToolcallStart {
            content_index: index,
            id: Some(id),
            name: Some(name),
        },
        _ => EventView::TextStart,
    }
}

/// The state behind a new item.
#[verifier::opaque]
pub open spec fn item_added(
    p: ProjectorView,
    index: u64,
    item: JsonView,
    properties: Map<Seq<char>, Seq<char>>,
) -> ProjectorView {
    let n = p.output.content.len() as int;
    let q = match new_block(item, properties) {
        Some(block) => {
            let r = p.with_content(p.output.content.push(block)).emit(block_started(block, n));
            ProjectorView { saw_tool_call: p.saw_tool_call || block is ToolCall, ..r }
        },
        None => p,
    };
    q.with_slot(index, new_slot(item, n))
}

/// The texts in field `text` of the items in field `key`.
pub open spec fn item_texts(items: Seq<JsonView>) -> Seq<Seq<char>>
    decreases items.len(),
{
    if items.len() == 0 {
        Seq::empty()
    } else {
        let before = item_texts(items.drop_last());
        match items.last().field_text("text"@) {
            Some(t) => before.push(t),
            None => before,
        }
    }
}

/// The texts of the items in field `key`, a blank line between them.
pub open spec fn joined_texts(item: JsonView, key: Seq<char>) -> Seq<char> {
    match item.field_items(key) {
        Some(items) => text::joined(item_texts(items), "\n\n"@),
        None => Seq::empty(),
    }
}

fn item_texts_exec(items: &Vec<Json>) -> (r: Vec<String>)
    ensures
        views::all(r@) == item_texts(views::all(items@)),
{
    let ghost all = views::all(items@);
    let mut out: Vec<String> = Vec::new();
    let mut i: usize = 0;
    while i < items.len()
        invariant
            i <= items@.len(),
            all == views::all(items@),
            views::all(out@) == item_texts(all.take(i as int)),
        decreases items@.len() - i,
    {
        proof {
            views::lemma_take_step(all, i as int);
        }
        if let Some(t) = items[i].field_str("text") {
            out.push(t.to_owned());
        }
        i = i + 1;
    }
    proof {
        views::lemma_take_all(all);
    }
    out
}

/// The texts of the items in field `key`, a blank line between them.
pub fn string_array_join(item: &Json, key: &str) -> (r: String)
    ensures
        r@ == joined_texts(item@, key@),
{
    match item.field_array(key) {
        Some(items) => {
            let parts: Vec<String> = item_texts_exec(items);
            join(&parts, "\n\n")
        },
        None => String::new(),
    }
}

/// The texts and refusals of the parts of a message, one after the other.
pub open spec fn part_texts(parts: Seq<JsonView>) -> Seq<char>
    decreases parts.len(),
{
    if parts.len() == 0 {
        Seq::empty()
    } else {
        let last = parts.last();
        part_texts(parts.drop_last()) + views::or(
            views::first_of(last.field_text("text"@), last.field_text("refusal"@)),
            Seq::empty(),
        )
    }
}

/// The text of a complete message item.
pub open spec fn message_text(item: JsonView) -> Seq<char> {
    match item.field_items("content"@) {
        Some(parts) => part_texts(parts),
        None => Seq::empty(),
    }
}

fn message_text_exec(item: &Json) -> (r: String)
    ensures
        r@ == message_text(item@),
{
    match item.field_array("content") {
        Some(parts) => {
            let ghost all = views::all(parts@);
            let mut out: String = String::new();
            let mut i: usize = 0;
            while i < parts.len()
                invariant
                    i <= parts@.len(),
                    all == views::all(parts@),
                    out@ == part_texts(all.take(i as int)),
                decreases parts@.len() - i,
            {
                proof {
                    views::lemma_take_step(all, i as int);
                }
                let ghost before = out@;
                match parts[i].field_str("text") {
                    Some(t) => {
                        out.append(t);
                    },
                    None => {
                        if let Some(t) = parts[i].field_str("refusal") {
                            out.append(t);
                        }
                    },
                }
                assert(out@ =~= part_texts(all.take(i + 1)));
                i = i + 1;
            }
            proof {
                views::lemma_take_all(all);
            }
            out
        },
        None => String::new(),
    }
}

/// The signature of a complete message item, where it has an id.
pub open spec fn item_signature(item: JsonView) -> Option<Seq<char>> {
    let id = text_or_empty(item, "id"@);
    if id.len() > 0 {
        Some(signature::signature_text(id, item.field_text("phase"@)))
    } else {
        None
    }
}

fn item_signature_exec(item: &Json) -> (r: Option<String>)
    ensures
        views::opt(r) == item_signature(item@),
{
    match item.field_str("id") {
        Some(id) => if id.is_empty() {
            None
        } else {
            Some(encode_text_signature_v1(id, item.field_str("phase")))
        },
        None => None,
    }
}

impl Projector {
    /// The start of a projection onto `output`. Where `started` holds, the
    /// event that opens the stream was sent already.
    pub fn new(output: AssistantOutput, started: bool) -> (r: Projector)
        ensures
            r@ == (ProjectorView {
                output: output@,
                slots: Map::empty(),
                saw_tool_call: false,
                started,
                emitted: Seq::empty(),
            }),
    {
        let slots: HashMap<u64, Slot> = HashMap::new();
        let r = Projector { output, slots, saw_tool_call: false, started, emitted: Vec::new() };
        assert(r@.slots =~= Map::empty());
        r
    }

    /// Whether the event that opens the stream was sent.
    pub fn has_started(&self) -> (r: bool)
        ensures
            r == self@.started,
    {
        self.started
    }

    fn emit(&mut self, event: AssistantMessageEvent)
        ensures
            final(self)@ == old(self)@.emit(event@),
    {
        self.emitted.push(event);
    }

    fn put_slot(&mut self, index: u64, slot: Slot)
        ensures
            final(self)@ == old(self)@.with_slot(index, slot@),
    {
        let ghost before = self@;
        self.slots.insert(index, slot);
        assert(self@.slots =~= before.slots.insert(index, slot@));
    }

    fn drop_slot(&mut self, index: u64)
        ensures
            final(self)@ == old(self)@.without_slot(index),
    {
        let ghost before = self@;
        self.slots.remove(&index);
        assert(self@.slots =~= before.slots.remove(index));
    }

    fn find_slot(&self, index: u64, kind: SlotKind, custom: bool) -> (r: Option<Slot>)
        ensures
            views::opt(r) == self@.slot_of(index, kind, custom),
    {
        match self.slots.get(&index) {
            Some(s) => if s.kind == kind && s.custom_input == custom {
                Some(s.clone())
            } else {
                None
            },
            None => None,
        }
    }

    /// Opens a slot for a new item.
    fn create_slot(&mut self, index: u64, item: &Json, properties: &Dict<String>) -> (r: Slot)
        ensures
            final(self)@ == item_added(
                old(self)@,
                index,
                item@,
                dict::texts(properties@),
            ),
            r@ == new_slot(item@, old(self)@.output.content.len() as int),
    {
        proof {
            reveal(item_added);
        }
        let ghost before = self@;
        let n: usize = self.output.content.len();
        let kind: String = text_or_empty_exec(item, "type");
        let slot: Slot = if same_text(kind.as_str(), "reasoning") {
            self.output.content.push(
                ContentBlock::Thinking { thinking: String::new(), signature: None },
            );
            self.emit(AssistantMessageEvent::ThinkingStart);
            Slot {
                kind: SlotKind::Thinking,
                content_index: n,
                partial_json: None,
                custom_input: false,
            }
        } else if same_text(kind.as_str(), "message") {
            self.output.content.push(
                ContentBlock::Text { text: String::new(), text_signature: None },
            );
            self.emit(AssistantMessageEvent::TextStart);
            Slot {
                kind: SlotKind::Text,
                content_index: n,
                partial_json: None,
                custom_input: false,
            }
        } else if same_text(kind.as_str(), "function_call") {
            let id: String = combined_id_exec(item);
            let name: String = text_or_empty_exec(item, "name");
            self.output.content.push(
                ContentBlock::ToolCall {
                    id: id.clone(),
                    name: name.clone(),
                    arguments: Json::object(),
                },
            );
            self.saw_tool_call = true;
            self.emit(
                AssistantMessageEvent::ToolcallStart {
                    content_index: n,
                    id: Some(id),
                    name: Some(name),
                },
            );
            Slot {
                kind: SlotKind::ToolCall,
                content_index: n,
                partial_json: Some(text_or_empty_exec(item, "arguments")),
                custom_input: false,
            }
        } else if same_text(kind.as_str(), "custom_tool_call") {
            let id: String = combined_id_exec(item);
            let name: String = text_or_empty_exec(item, "name");
            let input: String = text_or_empty_exec(item, "input");
            let arguments: Json = match properties.get_text(name.as_str()) {
                Some(property) => Json::object().with(property, Json::text(input.as_str())),
                None => Json::object().with("input", Json::text(input.as_str())),
            };
            self.output.content.push(
                ContentBlock::ToolCall { id: id.clone(), name: name.clone(), arguments },
            );
            self.saw_tool_call = true;
            self.emit(
                AssistantMessageEvent::ToolcallStart {
                    content_index: n,
                    id: Some(id),
                    name: Some(name),
                },
            );
            Slot {
                kind: SlotKind::ToolCall,
                content_index: n,
                partial_json: Some(input),
                custom_input: true,
            }
        } else {
            Slot {
                kind: SlotKind::Other,
                content_index: usize::MAX,
                partial_json: None,
                custom_input: false,
            }
        };
        self.put_slot(index, slot.clone());
        assert(self@ =~= item_added(before, index, item@, dict::texts(properties@)));
        slot
    }
}

fn combined_id_exec(item: &Json) -> (r: String)
    ensures
        r@ == combined_id(item@),
{
    let call_id: String = text_or_empty_exec(item, "call_id");
    let id: String = text_or_empty_exec(item, "id");
    concat3(call_id.as_str(), "|", id.as_str())
}


/// The state behind a piece of thinking.
#[verifier::opaque]
pub open spec fn thinking_delta(p: ProjectorView, index: u64, delta: Seq<char>) -> ProjectorView {
    match p.slot_of(index, SlotKind::Thinking, false) {
        Some(slot) => p.with_content(
            output::thinking_appended(p.output.content, slot.content_index, delta),
        ).emit(EventView::ThinkingDelta { delta }),
        None => p,
    }
}

/// The state behind a piece of text.
#[verifier::opaque]
pub open spec fn text_delta(p: ProjectorView, index: u64, delta: Seq<char>) -> ProjectorView {
    match p.slot_of(index, SlotKind::Text, false) {
        Some(slot) => p.with_content(
            output::text_appended(p.output.content, slot.content_index, delta),
        ).emit(EventView::TextDelta { delta }),
        None => p,
    }
}

/// The content with the arguments at `index` set to what can be read of
/// `partial`.
pub open spec fn arguments_read(content: Seq<BlockView>, index: int, partial: Seq<char>) -> Seq<
    BlockView,
> {
    match json_parse::partial_value(partial) {
        Some(v) => output::arguments_set(content, index, v),
        None => content,
    }
}

/// The state behind a piece of the arguments or of the input of a tool call.
#[verifier::opaque]
pub open spec fn call_delta(p: ProjectorView, index: u64, custom: bool, delta: Seq<char>) -> ProjectorView {
    match p.slot_of(index, SlotKind::ToolCall, custom) {
        Some(slot) => {
            let partial = views::or(slot.partial_json, Seq::empty()) + delta;
            let content = if custom {
                output::custom_input_set(p.output.content, slot.content_index, partial)
            } else {
                arguments_read(p.output.content, slot.content_index, partial)
            };
            p.with_content(content).with_slot(
                index,
                SlotView { partial_json: Some(partial), ..slot },
            ).emit(EventView::ToolcallDelta { content_index: slot.content_index, delta })
        },
        None => p,
    }
}

/// The state behind the whole arguments or the whole input of a tool call: what
/// they hold beyond what came piece by piece is reported as one more piece.
#[verifier::opaque]
pub open spec fn call_done(p: ProjectorView, index: u64, custom: bool, whole: Seq<char>) -> ProjectorView {
    match p.slot_of(index, SlotKind::ToolCall, custom) {
        Some(slot) => {
            let content = if custom {
                output::custom_input_set(p.output.content, slot.content_index, whole)
            } else {
                arguments_read(p.output.content, slot.content_index, whole)
            };
            let q = p.with_content(content).with_slot(
                index,
                SlotView { partial_json: Some(whole), ..slot },
            );
            match text::after_prefix(whole, views::or(slot.partial_json, Seq::empty())) {
                Some(extra) => if extra.len() > 0 {
                    q.emit(
                        EventView::ToolcallDelta {
                            content_index: slot.content_index,
                            delta: extra,
                        },
                    )
                } else {
                    q
                },
                None => q,
            }
        },
        None => p,
    }
}

/// The state behind a complete reasoning item.
#[verifier::opaque]
pub open spec fn reasoning_done(p: ProjectorView, index: u64, item: JsonView) -> ProjectorView {
    match p.slot_of(index, SlotKind::Thinking, false) {
        Some(slot) => {
            let sig = json_text::text_of_json(item);
            p.with_content(
                output::thinking_finished(
                    p.output.content,
                    slot.content_index,
                    joined_texts(item, "summary"@),
                    joined_texts(item, "content"@),
                    sig,
                ),
            ).emit(EventView::ThinkingEnd { signature: Some(sig) }).without_slot(index)
        },
        None => p,
    }
}

/// The state behind a complete message item; one that was never opened is
/// opened first.
#[verifier::opaque]
pub open spec fn message_done(
    p: ProjectorView,
    index: u64,
    item: JsonView,
    properties: Map<Seq<char>, Seq<char>>,
) -> ProjectorView {
    let (q, slot) = match p.slot_of(index, SlotKind::Text, false) {
        Some(slot) => (p, slot),
        None => (
            item_added(p, index, item, properties),
            new_slot(item, p.output.content.len() as int),
        ),
    };
    if slot.kind == SlotKind::Text {
        q.with_content(
            output::text_finished(
                q.output.content,
                slot.content_index,
                message_text(item),
                item_signature(item),
            ),
        ).emit(EventView::TextEnd).without_slot(index)
    } else {
        q
    }
}

/// The state behind a complete tool-call item.
#[verifier::opaque]
pub open spec fn call_item_done(p: ProjectorView, index: u64, custom: bool, item: JsonView) -> ProjectorView {
    match p.slot_of(index, SlotKind::ToolCall, custom) {
        Some(slot) => {
            let content = if custom {
                output::custom_input_set(
                    p.output.content,
                    slot.content_index,
                    views::or(
                        views::first_of(item.field_text("input"@), slot.partial_json),
                        Seq::empty(),
                    ),
                )
            } else {
                arguments_read(
                    p.output.content,
                    slot.content_index,
                    views::or(
                        views::first_of(item.field_text("arguments"@), slot.partial_json),
                        "{}"@,
                    ),
                )
            };
            p.with_content(content).emit(
                EventView::ToolcallEnd {
                    content_index: slot.content_index,
                    tool_call: output::block_at(content, slot.content_index),
                },
            ).without_slot(index)
        },
        None => p,
    }
}

/// The state behind a complete item.
#[verifier::opaque]
pub open spec fn item_done(
    p: ProjectorView,
    index: u64,
    item: JsonView,
    properties: Map<Seq<char>, Seq<char>>,
) -> ProjectorView {
    let kind = text_or_empty(item, "type"@);
    if kind == "reasoning"@ {
        reasoning_done(p, index, item)
    } else if kind == "message"@ {
        message_done(p, index, item, properties)
    } else if kind == "function_call"@ {
        call_item_done(p, index, false, item)
    } else if kind == "custom_tool_call"@ {
        call_item_done(p, index, true, item)
    } else {
        p
    }
}

impl Projector {
    fn on_thinking_delta(&mut self, index: u64, delta: &str)
        ensures
            final(self)@ == thinking_delta(old(self)@, index, delta@),
    {
        proof {
            reveal(thinking_delta);
        }
        if let Some(slot) = self.find_slot(index, SlotKind::Thinking, false) {
            append_thinking(&mut self.output.content, slot.content_index, delta);
            self.emit(AssistantMessageEvent::ThinkingDelta { delta: delta.to_owned() });
        }
    }

    fn on_text_delta(&mut self, index: u64, delta: &str)
        ensures
            final(self)@ == text_delta(old(self)@, index, delta@),
    {
        proof {
            reveal(text_delta);
        }
        if let Some(slot) = self.find_slot(index, SlotKind::Text, false) {
            append_text(&mut self.output.content, slot.content_index, delta);
            self.emit(AssistantMessageEvent::TextDelta { delta: delta.to_owned() });
        }
    }

    fn read_arguments(&mut self, index: usize, partial: &str)
        ensures
            final(self)@ == old(self)@.with_content(
                arguments_read(old(self)@.output.content, index as int, partial@),
            ),
    {
        if let Some(v) = parse_partial_json(partial) {
            set_tool_arguments(&mut self.output.content, index, v);
        }
    }

    fn on_call_delta(&mut self, index: u64, custom: bool, delta: &str)
        ensures
            final(self)@ == call_delta(old(self)@, index, custom, delta@),
    {
        proof {
            reveal(call_delta);
        }
        if let Some(slot) = self.find_slot(index, SlotKind::ToolCall, custom) {
            let partial: String = match &slot.partial_json {
                Some(s) => concat(s.as_str(), delta),
                None => delta.to_owned(),
            };
            assert(partial@ =~= views::or(slot@.partial_json, Seq::empty()) + delta@);
            let at: usize = slot.content_index;
            if custom {
                set_custom_tool_input(&mut self.output.content, at, partial.as_str());
            } else {
                self.read_arguments(at, partial.as_str());
            }
            self.put_slot(
                index,
                Slot {
                    kind: slot.kind,
                    content_index: at,
                    partial_json: Some(partial),
                    custom_input: slot.custom_input,
                },
            );
            self.emit(
                AssistantMessageEvent::ToolcallDelta {
                    content_index: at,
                    delta: delta.to_owned(),
                },
            );
        }
    }

    fn on_call_done(&mut self, index: u64, custom: bool, whole: &str)
        ensures
            final(self)@ == call_done(old(self)@, index, custom, whole@),
    {
        proof {
            reveal(call_done);
        }
        if let Some(slot) = self.find_slot(index, SlotKind::ToolCall, custom) {
            let at: usize = slot.content_index;
            if custom {
                set_custom_tool_input(&mut self.output.content, at, whole);
            } else {
                self.read_arguments(at, whole);
            }
            let previous: String = match &slot.partial_json {
                Some(s) => s.clone(),
                None => String::new(),
            };
            assert(previous@ =~= views::or(slot@.partial_json, Seq::empty()));
            self.put_slot(
                index,
                Slot {
                    kind: slot.kind,
                    content_index: at,
                    partial_json: Some(whole.to_owned()),
                    custom_input: slot.custom_input,
                },
            );
            if let Some(extra) = strip_prefix(whole, previous.as_str()) {
                if !extra.as_str().is_empty() {
                    self.emit(
                        AssistantMessageEvent::ToolcallDelta { content_index: at, delta: extra },
                    );
                }
            }
        }
    }

    fn on_reasoning_done(&mut self, index: u64, item: &Json)
        ensures
            final(self)@ == reasoning_done(old(self)@, index, item@),
    {
        proof {
            reveal(reasoning_done);
        }
        if let Some(slot) = self.find_slot(index, SlotKind::Thinking, false) {
            let summary: String = string_array_join(item, "summary");
            let body: String = string_array_join(item, "content");
            let sig: String = print_json(item);
            finish_thinking(
                &mut self.output.content,
                slot.content_index,
                summary,
                body,
                sig.as_str(),
            );
            self.emit(AssistantMessageEvent::ThinkingEnd { signature: Some(sig) });
            self.drop_slot(index);
        }
    }

    fn on_message_done(&mut self, index: u64, item: &Json, properties: &Dict<String>)
        ensures
            final(self)@ == message_done(old(self)@, index, item@, dict::texts(properties@)),
    {
        proof {
            reveal(message_done);
        }
        let slot: Slot = match self.find_slot(index, SlotKind::Text, false) {
            Some(s) => s,
            None => self.create_slot(index, item, properties),
        };
        if slot.kind == SlotKind::Text {
            let full: String = message_text_exec(item);
            let sig: Option<String> = item_signature_exec(item);
            finish_text(&mut self.output.content, slot.content_index, full, sig);
            self.emit(AssistantMessageEvent::TextEnd);
            self.drop_slot(index);
        }
    }

    fn on_call_item_done(&mut self, index: u64, custom: bool, item: &Json)
        ensures
            final(self)@ == call_item_done(old(self)@, index, custom, item@),
    {
        proof {
            reveal(call_item_done);
        }
        if let Some(slot) = self.find_slot(index, SlotKind::ToolCall, custom) {
            let at: usize = slot.content_index;
            let given: Option<&str> = if custom {
                item.field_str("input")
            } else {
                item.field_str("arguments")
            };
            let whole: String = match given {
                Some(s) => s.to_owned(),
                None => match &slot.partial_json {
                    Some(s) => s.clone(),
                    None => if custom {
                        String::new()
                    } else {
                        "{}".to_owned()
                    },
                },
            };
            if custom {
                set_custom_tool_input(&mut self.output.content, at, whole.as_str());
            } else {
                self.read_arguments(at, whole.as_str());
            }
            let block: ContentBlock = content_block(&self.output.content, at);
            self.emit(AssistantMessageEvent::ToolcallEnd { content_index: at, tool_call: block });
            self.drop_slot(index);
        }
    }

    fn on_item_done(&mut self, index: u64, item: &Json, properties: &Dict<String>)
        ensures
            final(self)@ == item_done(old(self)@, index, item@, dict::texts(properties@)),
    {
        proof {
            reveal(item_done);
        }
        let kind: String = text_or_empty_exec(item, "type");
        if same_text(kind.as_str(), "reasoning") {
            self.on_reasoning_done(index, item);
        } else if same_text(kind.as_str(), "message") {
            self.on_message_done(index, item, properties);
        } else if same_text(kind.as_str(), "function_call") {
            self.on_call_item_done(index, false, item);
        } else if same_text(kind.as_str(), "custom_tool_call") {
            self.on_call_item_done(index, true, item);
        }
    }
}

/// Whether a status is one that the service is known to give.
pub open spec fn is_known_status(s: Seq<char>) -> bool {
    s == "completed"@ || s == "incomplete"@ || s == "failed"@ || s == "cancelled"@ || s
        == "queued"@ || s == "in_progress"@
}

/// A status, where it is a known one.
pub open spec fn known_status(status: Option<Seq<char>>) -> Option<Seq<char>> {
    match status {
        Some(s) => if is_known_status(s) {
            Some(s)
        } else {
            None
        },
        None => None,
    }
}

/// Drops a status that the service is not known to give.
pub fn normalize_codex_status(status: Option<&str>) -> (r: Option<String>)
    ensures
        views::opt(r) == known_status(views::opt(status)),
{
    match status {
        Some(s) => if same_text(s, "completed") || same_text(s, "incomplete") || same_text(
            s,
            "failed",
        ) || same_text(s, "cancelled") || same_text(s, "queued") || same_text(s, "in_progress") {
            Some(s.to_owned())
        } else {
            None
        },
        None => None,
    }
}

/// `a - b`, but no less than zero.
pub open spec fn minus(a: u64, b: u64) -> u64 {
    if a >= b {
        (a - b) as u64
    } else {
        0
    }
}

/// The counts that a response reports. The service counts cached and
/// cache-writing tokens as input, the library does not.
pub open spec fn reported_counts(usage: UsageView, u: JsonView) -> UsageView {
    let cached = views::or(u.unsigned2("input_tokens_details"@, "cached_tokens"@), 0u64);
    let written = views::or(u.unsigned2("input_tokens_details"@, "cache_write_tokens"@), 0u64);
    UsageView {
        input: minus(minus(views::or(u.field_unsigned("input_tokens"@), 0u64), cached), written),
        output: views::or(u.field_unsigned("output_tokens"@), 0u64),
        cache_read: cached,
        cache_write: written,
        reasoning: views::or(u.unsigned2("output_tokens_details"@, "reasoning_tokens"@), 0u64),
        total_tokens: views::or(u.field_unsigned("total_tokens"@), 0u64),
        ..usage
    }
}

/// The usage of a complete response, with its cost.
pub open spec fn response_usage(usage: UsageView, response: JsonView, env: ProjectionEnv) -> UsageView {
    let counts = match response.get("usage"@) {
        Some(u) => reported_counts(usage, u),
        None => usage,
    };
    let tier = cost::charged_tier(response.field_text("service_tier"@), env.service_tier);
    UsageView {
        cost: UsageCostView {
            scale: cost::tier_scale(env.model.id, tier),
            ..cost::cost_of(env.model.cost_rates, counts)
        },
        ..counts
    }
}

/// Why a response stopped and what went wrong, by its status.
pub open spec fn stop_of(response: JsonView) -> Result<
    (Seq<char>, Option<Seq<char>>),
    CodexErrorView,
> {
    let reason = response.text2("incomplete_details"@, "reason"@);
    match response.field_text("status"@) {
        None => Ok(("stop"@, None)),
        Some(s) => if s == "completed"@ {
            Ok(("stop"@, None))
        } else if s == "incomplete"@ {
            if reason == Some("max_output_tokens"@) {
                Ok(("length"@, None))
            } else {
                Ok(
                    (
                        "error"@,
                        Some(
                            match reason {
                                Some(r) => "Response incomplete: "@ + r,
                                None => "Response incomplete without a provider reason"@,
                            },
                        ),
                    ),
                )
            }
        } else if s == "failed"@ || s == "cancelled"@ {
            Ok(("error"@, None))
        } else if s == "in_progress"@ || s == "queued"@ {
            Ok(("stop"@, None))
        } else {
            Err(errors::other_error("Unhandled stop reason: "@ + s))
        },
    }
}

/// The stop reason that is reported: a stop behind a tool call is a tool use.
pub open spec fn reported_stop(reason: Seq<char>, saw_tool_call: bool) -> Seq<char> {
    if reason == "stop"@ && saw_tool_call {
        "toolUse"@
    } else {
        reason
    }
}

/// The state behind a complete response, and what was wrong with it.
#[verifier::opaque]
pub open spec fn finalized(p: ProjectorView, response: JsonView, env: ProjectionEnv) -> (
    ProjectorView,
    Option<CodexErrorView>,
) {
    let usage = response_usage(p.output.usage, response, env);
    let output = AssistantView {
        response_id: views::first_of(response.field_text("id"@), p.output.response_id),
        usage,
        ..p.output
    };
    let q = (ProjectorView { output, ..p }).emit(EventView::Usage { usage });
    match stop_of(response) {
        Ok((reason, error_message)) => (
            ProjectorView {
                output: AssistantView {
                    stop_reason: Some(reported_stop(reason, p.saw_tool_call)),
                    error_message,
                    ..output
                },
                ..q
            },
            None,
        ),
        Err(e) => (q, Some(e)),
    }
}

fn or_zero(o: Option<u64>) -> (r: u64)
    ensures
        r == views::or(o, 0u64),
{
    match o {
        Some(n) => n,
        None => 0,
    }
}

fn minus_exec(a: u64, b: u64) -> (r: u64)
    ensures
        r == minus(a, b),
{
    if a >= b {
        a - b
    } else {
        0
    }
}

fn response_usage_exec(
    usage: &Usage,
    response: &Json,
    model: &Model,
    service_tier: Option<&str>,
) -> (r: Usage)
    ensures
        forall|env: ProjectionEnv|
            env.model == model@ && env.service_tier == views::opt(service_tier) ==> r@
                == #[trigger] response_usage(usage@, response@, env),
{
    let mut out: Usage = usage.clone();
    if let Some(u) = response.get("usage") {
        let cached: u64 = or_zero(u.u64_2("input_tokens_details", "cached_tokens"));
        let written: u64 = or_zero(u.u64_2("input_tokens_details", "cache_write_tokens"));
        let input: u64 = or_zero(u.field_u64("input_tokens"));
        out.input = minus_exec(minus_exec(input, cached), written);
        out.output = or_zero(u.field_u64("output_tokens"));
        out.cache_read = cached;
        out.cache_write = written;
        out.reasoning = or_zero(u.u64_2("output_tokens_details", "reasoning_tokens"));
        out.total_tokens = or_zero(u.field_u64("total_tokens"));
    }
    let tier: Option<String> = resolve_codex_service_tier(
        response.field_str("service_tier"),
        service_tier,
    );
    let mut cost = calculate_cost(model, &out);
    cost.scale = service_tier_cost_multiplier(model.id.as_str(), opt_str(&tier));
    out.cost = cost;
    out
}

fn stop_of_exec(response: &Json) -> (r: Result<(String, Option<String>), CodexStreamError>)
    ensures
        match (r, stop_of(response@)) {
            (Ok(a), Ok(b)) => a.0@ == b.0 && views::opt(a.1) == b.1,
            (Err(a), Err(b)) => a@ == b,
            _ => false,
        },
{
    match response.field_str("status") {
        None => Ok(("stop".to_owned(), None)),
        Some(s) => {
            if same_text(s, "completed") {
                Ok(("stop".to_owned(), None))
            } else if same_text(s, "incomplete") {
                match response.str2("incomplete_details", "reason") {
                    Some(reason) => if same_text(reason, "max_output_tokens") {
                        Ok(("length".to_owned(), None))
                    } else {
                        Ok(("error".to_owned(), Some(concat("Response incomplete: ", reason))))
                    },
                    None => Ok(
                        (
                            "error".to_owned(),
                            Some("Response incomplete without a provider reason".to_owned()),
                        ),
                    ),
                }
            } else if same_text(s, "failed") || same_text(s, "cancelled") {
                Ok(("error".to_owned(), None))
            } else if same_text(s, "in_progress") || same_text(s, "queued") {
                Ok(("stop".to_owned(), None))
            } else {
                Err(CodexStreamError::other(concat("Unhandled stop reason: ", s)))
            }
        },
    }
}

impl Projector {
    /// Takes a complete response in.
    pub fn finalize_response(
        &mut self,
        response: &Json,
        model: &Model,
        service_tier: Option<&str>,
    ) -> (r: Result<(), CodexStreamError>)
        ensures
            forall|env: ProjectionEnv|
                env.model == model@ && env.service_tier == views::opt(service_tier) ==> {
                    let (state, error) = #[trigger] finalized(old(self)@, response@, env);
                    &&& final(self)@ == state
                    &&& match error {
                        Some(e) => r is Err && r->Err_0@ == e,
                        None => r is Ok,
                    }
                },
    {
        proof {
            reveal(finalized);
        }
        if let Some(id) = response.field_str("id") {
            self.output.response_id = Some(id.to_owned());
        }
        let usage: Usage = response_usage_exec(&self.output.usage, response, model, service_tier);
        self.output.usage = usage.clone();
        self.emit(AssistantMessageEvent::Usage { usage });
        match stop_of_exec(response) {
            Ok((reason, error_message)) => {
                let reported: String = if same_text(reason.as_str(), "stop") && self.saw_tool_call {
                    "toolUse".to_owned()
                } else {
                    reason
                };
                self.output.stop_reason = Some(reported);
                self.output.error_message = error_message;
                Ok(())
            },
            Err(e) => Err(e),
        }
    }
}


/// The failure that an `error` event reports.
pub open spec fn reported_error(event: JsonView) -> CodexErrorView {
    let nested = match event.get("error"@) {
        Some(JsonView::Object(m)) => JsonView::Object(m),
        _ => JsonView::Null,
    };
    let code = views::first_of(event.field_text("code"@), nested.field_text("code"@));
    let message = views::first_of(event.field_text("message"@), nested.field_text("message"@));
    errors::api_error(
        "Codex error: "@ + views::or(
            views::first_of(message, code),
            json_text::text_of_json(event),
        ),
        code,
    )
}

fn reported_error_exec(event: &Json) -> (r: CodexStreamError)
    ensures
        r@ == reported_error(event@),
{
    let nothing = Json::Null;
    let nested: &Json = match event.get("error") {
        Some(e) => if e.is_object() {
            e
        } else {
            &nothing
        },
        None => &nothing,
    };
    let code: Option<&str> = match event.field_str("code") {
        Some(s) => Some(s),
        None => nested.field_str("code"),
    };
    let message: Option<&str> = match event.field_str("message") {
        Some(s) => Some(s),
        None => nested.field_str("message"),
    };
    let said: String = match message {
        Some(s) => s.to_owned(),
        None => match code {
            Some(s) => s.to_owned(),
            None => print_json(event),
        },
    };
    CodexStreamError::api(concat("Codex error: ", said.as_str()), opt_owned(code))
}

/// The failure that a `response.failed` event reports.
pub open spec fn failed_error(event: JsonView) -> CodexErrorView {
    let error = views::or(event.get2("response"@, "error"@), JsonView::Null);
    let code = error.field_text("code"@);
    errors::api_error(
        views::or(views::first_of(error.field_text("message"@), code), "Codex response failed"@),
        code,
    )
}

fn failed_error_exec(event: &Json) -> (r: CodexStreamError)
    ensures
        r@ == failed_error(event@),
{
    let nothing = Json::Null;
    let error: &Json = match event.get2("response", "error") {
        Some(e) => e,
        None => &nothing,
    };
    let code: Option<&str> = error.field_str("code");
    let message: String = match error.field_str("message") {
        Some(s) => s.to_owned(),
        None => match code {
            Some(s) => s.to_owned(),
            None => "Codex response failed".to_owned(),
        },
    };
    CodexStreamError::api(message, opt_owned(code))
}

/// Whether a type is that of an event that ends a response.
pub open spec fn is_terminal_type(kind: Seq<char>) -> bool {
    kind == "response.done"@ || kind == "response.completed"@ || kind == "response.incomplete"@
}

/// The response that a terminal event carries, its status dropped where it is
/// not a known one.
pub open spec fn terminal_response(event: JsonView) -> JsonView {
    let response = views::or(event.get("response"@), JsonView::Null);
    match known_status(response.field_text("status"@)) {
        Some(s) => response.with("status"@, json::jtext(s)),
        None => response.without("status"@),
    }
}

/// The state and the outcome behind a terminal event.
#[verifier::opaque]
pub open spec fn terminal(p: ProjectorView, event: JsonView, env: ProjectionEnv) -> (
    ProjectorView,
    StepOutcomeView,
) {
    let response = views::or(event.get("response"@), JsonView::Null);
    let q = ProjectorView {
        output: AssistantView {
            end_turn: views::first_of(response.field_boolean("end_turn"@), p.output.end_turn),
            ..p.output
        },
        ..p
    };
    let (state, error) = finalized(q, terminal_response(event), env);
    (
        state,
        match error {
            Some(e) => StepOutcomeView::Failed(e),
            None => StepOutcomeView::Finished,
        },
    )
}

/// The state behind an event that neither ends nor fails the response.
#[verifier::opaque]
pub open spec fn progressed(
    p: ProjectorView,
    kind: Seq<char>,
    event: JsonView,
    properties: Map<Seq<char>, Seq<char>>,
) -> ProjectorView {
    let index = output_index(event);
    let item = views::or(event.get("item"@), JsonView::Null);
    let delta = text_or_empty(event, "delta"@);
    if kind == "response.created"@ {
        ProjectorView {
            output: AssistantView {
                response_id: views::first_of(event.text2("response"@, "id"@), p.output.response_id),
                ..p.output
            },
            ..p
        }
    } else if kind == "response.output_item.added"@ {
        item_added(p, index, item, properties)
    } else if kind == "response.reasoning_summary_text.delta"@ || kind
        == "response.reasoning_text.delta"@ {
        thinking_delta(p, index, delta)
    } else if kind == "response.reasoning_summary_part.done"@ {
        thinking_delta(p, index, "\n\n"@)
    } else if kind == "response.output_text.delta"@ || kind == "response.refusal.delta"@ {
        text_delta(p, index, delta)
    } else if kind == "response.function_call_arguments.delta"@ {
        call_delta(p, index, false, delta)
    } else if kind == "response.function_call_arguments.done"@ {
        call_done(p, index, false, text_or_empty(event, "arguments"@))
    } else if kind == "response.custom_tool_call_input.delta"@ {
        call_delta(p, index, true, delta)
    } else if kind == "response.custom_tool_call_input.done"@ {
        call_done(p, index, true, text_or_empty(event, "input"@))
    } else if kind == "response.output_item.done"@ {
        item_done(p, index, item, properties)
    } else {
        p
    }
}

/// The state with the stream open: its first event is the message as it stands.
pub open spec fn opened(p: ProjectorView) -> ProjectorView {
    if p.started {
        p
    } else {
        (ProjectorView { started: true, ..p }).emit(
            EventView::Start { partial: MessageView::Assistant(p.output) },
        )
    }
}

/// The state and the outcome behind an event. One without a type, or of an
/// unknown type, changes nothing but that the latter opens the stream; one that
/// reports a failure does not open it.
#[verifier::opaque]
pub open spec fn step(p: ProjectorView, event: JsonView, env: ProjectionEnv) -> (
    ProjectorView,
    StepOutcomeView,
) {
    let kind = text_or_empty(event, "type"@);
    if kind.len() == 0 {
        (p, StepOutcomeView::Continue)
    } else if kind == "error"@ {
        (p, StepOutcomeView::Failed(reported_error(event)))
    } else if kind == "response.failed"@ {
        (p, StepOutcomeView::Failed(failed_error(event)))
    } else if is_terminal_type(kind) {
        terminal(opened(p), event, env)
    } else {
        (progressed(opened(p), kind, event, env.properties), StepOutcomeView::Continue)
    }
}

impl Projector {
    fn open(&mut self)
        ensures
            final(self)@ == opened(old(self)@),
    {
        if !self.started {
            self.started = true;
            let partial = self.output.to_message();
            self.emit(AssistantMessageEvent::Start { partial });
        }
    }

    fn on_terminal(&mut self, event: &Json, model: &Model, service_tier: Option<&str>) -> (r:
        StepOutcome)
        ensures
            forall|env: ProjectionEnv|
                env.model == model@ && env.service_tier == views::opt(service_tier) ==> (
                final(self)@,
                r@,
                ) == #[trigger] terminal(old(self)@, event@, env),
    {
        proof {
            reveal(terminal);
        }
        let mut response: Json = match event.get("response") {
            Some(v) => clone_json(v),
            None => Json::Null,
        };
        if let Some(b) = response.field_bool("end_turn") {
            self.output.end_turn = Some(b);
        }
        match normalize_codex_status(response.field_str("status")) {
            Some(s) => {
                response.set("status", Json::string(s));
            },
            None => {
                response = response.without("status");
            },
        }
        assert(response@ == terminal_response(event@));
        match self.finalize_response(&response, model, service_tier) {
            Ok(()) => StepOutcome::Finished,
            Err(e) => StepOutcome::Failed(e),
        }
    }

    fn on_progress(&mut self, kind: &str, event: &Json, properties: &Dict<String>)
        ensures
            final(self)@ == progressed(
                old(self)@,
                kind@,
                event@,
                dict::texts(properties@),
            ),
    {
        proof {
            reveal(progressed);
        }
        let index: u64 = output_index_exec(event);
        let nothing = Json::Null;
        let item: &Json = match event.get("item") {
            Some(i) => i,
            None => &nothing,
        };
        let delta: String = text_or_empty_exec(event, "delta");
        if same_text(kind, "response.created") {
            if let Some(id) = event.str2("response", "id") {
                self.output.response_id = Some(id.to_owned());
            }
        } else if same_text(kind, "response.output_item.added") {
            let _ = self.create_slot(index, item, properties);
        } else if same_text(kind, "response.reasoning_summary_text.delta") || same_text(
            kind,
            "response.reasoning_text.delta",
        ) {
            self.on_thinking_delta(index, delta.as_str());
        } else if same_text(kind, "response.reasoning_summary_part.done") {
            self.on_thinking_delta(index, "\n\n");
        } else if same_text(kind, "response.output_text.delta") || same_text(
            kind,
            "response.refusal.delta",
        ) {
            self.on_text_delta(index, delta.as_str());
        } else if same_text(kind, "response.function_call_arguments.delta") {
            self.on_call_delta(index, false, delta.as_str());
        } else if same_text(kind, "response.function_call_arguments.done") {
            let whole: String = text_or_empty_exec(event, "arguments");
            self.on_call_done(index, false, whole.as_str());
        } else if same_text(kind, "response.custom_tool_call_input.delta") {
            self.on_call_delta(index, true, delta.as_str());
        } else if same_text(kind, "response.custom_tool_call_input.done") {
            let whole: String = text_or_empty_exec(event, "input");
            self.on_call_done(index, true, whole.as_str());
        } else if same_text(kind, "response.output_item.done") {
            self.on_item_done(index, item, properties);
        }
    }

    /// Takes one service event in.
    pub fn step(
        &mut self,
        event: &Json,
        model: &Model,
        service_tier: Option<&str>,
        properties: &Dict<String>,
    ) -> (r: StepOutcome)
        ensures
            (final(self)@, r@) == step(
                old(self)@,
                event@,
                (ProjectionEnv {
                    model: model@,
                    service_tier: views::opt(service_tier),
                    properties: dict::texts(properties@),
                }),
            ),
    {
        proof {
            reveal(step);
        }
        let ghost env = ProjectionEnv {
            model: model@,
            service_tier: views::opt(service_tier),
            properties: dict::texts(properties@),
        };
        let kind: String = text_or_empty_exec(event, "type");
        if kind.as_str().is_empty() {
            return StepOutcome::Continue;
        }
        if same_text(kind.as_str(), "error") {
            return StepOutcome::Failed(reported_error_exec(event));
        }
        if same_text(kind.as_str(), "response.failed") {
            return StepOutcome::Failed(failed_error_exec(event));
        }
        self.open();
        let ghost mid = self@;
        if same_text(kind.as_str(), "response.done") || same_text(
            kind.as_str(),
            "response.completed",
        ) || same_text(kind.as_str(), "response.incomplete") {
            let r = self.on_terminal(event, model, service_tier);
            assert((self@, r@) == terminal(mid, event@, env));
            return r;
        }
        self.on_progress(kind.as_str(), event, properties);
        StepOutcome::Continue
    }
}


/// One thing that comes out of the wire: an event, or a failure to get one.
pub enum WireItem {
    Event(Json),
    Failure(CodexStreamError),
}

pub enum WireItemView {
    Event(JsonView),
    Failure(CodexErrorView),
}

impl View for WireItem {
    type V = WireItemView;

    open spec fn view(&self) -> WireItemView {
        match *self {
            WireItem::Event(e) => WireItemView::Event(e@),
            WireItem::Failure(e) => WireItemView::Failure(e@),
        }
    }
}

/// The state and the outcome behind everything that comes out of the wire, up
/// to the first terminal event or failure.
pub open spec fn run(p: ProjectorView, items: Seq<WireItemView>, env: ProjectionEnv) -> (
    ProjectorView,
    Option<CodexErrorView>,
)
    decreases items.len(),
{
    if items.len() == 0 {
        (p, Some(ended_early()))
    } else {
        match items[0] {
            WireItemView::Failure(e) => (p, Some(e)),
            WireItemView::Event(event) => {
                let (q, outcome) = step(p, event, env);
                match outcome {
                    StepOutcomeView::Continue => run(q, items.drop_first(), env),
                    StepOutcomeView::Finished => (q, None),
                    StepOutcomeView::Failed(e) => (q, Some(e)),
                }
            },
        }
    }
}

/// The failure of a stream that ends before its response does.
pub open spec fn ended_early() -> CodexErrorView {
    errors::other_error("OpenAI Responses stream ended before a terminal response event"@)
}

/// The failure of a stream that ends before its response does.
pub fn stream_ended_error() -> (r: CodexStreamError)
    ensures
        r@ == ended_early(),
{
    CodexStreamError::other(
        "OpenAI Responses stream ended before a terminal response event".to_owned(),
    )
}

/// Projects everything that comes out of the wire.
pub fn process_codex_events(
    projector: &mut Projector,
    items: Vec<WireItem>,
    model: &Model,
    service_tier: Option<&str>,
    properties: &Dict<String>,
) -> (r: Result<(), CodexStreamError>)
    ensures
        ({
            let (state, error) = run(
                old(projector)@,
                views::all(items@),
                ProjectionEnv {
                    model: model@,
                    service_tier: views::opt(service_tier),
                    properties: dict::texts(properties@),
                },
            );
            &&& final(projector)@ == state
            &&& match error {
                Some(e) => r is Err && r->Err_0@ == e,
                None => r is Ok,
            }
        }),
{
    let ghost env = ProjectionEnv {
        model: model@,
        service_tier: views::opt(service_tier),
        properties: dict::texts(properties@),
    };
    let ghost want = run(projector@, views::all(items@), env);
    let mut rest: Vec<WireItem> = items;
    while rest.len() > 0
        invariant
            env == (ProjectionEnv {
                model: model@,
                service_tier: views::opt(service_tier),
                properties: dict::texts(properties@),
            }),
            want == run(old(projector)@, views::all(items@), env),
            run(projector@, views::all(rest@), env) == want,
        decreases rest@.len(),
    {
        let ghost before = rest@;
        let item = rest.remove(0);
        assert(views::all(rest@) =~= views::all(before).drop_first());
        assert(views::all(before)[0] == item@);
        match item {
            WireItem::Failure(e) => {
                return Err(e);
            },
            WireItem::Event(event) => {
                match projector.step(&event, model, service_tier, properties) {
                    StepOutcome::Continue => {},
                    StepOutcome::Finished => {
                        return Ok(());
                    },
                    StepOutcome::Failed(e) => {
                        return Err(e);
                    },
                }
            },
        }
    }
    Err(stream_ended_error())
}

} // verus!
