//! What holds of every projection.
use vstd::prelude::*;
use crate::codex::events;
use crate::codex::events::{ProjectionEnv, ProjectorView, SlotKind, SlotView};
use crate::codex::output;
use crate::codex::signature;
use crate::cost;
use crate::json;
use crate::json::JsonView;
use crate::json_parse;
use crate::json_text;
use crate::keys;
use crate::text;
use crate::types::{BlockView, CostScale, EventView, MessageView};
use crate::views;

verus! {

/// Whether an open slot points at a block of its kind.
pub open spec fn slot_fits(slot: SlotView, content: Seq<BlockView>) -> bool {
    let i = slot.content_index;
    match slot.kind {
        SlotKind::Thinking => 0 <= i < content.len() && content[i] is Thinking,
        SlotKind::Text => 0 <= i < content.len() && content[i] is Text,
        SlotKind::ToolCall => 0 <= i < content.len() && content[i] is ToolCall,
        SlotKind::Other => true,
    }
}

/// Whether every open slot points at a block of its kind, and no two of them at
/// the same block.
pub open spec fn is_sound(p: ProjectorView) -> bool {
    &&& forall|k: u64| #[trigger]
        p.slots.contains_key(k) ==> slot_fits(p.slots[k], p.output.content)
    &&& forall|j: u64, k: u64| #[trigger]
        p.slots.contains_key(j) && #[trigger] p.slots.contains_key(k) && j != k && p.slots[j].kind
            != SlotKind::Other && p.slots[k].kind != SlotKind::Other ==> p.slots[j].content_index
            != p.slots[k].content_index
}

/// Whether two blocks are of one kind.
pub open spec fn same_kind(a: BlockView, b: BlockView) -> bool {
    &&& a is Text == b is Text
    &&& a is Thinking == b is Thinking
    &&& a is ToolCall == b is ToolCall
    &&& a is ToolResult == b is ToolResult
    &&& a is Image == b is Image
}

/// Whether `b` holds the blocks of `a`, each of its kind, and maybe more.
pub open spec fn grows(a: Seq<BlockView>, b: Seq<BlockView>) -> bool {
    a.len() <= b.len() && forall|i: int| 0 <= i < a.len() ==> same_kind(a[i], #[trigger] b[i])
}

/// Whether `q` has at most the slots of `p`, at the same blocks, over content
/// that only grew.
spec fn follows(p: ProjectorView, q: ProjectorView) -> bool {
    &&& grows(p.output.content, q.output.content)
    &&& forall|k: u64| #[trigger]
        q.slots.contains_key(k) ==> p.slots.contains_key(k) && q.slots[k].kind == p.slots[k].kind
            && q.slots[k].content_index == p.slots[k].content_index
}

proof fn lemma_follows(p: ProjectorView, q: ProjectorView)
    requires
        is_sound(p),
        follows(p, q),
    ensures
        is_sound(q),
{
    assert forall|k: u64| #[trigger] q.slots.contains_key(k) implies slot_fits(
        q.slots[k],
        q.output.content,
    ) by {
        assert(slot_fits(p.slots[k], p.output.content));
        let i = p.slots[k].content_index;
        if 0 <= i < p.output.content.len() {
            assert(same_kind(p.output.content[i], q.output.content[i]));
        }
    }
}

proof fn lemma_added(
    p: ProjectorView,
    index: u64,
    item: JsonView,
    properties: Map<Seq<char>, Seq<char>>,
)
    requires
        is_sound(p),
    ensures
        is_sound(events::item_added(p, index, item, properties)),
        grows(p.output.content, events::item_added(p, index, item, properties).output.content),
{
    reveal(events::item_added);
    let q = events::item_added(p, index, item, properties);
    let n = p.output.content.len() as int;
    assert(grows(p.output.content, q.output.content));
    assert forall|k: u64| #[trigger] q.slots.contains_key(k) implies slot_fits(
        q.slots[k],
        q.output.content,
    ) by {
        if k != index {
            assert(p.slots.contains_key(k));
            assert(slot_fits(p.slots[k], p.output.content));
        }
    }
    assert forall|j: u64, k: u64| #[trigger]
        q.slots.contains_key(j) && #[trigger] q.slots.contains_key(k) && j != k && q.slots[j].kind
            != SlotKind::Other && q.slots[k].kind != SlotKind::Other implies q.slots[j].content_index
        != q.slots[k].content_index by {
        if j != index {
            assert(p.slots.contains_key(j));
            assert(slot_fits(p.slots[j], p.output.content));
        }
        if k != index {
            assert(p.slots.contains_key(k));
            assert(slot_fits(p.slots[k], p.output.content));
        }
    }
}

proof fn lemma_item_done(
    p: ProjectorView,
    index: u64,
    item: JsonView,
    properties: Map<Seq<char>, Seq<char>>,
)
    requires
        is_sound(p),
    ensures
        is_sound(events::item_done(p, index, item, properties)),
{
    reveal(events::item_done);
    reveal(events::reasoning_done);
    reveal(events::message_done);
    reveal(events::call_item_done);
    let q = events::item_done(p, index, item, properties);
    let kind = events::text_or_empty(item, "type"@);
    if kind == "message"@ && kind != "reasoning"@ && p.slot_of(index, SlotKind::Text, false) is None {
        lemma_added(p, index, item, properties);
        let mid = events::item_added(p, index, item, properties);
        assert(follows(mid, q));
        lemma_follows(mid, q);
    } else {
        assert(follows(p, q));
        lemma_follows(p, q);
    }
}

/// Every open slot of a projection points at a block of its own kind, and two
/// open slots never share a block: no event can make one response item write
/// into the block of another.
pub proof fn law_slots_stay_sound(p: ProjectorView, event: JsonView, env: ProjectionEnv)
    requires
        is_sound(p),
    ensures
        is_sound(events::step(p, event, env).0),
{
    reveal(events::step);
    reveal(events::progressed);
    reveal(events::terminal);
    reveal(events::finalized);
    reveal(events::thinking_delta);
    reveal(events::text_delta);
    reveal(events::call_delta);
    reveal(events::call_done);
    let kind = events::text_or_empty(event, "type"@);
    let q = events::step(p, event, env).0;
    let o = events::opened(p);
    let index = events::output_index(event);
    let item = views::or(event.get("item"@), JsonView::Null);
    assert(follows(p, o));
    lemma_follows(p, o);
    if kind == "response.output_item.added"@ && q == events::item_added(
        o,
        index,
        item,
        env.properties,
    ) {
        lemma_added(o, index, item, env.properties);
    } else if q == events::item_done(o, index, item, env.properties) {
        lemma_item_done(o, index, item, env.properties);
    } else {
        assert(follows(o, q) || q == p);
        if follows(o, q) {
            lemma_follows(o, q);
        }
    }
}

/// The start of a projection has no open slots, so it is sound.
pub proof fn law_start_is_sound(p: ProjectorView)
    requires
        p.slots == Map::<u64, SlotView>::empty(),
    ensures
        is_sound(p),
{
}

/// Whether `b` begins with `a`.
pub open spec fn extends(a: Seq<EventView>, b: Seq<EventView>) -> bool {
    a.len() <= b.len() && b.take(a.len() as int) == a
}

/// Events are only ever added behind those that were emitted before; what was
/// emitted is never changed or taken back.
pub proof fn law_step_only_appends(p: ProjectorView, event: JsonView, env: ProjectionEnv)
    ensures
        extends(p.emitted, events::step(p, event, env).0.emitted),
{
    reveal(events::step);
    reveal(events::progressed);
    reveal(events::terminal);
    reveal(events::finalized);
    reveal(events::thinking_delta);
    reveal(events::text_delta);
    reveal(events::call_delta);
    reveal(events::call_done);
    reveal(events::item_added);
    reveal(events::item_done);
    reveal(events::reasoning_done);
    reveal(events::message_done);
    reveal(events::call_item_done);
    let q = events::step(p, event, env).0;
    assert(forall|i: int| 0 <= i < p.emitted.len() ==> p.emitted[i] == q.emitted[i]);
    assert(q.emitted.take(p.emitted.len() as int) =~= p.emitted);
}

/// An event that reports a failure leaves the message and the stream as they
/// are: nothing is emitted, and a stream that was not open stays unopened.
pub proof fn law_reported_failure_is_silent(p: ProjectorView, event: JsonView, env: ProjectionEnv)
    requires
        event.field_text("type"@) == Some("error"@) || event.field_text("type"@) == Some(
            "response.failed"@,
        ),
    ensures
        events::step(p, event, env).0 == p,
        events::step(p, event, env).1 is Failed,
{
    reveal(events::step);
    reveal_strlit("error");
    reveal_strlit("response.failed");
}

/// The first event that a projection emits is the start, and it emits it only
/// once.
pub proof fn law_start_comes_first(p: ProjectorView, event: JsonView, env: ProjectionEnv)
    ensures
        ({
            let q = events::step(p, event, env).0;
            &&& !p.started && q.started ==> q.emitted.len() > p.emitted.len()
                && q.emitted[p.emitted.len() as int] is Start
            &&& !p.started && !q.started ==> q == p
            &&& p.started ==> q.started && forall|i: int|
                p.emitted.len() <= i < q.emitted.len() ==> !(#[trigger] q.emitted[i] is Start)
        }),
{
    reveal(events::step);
    reveal(events::progressed);
    reveal(events::terminal);
    reveal(events::finalized);
    reveal(events::thinking_delta);
    reveal(events::text_delta);
    reveal(events::call_delta);
    reveal(events::call_done);
    reveal(events::item_added);
    reveal(events::item_done);
    reveal(events::reasoning_done);
    reveal(events::message_done);
    reveal(events::call_item_done);
}

/// A piece of text ends up both in its block and in the stream, and nowhere
/// else.
pub proof fn law_text_delta_is_kept(p: ProjectorView, index: u64, delta: Seq<char>)
    requires
        is_sound(p),
        p.slot_of(index, SlotKind::Text, false) is Some,
    ensures
        ({
            let q = events::text_delta(p, index, delta);
            let at = p.slots[index].content_index;
            &&& q.emitted == p.emitted.push(EventView::TextDelta { delta })
            &&& q.output.content[at]->Text_text == p.output.content[at]->Text_text + delta
            &&& forall|i: int|
                0 <= i < p.output.content.len() && i != at ==> q.output.content[i]
                    == p.output.content[i]
        }),
{
    reveal(events::text_delta);
    assert(p.slots.contains_key(index));
    assert(slot_fits(p.slots[index], p.output.content));
}

/// A piece of thinking ends up both in its block and in the stream, and nowhere
/// else.
pub proof fn law_thinking_delta_is_kept(p: ProjectorView, index: u64, delta: Seq<char>)
    requires
        is_sound(p),
        p.slot_of(index, SlotKind::Thinking, false) is Some,
    ensures
        ({
            let q = events::thinking_delta(p, index, delta);
            let at = p.slots[index].content_index;
            &&& q.emitted == p.emitted.push(EventView::ThinkingDelta { delta })
            &&& q.output.content[at]->Thinking_thinking == p.output.content[at]->Thinking_thinking
                + delta
            &&& forall|i: int|
                0 <= i < p.output.content.len() && i != at ==> q.output.content[i]
                    == p.output.content[i]
        }),
{
    reveal(events::thinking_delta);
    assert(p.slots.contains_key(index));
    assert(slot_fits(p.slots[index], p.output.content));
}

/// A response that completes behind a tool call is reported as a tool use.
pub proof fn law_tool_call_stops_for_tool_use(
    p: ProjectorView,
    response: JsonView,
    env: ProjectionEnv,
)
    requires
        p.saw_tool_call,
        response.field_text("status"@) == Some("completed"@),
    ensures
        events::finalized(p, response, env).1 is None,
        events::finalized(p, response, env).0.output.stop_reason == Some("toolUse"@),
{
    reveal(events::finalized);
}

/// A response with a known status or none is never refused for its status.
pub proof fn law_terminal_event_finishes(p: ProjectorView, event: JsonView, env: ProjectionEnv)
    ensures
        events::terminal(p, event, env).1 is Finished,
{
    reveal(events::terminal);
    reveal(events::finalized);
    let response = views::or(event.get("response"@), JsonView::Null);
    assert(events::stop_of(events::terminal_response(event)) is Ok);
}

/// The charges of a complete response are on the very counts that it reports, and these are the
/// ones that the service gave: tokens that were read from the cache or written to it are not
/// input as well. The usage is told as it stands in the message.
pub proof fn law_reported_usage_is_charged(
    p: ProjectorView,
    response: JsonView,
    env: ProjectionEnv,
)
    ensures
        ({
            let q = events::finalized(p, response, env).0;
            let u = q.output.usage;
            &&& u.cost.input.tokens == u.input
            &&& u.cost.output.tokens == u.output
            &&& u.cost.cache_read.tokens == u.cache_read
            &&& u.cost.cache_write.tokens == u.cache_write
            &&& env.model.cost_rates.tiers.len() == 0 ==> {
                &&& u.cost.input.per_million == env.model.cost_rates.input_per_million
                &&& u.cost.output.per_million == env.model.cost_rates.output_per_million
                &&& u.cost.cache_read.per_million
                    == env.model.cost_rates.input_cache_read_per_million
                &&& u.cost.cache_write.per_million
                    == env.model.cost_rates.input_cache_write_per_million
            }
            &&& q.emitted == p.emitted.push(EventView::Usage { usage: u })
            &&& response.get("usage"@) is None ==> {
                &&& u.input == p.output.usage.input
                &&& u.output == p.output.usage.output
                &&& u.cache_read == p.output.usage.cache_read
                &&& u.cache_write == p.output.usage.cache_write
                &&& u.reasoning == p.output.usage.reasoning
                &&& u.total_tokens == p.output.usage.total_tokens
            }
        }),
{
    reveal(events::finalized);
}

/// Every count that a response reports is taken as the service gave it.
pub proof fn law_reported_counts_are_taken(
    p: ProjectorView,
    response: JsonView,
    reported: JsonView,
    env: ProjectionEnv,
)
    requires
        response.get("usage"@) == Some(reported),
    ensures
        ({
            let u = events::finalized(p, response, env).0.output.usage;
            let given = |n: Option<u64>|
                match n {
                    Some(n) => n,
                    None => 0u64,
                };
            let all = given(reported.field_unsigned("input_tokens"@));
            &&& u.output == given(reported.field_unsigned("output_tokens"@))
            &&& u.total_tokens == given(reported.field_unsigned("total_tokens"@))
            &&& u.cache_read == given(
                reported.unsigned2("input_tokens_details"@, "cached_tokens"@),
            )
            &&& u.cache_write == given(
                reported.unsigned2("input_tokens_details"@, "cache_write_tokens"@),
            )
            &&& u.reasoning == given(
                reported.unsigned2("output_tokens_details"@, "reasoning_tokens"@),
            )
            &&& u.cache_read + u.cache_write <= all ==> u.input + u.cache_read + u.cache_write
                == all
            &&& u.cache_read + u.cache_write >= all ==> u.input == 0
        }),
{
    reveal(events::finalized);
}

/// A response is charged by the tier that it was served at: as asked for where it does not say.
pub proof fn law_response_is_charged_by_its_tier(
    p: ProjectorView,
    response: JsonView,
    env: ProjectionEnv,
    tier: Seq<char>,
)
    requires
        response.field_text("service_tier"@) == Some(tier) && tier != "default"@ || response.get(
            "service_tier"@,
        ) is None && env.service_tier == Some(tier),
    ensures
        ({
            let scale = events::finalized(p, response, env).0.output.usage.cost.scale;
            &&& tier == "flex"@ ==> scale == CostScale::Half
            &&& tier == "priority"@ && env.model.id != "gpt-5.5"@ ==> scale == CostScale::Two
            &&& tier == "priority"@ && env.model.id == "gpt-5.5"@ ==> scale
                == CostScale::TwoAndAHalf
            &&& tier != "flex"@ && tier != "priority"@ ==> scale == CostScale::One
        }),
{
    reveal(events::finalized);
    cost::law_charged_tier(response.field_text("service_tier"@), env.service_tier);
    cost::law_tier_scales(env.model.id, Some(tier));
}

/// Why a response stopped: it completed or says nothing of it, it was cut for its length, or it
/// went wrong, and then what the service said of it is kept.
pub proof fn law_stop_reason_follows_the_status(
    p: ProjectorView,
    response: JsonView,
    env: ProjectionEnv,
)
    ensures
        ({
            let (q, error) = events::finalized(p, response, env);
            let status = response.field_text("status"@);
            let why = response.text2("incomplete_details"@, "reason"@);
            &&& (status is None || status == Some("completed"@)) && !p.saw_tool_call ==> error
                is None && q.output.stop_reason == Some("stop"@) && q.output.error_message is None
            &&& (status is None || status == Some("completed"@)) && p.saw_tool_call ==> error
                is None && q.output.stop_reason == Some("toolUse"@) && q.output.error_message
                is None
            &&& status == Some("incomplete"@) && why == Some("max_output_tokens"@) ==> error
                is None && q.output.stop_reason == Some("length"@)
            &&& status == Some("incomplete"@) && why != Some("max_output_tokens"@) ==> error
                is None && q.output.stop_reason == Some("error"@) && q.output.error_message
                is Some
            &&& status == Some("incomplete"@) && why is Some && why != Some("max_output_tokens"@)
                ==> text::ends(q.output.error_message->0, why->0)
            &&& status == Some("failed"@) || status == Some("cancelled"@) ==> error is None
                && q.output.stop_reason == Some("error"@)
            &&& error is Some ==> q.output.stop_reason == p.output.stop_reason
        }),
{
    reveal(events::finalized);
    reveal_strlit("completed");
    reveal_strlit("incomplete");
    reveal_strlit("failed");
    reveal_strlit("cancelled");
    reveal_strlit("stop");
    reveal_strlit("length");
    reveal_strlit("error");
    assert("completed"@.len() == 9);
    assert("incomplete"@.len() == 10);
    assert("failed"@.len() == 6);
    assert("cancelled"@.len() == 9);
    assert("completed"@[1] == 'o');
    assert("cancelled"@[1] == 'a');
    assert("stop"@.len() == 4);
    assert("length"@.len() == 6);
    assert("error"@.len() == 5);
    if let Some(r) = response.text2("incomplete_details"@, "reason"@) {
        let m = "Response incomplete: "@ + r;
        assert(m.skip(m.len() - r.len()) =~= r);
        assert(m.subrange(m.len() - r.len(), m.len() as int) =~= r);
    }
}

/// What came of a response before its end stays: neither its content nor whose it is changes
/// with its end, and the id that the service gave it is taken.
pub proof fn law_end_keeps_what_came(p: ProjectorView, response: JsonView, env: ProjectionEnv)
    ensures
        ({
            let q = events::finalized(p, response, env).0;
            &&& q.output.content == p.output.content
            &&& q.output.model == p.output.model
            &&& q.output.provider == p.output.provider
            &&& q.output.api == p.output.api
            &&& q.output.timestamp == p.output.timestamp
            &&& response.field_text("id"@) is Some ==> q.output.response_id
                == response.field_text("id"@)
            &&& response.field_text("id"@) is None ==> q.output.response_id
                == p.output.response_id
        }),
{
    reveal(events::finalized);
}

/// Whether an event of type `kind` speaks of the item at `index`.
pub open spec fn speaks_of(event: JsonView, kind: Seq<char>, index: u64) -> bool {
    event.field_text("type"@) == Some(kind) && event.field_unsigned("output_index"@) == Some(index)
}

proof fn lemma_progress(p: ProjectorView, event: JsonView, kind: Seq<char>, env: ProjectionEnv)
    requires
        event.field_text("type"@) == Some(kind),
        kind.len() > 0,
        kind != "error"@,
        kind != "response.failed"@,
        kind != "response.done"@,
        kind != "response.completed"@,
        kind != "response.incomplete"@,
        p.started,
    ensures
        events::step(p, event, env).1 is Continue,
        events::step(p, event, env).0 == events::progressed(p, kind, event, env.properties),
{
    reveal(events::step);
}

/// A piece of text that the service sends for an open text is put behind that text and told;
/// so is a piece of a refusal. Nothing else changes.
pub proof fn law_text_event_is_kept(
    p: ProjectorView,
    event: JsonView,
    index: u64,
    delta: Seq<char>,
    env: ProjectionEnv,
)
    requires
        is_sound(p),
        p.started,
        p.slot_of(index, SlotKind::Text, false) is Some,
        speaks_of(event, "response.output_text.delta"@, index) || speaks_of(
            event,
            "response.refusal.delta"@,
            index,
        ),
        event.field_text("delta"@) == Some(delta),
    ensures
        ({
            let (q, outcome) = events::step(p, event, env);
            let at = p.slots[index].content_index;
            let was = p.output.content[at];
            &&& outcome is Continue
            &&& q.output.content == p.output.content.update(
                at,
                BlockView::Text {
                    text: was->Text_text + delta,
                    text_signature: was->text_signature,
                },
            )
            &&& q.emitted == p.emitted.push(EventView::TextDelta { delta })
            &&& q.slots == p.slots
        }),
{
    keys::lemma_event_types();
    lemma_progress(p, event, event.field_text("type"@)->0, env);
    reveal(events::progressed);
    reveal(events::text_delta);
    assert(p.slots.contains_key(index));
    assert(slot_fits(p.slots[index], p.output.content));
}

/// A piece of thinking that the service sends for an open thinking is put behind that thinking
/// and told, whether it is of the summary or of the thinking itself; the end of a part of the
/// summary is a blank line.
pub proof fn law_thinking_event_is_kept(
    p: ProjectorView,
    event: JsonView,
    index: u64,
    delta: Seq<char>,
    env: ProjectionEnv,
)
    requires
        is_sound(p),
        p.started,
        p.slot_of(index, SlotKind::Thinking, false) is Some,
        (speaks_of(event, "response.reasoning_summary_text.delta"@, index) || speaks_of(
            event,
            "response.reasoning_text.delta"@,
            index,
        )) && event.field_text("delta"@) == Some(delta) || speaks_of(
            event,
            "response.reasoning_summary_part.done"@,
            index,
        ) && delta == "\n\n"@,
    ensures
        ({
            let (q, outcome) = events::step(p, event, env);
            let at = p.slots[index].content_index;
            let was = p.output.content[at];
            &&& outcome is Continue
            &&& q.output.content == p.output.content.update(
                at,
                BlockView::Thinking {
                    thinking: was->Thinking_thinking + delta,
                    signature: was->signature,
                },
            )
            &&& q.emitted == p.emitted.push(EventView::ThinkingDelta { delta })
            &&& q.slots == p.slots
        }),
{
    keys::lemma_event_types();
    lemma_progress(p, event, event.field_text("type"@)->0, env);
    reveal(events::progressed);
    reveal(events::thinking_delta);
    assert(p.slots.contains_key(index));
    assert(slot_fits(p.slots[index], p.output.content));
}

/// A piece of the arguments of a tool call is told and joins what came of them; what can be
/// read of that are the arguments of the call, and its id and its name stay.
pub proof fn law_arguments_event_is_kept(
    p: ProjectorView,
    event: JsonView,
    index: u64,
    delta: Seq<char>,
    env: ProjectionEnv,
)
    requires
        is_sound(p),
        p.started,
        p.slot_of(index, SlotKind::ToolCall, false) is Some,
        p.slots[index].partial_json is Some,
        speaks_of(event, "response.function_call_arguments.delta"@, index),
        event.field_text("delta"@) == Some(delta),
    ensures
        ({
            let (q, outcome) = events::step(p, event, env);
            let at = p.slots[index].content_index;
            let was = p.output.content[at];
            let so_far = p.slots[index].partial_json->0 + delta;
            &&& outcome is Continue
            &&& q.emitted == p.emitted.push(EventView::ToolcallDelta { content_index: at, delta })
            &&& q.slots[index].partial_json == Some(so_far)
            &&& json_parse::partial_value(so_far) is None ==> q.output.content
                == p.output.content
            &&& json_parse::partial_value(so_far) is Some ==> q.output.content
                == p.output.content.update(
                at,
                BlockView::ToolCall {
                    id: was->ToolCall_id,
                    name: was->ToolCall_name,
                    arguments: json_parse::partial_value(so_far)->0,
                },
            )
        }),
{
    keys::lemma_event_types();
    lemma_progress(p, event, event.field_text("type"@)->0, env);
    reveal(events::progressed);
    reveal(events::call_delta);
    assert(p.slots.contains_key(index));
    assert(slot_fits(p.slots[index], p.output.content));
}

proof fn lemma_lone_key(property: Seq<char>, value: JsonView)
    ensures
        output::input_key(JsonView::object().with(property, value)) == property,
{
    let m = JsonView::object().with(property, value)->Object_0;
    text::lemma_text_le_total(property, property);
    assert(json::is_least_key(m, property));
    json::lemma_least_key(m, property);
}

/// A piece of the input of a call of a tool with a grammar is told and joins what came of it;
/// that is the one text among the arguments of the call.
pub proof fn law_input_event_is_kept(
    p: ProjectorView,
    event: JsonView,
    index: u64,
    delta: Seq<char>,
    property: Seq<char>,
    old: JsonView,
    env: ProjectionEnv,
)
    requires
        is_sound(p),
        p.started,
        p.slot_of(index, SlotKind::ToolCall, true) is Some,
        p.slots[index].partial_json is Some,
        p.output.content[p.slots[index].content_index]->ToolCall_arguments
            == JsonView::object().with(property, old),
        speaks_of(event, "response.custom_tool_call_input.delta"@, index),
        event.field_text("delta"@) == Some(delta),
    ensures
        ({
            let (q, outcome) = events::step(p, event, env);
            let at = p.slots[index].content_index;
            let was = p.output.content[at];
            let so_far = p.slots[index].partial_json->0 + delta;
            let arguments = q.output.content[at]->ToolCall_arguments;
            &&& outcome is Continue
            &&& q.emitted == p.emitted.push(EventView::ToolcallDelta { content_index: at, delta })
            &&& q.slots[index].partial_json == Some(so_far)
            &&& q.output.content.len() == p.output.content.len()
            &&& q.output.content[at] is ToolCall
            &&& q.output.content[at]->ToolCall_id == was->ToolCall_id
            &&& q.output.content[at]->ToolCall_name == was->ToolCall_name
            &&& arguments == JsonView::object().with(property, JsonView::Str(so_far))
        }),
{
    keys::lemma_event_types();
    lemma_progress(p, event, event.field_text("type"@)->0, env);
    reveal(events::progressed);
    reveal(events::call_delta);
    assert(p.slots.contains_key(index));
    assert(slot_fits(p.slots[index], p.output.content));
    lemma_lone_key(property, old);
}

/// The whole of what was sent for a tool call counts more than what came in pieces: its
/// arguments are what the whole says, and what the pieces lacked of it is told as one piece
/// more.
pub proof fn law_whole_arguments_count(
    p: ProjectorView,
    event: JsonView,
    index: u64,
    whole: Seq<char>,
    env: ProjectionEnv,
)
    requires
        is_sound(p),
        p.started,
        p.slot_of(index, SlotKind::ToolCall, false) is Some,
        p.slots[index].partial_json is Some,
        speaks_of(event, "response.function_call_arguments.done"@, index),
        event.field_text("arguments"@) == Some(whole),
    ensures
        ({
            let (q, outcome) = events::step(p, event, env);
            let at = p.slots[index].content_index;
            let came = p.slots[index].partial_json->0;
            &&& outcome is Continue
            &&& q.slots[index].partial_json == Some(whole)
            &&& json_parse::partial_value(whole) is Some
                ==> q.output.content[at]->ToolCall_arguments == json_parse::partial_value(
                whole,
            )->0
            &&& whole == came ==> q.emitted == p.emitted
            &&& forall|rest: Seq<char>|
                whole == #[trigger] (came + rest) && rest.len() > 0 ==> q.emitted
                    == p.emitted.push(EventView::ToolcallDelta { content_index: at, delta: rest })
        }),
{
    keys::lemma_event_types();
    lemma_progress(p, event, event.field_text("type"@)->0, env);
    reveal(events::progressed);
    reveal(events::call_done);
    assert(p.slots.contains_key(index));
    assert(slot_fits(p.slots[index], p.output.content));
    let came = p.slots[index].partial_json->0;
    let q = events::step(p, event, env).0;
    let at = p.slots[index].content_index;
    if whole == came {
        assert(whole.take(came.len() as int) =~= came);
        assert(whole.skip(came.len() as int) =~= Seq::<char>::empty());
    }
    assert forall|rest: Seq<char>| whole == #[trigger] (came + rest) && rest.len() > 0 implies q.emitted
        == p.emitted.push(EventView::ToolcallDelta { content_index: at, delta: rest }) by {
        assert(whole.take(came.len() as int) =~= came);
        assert(whole.skip(came.len() as int) =~= rest);
    }
}

/// A new item of a response opens a block of its kind behind the others and is told: thinking,
/// text, or a tool call with its two ids and its name.
pub proof fn law_new_item_opens_a_block(
    p: ProjectorView,
    event: JsonView,
    index: u64,
    item: JsonView,
    env: ProjectionEnv,
)
    requires
        p.started,
        speaks_of(event, "response.output_item.added"@, index),
        event.get("item"@) == Some(item),
    ensures
        ({
            let (q, outcome) = events::step(p, event, env);
            let n = p.output.content.len() as int;
            let kind = item.field_text("type"@);
            let block = q.output.content.last();
            let told = q.emitted.last();
            &&& outcome is Continue
            &&& q.slots.contains_key(index)
            &&& kind == Some("message"@) || kind == Some("reasoning"@) || kind == Some(
                "function_call"@,
            ) || kind == Some("custom_tool_call"@) ==> {
                &&& q.output.content == p.output.content.push(block)
                &&& q.emitted == p.emitted.push(told)
                &&& q.slots[index].content_index == n
            }
            &&& kind == Some("message"@) ==> {
                &&& block == BlockView::Text { text: Seq::empty(), text_signature: None }
                &&& told is TextStart
                &&& q.slots[index].kind == SlotKind::Text
            }
            &&& kind == Some("reasoning"@) ==> {
                &&& block == BlockView::Thinking { thinking: Seq::empty(), signature: None }
                &&& told is ThinkingStart
                &&& q.slots[index].kind == SlotKind::Thinking
            }
            &&& kind == Some("function_call"@) || kind == Some("custom_tool_call"@) ==> {
                &&& block is ToolCall
                &&& q.saw_tool_call
                &&& q.slots[index].kind == SlotKind::ToolCall
                &&& q.slots[index].custom_input == (kind == Some("custom_tool_call"@))
                &&& item.field_text("name"@) is Some ==> block->ToolCall_name == item.field_text(
                    "name"@,
                )->0
                &&& item.field_text("call_id"@) is Some && item.field_text("id"@) is Some
                    ==> block->ToolCall_id == item.field_text("call_id"@)->0 + "|"@
                    + item.field_text("id"@)->0
                &&& told == EventView::ToolcallStart {
                    content_index: n,
                    id: Some(block->ToolCall_id),
                    name: Some(block->ToolCall_name),
                }
            }
            &&& kind == Some("function_call"@) ==> q.slots[index].partial_json == Some(
                match item.field_text("arguments"@) {
                    Some(t) => t,
                    None => Seq::empty(),
                },
            )
            &&& kind == Some("custom_tool_call"@) ==> q.slots[index].partial_json == Some(
                match item.field_text("input"@) {
                    Some(t) => t,
                    None => Seq::empty(),
                },
            )
            &&& kind == Some("custom_tool_call"@) && item.field_text("input"@) is Some
                && item.field_text("name"@) is Some && !env.properties.contains_key(
                item.field_text("name"@)->0,
            ) ==> block->ToolCall_arguments.field_text("input"@) == item.field_text("input"@)
            &&& kind == Some("function_call"@) ==> block->ToolCall_arguments == JsonView::object()
            &&& kind == Some("custom_tool_call"@) && item.field_text("input"@) is Some
                && item.field_text("name"@) is Some && env.properties.contains_key(
                item.field_text("name"@)->0,
            ) ==> block->ToolCall_arguments.field_text(
                env.properties[item.field_text("name"@)->0],
            ) == item.field_text("input"@)
            &&& kind is None ==> q.output.content == p.output.content && q.emitted == p.emitted
        }),
{
    keys::lemma_event_types();
    lemma_progress(p, event, event.field_text("type"@)->0, env);
    reveal(events::progressed);
    reveal(events::item_added);
}

proof fn lemma_part_texts_add(a: Seq<JsonView>, b: Seq<JsonView>)
    ensures
        events::part_texts(a + b) == events::part_texts(a) + events::part_texts(b),
    decreases b.len(),
{
    if b.len() == 0 {
        assert(a + b =~= a);
    } else {
        lemma_part_texts_add(a, b.drop_last());
        assert((a + b).drop_last() =~= a + b.drop_last());
    }
    assert(events::part_texts(a + b) =~= events::part_texts(a) + events::part_texts(b));
}

/// The text of a complete message is what its parts say, one behind the other: each its text,
/// or its refusal where it has no text.
pub proof fn law_message_says_what_its_parts_say(
    before: Seq<JsonView>,
    part: JsonView,
    behind: Seq<JsonView>,
)
    ensures
        ({
            let whole = events::part_texts(before + seq![part] + behind);
            let a = events::part_texts(before);
            let b = events::part_texts(behind);
            match (part.field_text("text"@), part.field_text("refusal"@)) {
                (Some(t), _) => whole == a + t + b,
                (None, Some(t)) => whole == a + t + b,
                (None, None) => whole == a + b,
            }
        }),
        events::part_texts(Seq::empty()).len() == 0,
{
    reveal_with_fuel(events::part_texts, 2);
    lemma_part_texts_add(before + seq![part], behind);
    lemma_part_texts_add(before, seq![part]);
    assert(seq![part].drop_last() =~= Seq::<JsonView>::empty());
    let whole = events::part_texts(before + seq![part] + behind);
    let a = events::part_texts(before);
    let b = events::part_texts(behind);
    match (part.field_text("text"@), part.field_text("refusal"@)) {
        (Some(t), _) => {
            assert(events::part_texts(seq![part]) =~= t);
        },
        (None, Some(t)) => {
            assert(events::part_texts(seq![part]) =~= t);
        },
        (None, None) => {
            assert(whole =~= a + b);
        },
    }
}

/// A complete message closes its text: the text is what the message says as a whole, its end is
/// told, and it takes no more pieces.
pub proof fn law_complete_message_closes_its_text(
    p: ProjectorView,
    event: JsonView,
    index: u64,
    item: JsonView,
    parts: Seq<JsonView>,
    env: ProjectionEnv,
)
    requires
        is_sound(p),
        p.started,
        p.slot_of(index, SlotKind::Text, false) is Some,
        speaks_of(event, "response.output_item.done"@, index),
        event.get("item"@) == Some(item),
        item.field_text("type"@) == Some("message"@),
        item.field_items("content"@) == Some(parts),
    ensures
        ({
            let (q, outcome) = events::step(p, event, env);
            let at = p.slots[index].content_index;
            &&& outcome is Continue
            &&& q.output.content.len() == p.output.content.len()
            &&& q.output.content[at] is Text
            &&& q.output.content[at]->Text_text == events::part_texts(parts)
            &&& forall|i: int|
                0 <= i < p.output.content.len() && i != at ==> q.output.content[i]
                    == p.output.content[i]
            &&& item.field_text("id"@) is Some && item.field_text("id"@)->0.len() > 0
                ==> q.output.content[at]->text_signature == Some(
                signature::signature_text(item.field_text("id"@)->0, item.field_text("phase"@)),
            )
            &&& q.emitted == p.emitted.push(EventView::TextEnd)
            &&& !q.slots.contains_key(index)
        }),
{
    keys::lemma_event_types();
    lemma_progress(p, event, event.field_text("type"@)->0, env);
    reveal(events::progressed);
    reveal(events::item_done);
    reveal(events::message_done);
    assert(p.slots.contains_key(index));
    assert(slot_fits(p.slots[index], p.output.content));
}

proof fn lemma_item_texts_add(a: Seq<JsonView>, b: Seq<JsonView>)
    ensures
        events::item_texts(a + b) == events::item_texts(a) + events::item_texts(b),
    decreases b.len(),
{
    if b.len() == 0 {
        assert(a + b =~= a);
    } else {
        lemma_item_texts_add(a, b.drop_last());
        assert((a + b).drop_last() =~= a + b.drop_last());
    }
    assert(events::item_texts(a + b) =~= events::item_texts(a) + events::item_texts(b));
}

/// The texts of items stand in the order of the items, and those without a text give none.
pub proof fn law_item_texts_are_in_order(
    before: Seq<JsonView>,
    item: JsonView,
    behind: Seq<JsonView>,
)
    ensures
        events::item_texts(before + seq![item] + behind) == events::item_texts(before) + (
        match item.field_text("text"@) {
            Some(t) => seq![t],
            None => Seq::empty(),
        }) + events::item_texts(behind),
        events::item_texts(Seq::empty()).len() == 0,
{
    reveal_with_fuel(events::item_texts, 2);
    lemma_item_texts_add(before + seq![item], behind);
    lemma_item_texts_add(before, seq![item]);
    assert(seq![item].drop_last() =~= Seq::<JsonView>::empty());
    assert(events::item_texts(seq![item]) =~= (match item.field_text("text"@) {
        Some(t) => seq![t],
        None => Seq::empty(),
    }));
}

/// A complete reasoning item closes its thinking: its summary, or else its content, is the
/// thinking, a blank line between the parts; where it has neither, what came in pieces stays.
/// The whole item is kept as the signature, by which it is replayed.
pub proof fn law_complete_reasoning_closes_its_thinking(
    p: ProjectorView,
    event: JsonView,
    index: u64,
    item: JsonView,
    env: ProjectionEnv,
)
    requires
        is_sound(p),
        p.started,
        p.slot_of(index, SlotKind::Thinking, false) is Some,
        speaks_of(event, "response.output_item.done"@, index),
        event.get("item"@) == Some(item),
        item.field_text("type"@) == Some("reasoning"@),
    ensures
        ({
            let (q, outcome) = events::step(p, event, env);
            let at = p.slots[index].content_index;
            let said = |key: Seq<char>|
                match item.field_items(key) {
                    Some(items) => text::joined(events::item_texts(items), "\n\n"@),
                    None => Seq::empty(),
                };
            let sig = json_text::text_of_json(item);
            &&& outcome is Continue
            &&& q.output.content.len() == p.output.content.len()
            &&& q.output.content[at] is Thinking
            &&& q.output.content[at]->signature == Some(sig)
            &&& said("summary"@).len() > 0 ==> q.output.content[at]->Thinking_thinking == said(
                "summary"@,
            )
            &&& said("summary"@).len() == 0 && said("content"@).len() > 0
                ==> q.output.content[at]->Thinking_thinking == said("content"@)
            &&& said("summary"@).len() == 0 && said("content"@).len() == 0
                ==> q.output.content[at]->Thinking_thinking
                == p.output.content[at]->Thinking_thinking
            &&& q.emitted == p.emitted.push(EventView::ThinkingEnd { signature: Some(sig) })
            &&& !q.slots.contains_key(index)
        }),
{
    keys::lemma_event_types();
    lemma_progress(p, event, event.field_text("type"@)->0, env);
    reveal(events::progressed);
    reveal(events::item_done);
    reveal(events::reasoning_done);
    assert(p.slots.contains_key(index));
    assert(slot_fits(p.slots[index], p.output.content));
}

/// A complete tool call closes its block: its arguments are what its text says, it is told with
/// its id, its name and these arguments, and it takes no more pieces.
pub proof fn law_complete_call_closes_its_block(
    p: ProjectorView,
    event: JsonView,
    index: u64,
    item: JsonView,
    whole: Seq<char>,
    env: ProjectionEnv,
)
    requires
        is_sound(p),
        p.started,
        p.slot_of(index, SlotKind::ToolCall, false) is Some,
        speaks_of(event, "response.output_item.done"@, index),
        event.get("item"@) == Some(item),
        item.field_text("type"@) == Some("function_call"@),
        item.field_text("arguments"@) == Some(whole),
    ensures
        ({
            let (q, outcome) = events::step(p, event, env);
            let at = p.slots[index].content_index;
            let was = p.output.content[at];
            let block = q.output.content[at];
            &&& outcome is Continue
            &&& q.output.content.len() == p.output.content.len()
            &&& block is ToolCall
            &&& block->ToolCall_id == was->ToolCall_id
            &&& block->ToolCall_name == was->ToolCall_name
            &&& json_parse::partial_value(whole) is Some ==> block->ToolCall_arguments
                == json_parse::partial_value(whole)->0
            &&& q.emitted == p.emitted.push(
                EventView::ToolcallEnd { content_index: at, tool_call: block },
            )
            &&& !q.slots.contains_key(index)
        }),
{
    keys::lemma_event_types();
    lemma_progress(p, event, event.field_text("type"@)->0, env);
    reveal(events::progressed);
    reveal(events::item_done);
    reveal(events::call_item_done);
    assert(p.slots.contains_key(index));
    assert(slot_fits(p.slots[index], p.output.content));
}

/// A complete call of a tool with a grammar closes its block: its input is the one text among
/// its arguments, and it is told with them.
pub proof fn law_complete_custom_call_closes_its_block(
    p: ProjectorView,
    event: JsonView,
    index: u64,
    item: JsonView,
    whole: Seq<char>,
    property: Seq<char>,
    old: JsonView,
    env: ProjectionEnv,
)
    requires
        is_sound(p),
        p.started,
        p.slot_of(index, SlotKind::ToolCall, true) is Some,
        p.output.content[p.slots[index].content_index]->ToolCall_arguments
            == JsonView::object().with(property, old),
        speaks_of(event, "response.output_item.done"@, index),
        event.get("item"@) == Some(item),
        item.field_text("type"@) == Some("custom_tool_call"@),
        item.field_text("input"@) == Some(whole),
    ensures
        ({
            let (q, outcome) = events::step(p, event, env);
            let at = p.slots[index].content_index;
            let was = p.output.content[at];
            let block = q.output.content[at];
            &&& outcome is Continue
            &&& q.output.content.len() == p.output.content.len()
            &&& block is ToolCall
            &&& block->ToolCall_id == was->ToolCall_id
            &&& block->ToolCall_name == was->ToolCall_name
            &&& block->ToolCall_arguments == JsonView::object().with(
                property,
                JsonView::Str(whole),
            )
            &&& q.emitted == p.emitted.push(
                EventView::ToolcallEnd { content_index: at, tool_call: block },
            )
            &&& !q.slots.contains_key(index)
        }),
{
    keys::lemma_event_types();
    lemma_progress(p, event, event.field_text("type"@)->0, env);
    reveal(events::progressed);
    reveal(events::item_done);
    reveal(events::call_item_done);
    assert(p.slots.contains_key(index));
    assert(slot_fits(p.slots[index], p.output.content));
    lemma_lone_key(property, old);
}

/// A stream that opens tells the message as it stands then.
pub proof fn law_stream_opens_with_the_message(
    p: ProjectorView,
    event: JsonView,
    env: ProjectionEnv,
)
    requires
        !p.started,
        events::step(p, event, env).0.started,
    ensures
        events::step(p, event, env).0.emitted[p.emitted.len() as int] == (EventView::Start {
            partial: MessageView::Assistant(p.output),
        }),
{
    law_step_only_appends(events::opened(p), event, env);
    reveal(events::step);
    let o = events::opened(p);
    let q = events::step(p, event, env).0;
    assert(o.emitted[p.emitted.len() as int] == (EventView::Start {
        partial: MessageView::Assistant(p.output),
    }));
    assert(events::step(o, event, env).0 == q);
    assert(q.emitted.take(o.emitted.len() as int)[p.emitted.len() as int]
        == o.emitted[p.emitted.len() as int]);
}

/// An event that ends a response takes the response in that it carries: how it ended, its usage
/// and its id, and whether the service said that its turn is over. Without the event the
/// response is not over.
pub proof fn law_terminal_event_takes_the_response_in(
    p: ProjectorView,
    event: JsonView,
    response: JsonView,
    env: ProjectionEnv,
)
    requires
        p.started,
        event.field_text("type"@) == Some("response.completed"@) || event.field_text("type"@)
            == Some("response.done"@) || event.field_text("type"@) == Some(
            "response.incomplete"@,
        ),
        event.get("response"@) == Some(response),
        response.field_text("status"@) == Some("completed"@) || response.field_text("status"@)
            == Some("incomplete"@) || response.field_text("status"@) == Some("failed"@)
            || response.field_text("status"@) == Some("cancelled"@),
    ensures
        ({
            let (q, outcome) = events::step(p, event, env);
            let r = events::finalized(p, response, env).0;
            &&& outcome is Finished
            &&& q.output.stop_reason == r.output.stop_reason
            &&& q.output.error_message == r.output.error_message
            &&& q.output.usage == r.output.usage
            &&& q.output.response_id == r.output.response_id
            &&& q.output.content == p.output.content
            &&& q.emitted == r.emitted
            &&& response.field_boolean("end_turn"@) is Some ==> q.output.end_turn
                == response.field_boolean("end_turn"@)
            &&& response.field_boolean("end_turn"@) is None ==> q.output.end_turn
                == p.output.end_turn
        }),
{
    keys::lemma_event_types();
    reveal(events::step);
    reveal(events::terminal);
    reveal(events::finalized);
    let s = events::terminal_response(event);
    assert(response is Object);
    assert(s =~= response) by {
        assert(s->Object_0 =~= response->Object_0);
    }
}

/// What a failure that the service reports says: its own words and its code.
pub proof fn law_reported_failure_is_told(
    p: ProjectorView,
    event: JsonView,
    message: Seq<char>,
    env: ProjectionEnv,
)
    ensures
        event.field_text("type"@) == Some("error"@) && event.field_text("message"@) == Some(message)
            ==> {
            let e = events::step(p, event, env).1;
            &&& e is Failed
            &&& text::ends(e->Failed_0.message, message)
            &&& event.field_text("code"@) is Some ==> e->Failed_0.code == event.field_text(
                "code"@,
            )
        },
        event.field_text("type"@) == Some("response.failed"@) && event.get2(
            "response"@,
            "error"@,
        ) is Some && event.get2("response"@, "error"@)->0.field_text("message"@) == Some(message)
            ==> {
            let e = events::step(p, event, env).1;
            &&& e is Failed
            &&& e->Failed_0.message == message
            &&& e->Failed_0.code == event.get2("response"@, "error"@)->0.field_text("code"@)
        },
{
    keys::lemma_event_types();
    reveal(events::step);
    let m = "Codex error: "@ + message;
    assert(m.skip(m.len() - message.len()) =~= message);
}

/// A response is over with the first event that ends it: what comes behind does not count, and
/// a stream without such an event fails.
pub proof fn law_run_goes_event_by_event(
    p: ProjectorView,
    first: events::WireItemView,
    rest: Seq<events::WireItemView>,
    env: ProjectionEnv,
)
    ensures
        events::run(p, Seq::empty(), env).0 == p,
        events::run(p, Seq::empty(), env).1 is Some,
        ({
            let all = events::run(p, seq![first] + rest, env);
            match first {
                events::WireItemView::Failure(e) => all == (p, Some(e)),
                events::WireItemView::Event(event) => {
                    let (q, outcome) = events::step(p, event, env);
                    match outcome {
                        events::StepOutcomeView::Continue => all == events::run(q, rest, env),
                        events::StepOutcomeView::Finished => all.0 == q && all.1 is None,
                        events::StepOutcomeView::Failed(e) => all == (q, Some(e)),
                    }
                },
            }
        }),
{
    assert((seq![first] + rest).drop_first() =~= rest);
}

/// The id of a response is taken when the response is made known, and nothing else changes.
pub proof fn law_response_id_is_taken(
    p: ProjectorView,
    event: JsonView,
    env: ProjectionEnv,
)
    requires
        p.started,
        event.field_text("type"@) == Some("response.created"@),
    ensures
        ({
            let (q, outcome) = events::step(p, event, env);
            &&& outcome is Continue
            &&& event.text2("response"@, "id"@) is Some ==> q.output.response_id == event.text2(
                "response"@,
                "id"@,
            )
            &&& event.text2("response"@, "id"@) is None ==> q.output.response_id
                == p.output.response_id
            &&& q.output.content == p.output.content
            &&& q.emitted == p.emitted
            &&& q.slots == p.slots
        }),
{
    keys::lemma_event_types();
    lemma_progress(p, event, "response.created"@, env);
    reveal(events::progressed);
}

} // verus!
