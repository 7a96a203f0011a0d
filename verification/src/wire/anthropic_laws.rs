//! What holds of every request to and every response of the Anthropic messages service.
use vstd::prelude::*;
use crate::json::{JsonView, NumberView};
use crate::keys;
use crate::text;
use crate::types;
use crate::types::{
    AssistantView, BlockView, ContextView, MessageView, ModelView, ToolChoiceView,
};
use crate::wire::anthropic;
use crate::wire::events;
use crate::wire::events::WireEventView;

verus! {

/// What a request carries as the conversation.
pub open spec fn sent_turns(model: ModelView, ctx: ContextView) -> Seq<JsonView> {
    anthropic::request(model, ctx).field_items("messages"@)->0
}

proof fn lemma_sent_turns(model: ModelView, ctx: ContextView)
    ensures
        anthropic::request(model, ctx).field_items("messages"@) == Some(
            anthropic::turns_of(ctx.system_prompt, ctx.messages).turns,
        ),
{
    keys::lemma_wire_keys();
}

/// A request names the model, says how many tokens may come and how warm they are to be, and
/// describes every tool in order: its name, what it says of itself and its schema.
pub proof fn law_request_names_model_and_tools(model: ModelView, ctx: ContextView, i: int)
    ensures
        ({
            let r = anthropic::request(model, ctx);
            &&& r.field_text("model"@) == Some(model.id)
            &&& ctx.max_tokens is Some ==> r.field_unsigned("max_tokens"@) == ctx.max_tokens
            &&& ctx.max_tokens is None && model.max_output_tokens is Some
                ==> r.field_unsigned("max_tokens"@) == model.max_output_tokens
            &&& ctx.max_tokens is None && model.max_output_tokens is None
                ==> r.field_unsigned("max_tokens"@) == Some(4096u64)
            &&& ctx.temperature is Some ==> r.get("temperature"@) == Some(
                JsonView::Number(NumberView::Decimal(ctx.temperature->0)),
            )
            &&& ctx.temperature is None && model.default_temperature is Some
                ==> r.get("temperature"@) == Some(
                JsonView::Number(NumberView::Decimal(model.default_temperature->0)),
            )
            &&& ctx.temperature is None && model.default_temperature is None
                ==> r.get("temperature"@) is None
            &&& ctx.tools.len() == 0 ==> r.get("tools"@) is None && r.get("tool_choice"@) is None
            &&& ctx.tools.len() > 0 ==> r.field_items("tools"@) is Some && r.field_items(
                "tools"@,
            )->0.len() == ctx.tools.len()
            &&& 0 <= i < ctx.tools.len() ==> {
                let t = r.field_items("tools"@)->0[i];
                &&& t.field_text("name"@) == Some(ctx.tools[i].name)
                &&& ctx.tools[i].description is Some ==> t.field_text("description"@)
                    == ctx.tools[i].description
                &&& t.get("input_schema"@) == Some(ctx.tools[i].parameters)
            }
        }),
{
    keys::lemma_wire_keys();
}

/// The service is told which tool to use: the named one, any of them, or whichever it likes.
pub proof fn law_request_says_which_tool(model: ModelView, ctx: ContextView)
    requires
        ctx.tools.len() > 0,
    ensures
        ({
            let r = anthropic::request(model, ctx);
            match ctx.tool_choice {
                None => r.get("tool_choice"@) is None,
                Some(ToolChoiceView::Tool { name }) => r.text2("tool_choice"@, "type"@) == Some(
                    "tool"@,
                ) && r.text2("tool_choice"@, "name"@) == Some(name),
                Some(ToolChoiceView::Required) => r.text2("tool_choice"@, "type"@) == Some("any"@)
                    && r.get2("tool_choice"@, "name"@) is None,
                Some(_) => r.text2("tool_choice"@, "type"@) == Some("auto"@) && r.get2(
                    "tool_choice"@,
                    "name"@,
                ) is None,
            }
        }),
{
    keys::lemma_wire_keys();
}

proof fn lemma_user_parts_add(a: Seq<BlockView>, b: Seq<BlockView>)
    ensures
        anthropic::user_parts(a + b) == anthropic::user_parts(a) + anthropic::user_parts(b),
    decreases b.len(),
{
    if b.len() == 0 {
        assert(a + b =~= a);
    } else {
        lemma_user_parts_add(a, b.drop_last());
        assert((a + b).drop_last() =~= a + b.drop_last());
    }
    assert(anthropic::user_parts(a + b) =~= anthropic::user_parts(a) + anthropic::user_parts(b));
}

proof fn lemma_assistant_parts_add(a: Seq<BlockView>, b: Seq<BlockView>)
    ensures
        anthropic::assistant_parts(a + b) == anthropic::assistant_parts(a)
            + anthropic::assistant_parts(b),
    decreases b.len(),
{
    if b.len() == 0 {
        assert(a + b =~= a);
    } else {
        lemma_assistant_parts_add(a, b.drop_last());
        assert((a + b).drop_last() =~= a + b.drop_last());
    }
    assert(anthropic::assistant_parts(a + b) =~= anthropic::assistant_parts(a)
        + anthropic::assistant_parts(b));
}

/// Whether a part is a text part that says `said`.
pub open spec fn says(part: JsonView, said: Seq<char>) -> bool {
    part.field_text("type"@) == Some("text"@) && part.field_text("text"@) == Some(said)
}

/// What stands before a block of the user's and what stands behind it goes to the service
/// around it, and the block itself goes as it is: a text with its words, an image with its type
/// and its bytes, anything else not at all.
pub proof fn law_user_blocks_reach_the_service(
    before: Seq<BlockView>,
    block: BlockView,
    behind: Seq<BlockView>,
)
    ensures
        ({
            let sent = anthropic::user_parts(before + seq![block] + behind);
            let a = anthropic::user_parts(before);
            let b = anthropic::user_parts(behind);
            let n = a.len() as int;
            match block {
                BlockView::Text { text, .. } => {
                    &&& sent == a.push(sent[n]) + b
                    &&& says(sent[n], text)
                },
                BlockView::Image { data, mime_type, .. } => {
                    &&& sent == a.push(sent[n]) + b
                    &&& sent[n].field_text("type"@) == Some("image"@)
                    &&& sent[n].text2("source"@, "type"@) == Some("base64"@)
                    &&& mime_type is Some ==> sent[n].text2("source"@, "media_type"@) == mime_type
                    &&& !text::begins(data, "data:"@) ==> sent[n].text2("source"@, "data"@)
                        == Some(data)
                },
                _ => sent == a + b,
            }
        }),
{
    keys::lemma_wire_keys();
    reveal_with_fuel(anthropic::user_parts, 2);
    lemma_user_parts_add(before + seq![block], behind);
    lemma_user_parts_add(before, seq![block]);
    assert(seq![block].drop_last() =~= Seq::<BlockView>::empty());
    let sent = anthropic::user_parts(before + seq![block] + behind);
    let a = anthropic::user_parts(before);
    let b = anthropic::user_parts(behind);
    assert(sent =~= a + anthropic::user_parts(seq![block]) + b);
    match anthropic::user_part(block) {
        Some(p) => {
            assert(anthropic::user_parts(seq![block]) =~= seq![p]);
            assert(sent =~= a.push(p) + b);
        },
        None => {
            assert(anthropic::user_parts(seq![block]) =~= Seq::<JsonView>::empty());
            assert(sent =~= a + b);
        },
    }
}

/// What stands before a block of the assistant's and what stands behind it goes to the service
/// around it, and the block itself goes as it is: a text and a thinking with their words, a tool
/// call with its id, its name and its arguments, anything else not at all.
pub proof fn law_assistant_blocks_reach_the_service(
    before: Seq<BlockView>,
    block: BlockView,
    behind: Seq<BlockView>,
)
    ensures
        ({
            let sent = anthropic::assistant_parts(before + seq![block] + behind);
            let a = anthropic::assistant_parts(before);
            let b = anthropic::assistant_parts(behind);
            let n = a.len() as int;
            match block {
                BlockView::Text { text, .. } => {
                    &&& sent == a.push(sent[n]) + b
                    &&& says(sent[n], text)
                },
                BlockView::Thinking { thinking, .. } => {
                    &&& sent == a.push(sent[n]) + b
                    &&& says(sent[n], thinking)
                },
                BlockView::ToolCall { id, name, arguments } => {
                    &&& sent == a.push(sent[n]) + b
                    &&& sent[n].field_text("type"@) == Some("tool_use"@)
                    &&& sent[n].field_text("id"@) == Some(id)
                    &&& sent[n].field_text("name"@) == Some(name)
                    &&& sent[n].get("input"@) == Some(arguments)
                },
                _ => sent == a + b,
            }
        }),
{
    keys::lemma_wire_keys();
    reveal_with_fuel(anthropic::assistant_parts, 2);
    lemma_assistant_parts_add(before + seq![block], behind);
    lemma_assistant_parts_add(before, seq![block]);
    assert(seq![block].drop_last() =~= Seq::<BlockView>::empty());
    let sent = anthropic::assistant_parts(before + seq![block] + behind);
    let a = anthropic::assistant_parts(before);
    let b = anthropic::assistant_parts(behind);
    assert(sent =~= a + anthropic::assistant_parts(seq![block]) + b);
    match anthropic::assistant_part(block) {
        Some(p) => {
            assert(anthropic::assistant_parts(seq![block]) =~= seq![p]);
            assert(sent =~= a.push(p) + b);
        },
        None => {
            assert(anthropic::assistant_parts(seq![block]) =~= Seq::<JsonView>::empty());
            assert(sent =~= a + b);
        },
    }
}

/// The conversation of `ctx` with one message more.
pub open spec fn continued(ctx: ContextView, m: MessageView) -> ContextView {
    ContextView { messages: ctx.messages.push(m), ..ctx }
}

proof fn lemma_continued(ctx: ContextView, m: MessageView)
    ensures
        anthropic::turns_of(ctx.system_prompt, continued(ctx, m).messages) == anthropic::turned(
            anthropic::turns_of(ctx.system_prompt, ctx.messages),
            m,
        ),
{
    assert(ctx.messages.push(m).drop_last() =~= ctx.messages);
}

/// A conversation that goes on keeps what was sent of it: the messages of the longer request
/// begin with those of the shorter one.
pub proof fn law_request_grows_with_the_conversation(
    model: ModelView,
    ctx: ContextView,
    m: MessageView,
)
    ensures
        ({
            let was = sent_turns(model, ctx);
            let is = sent_turns(model, continued(ctx, m));
            is.len() >= was.len() && is.take(was.len() as int) == was
        }),
        sent_turns(model, ContextView { messages: Seq::empty(), ..ctx }).len() == 0,
{
    lemma_sent_turns(model, ctx);
    lemma_sent_turns(model, continued(ctx, m));
    lemma_sent_turns(model, ContextView { messages: Seq::empty(), ..ctx });
    lemma_continued(ctx, m);
    let was = sent_turns(model, ctx);
    let is = sent_turns(model, continued(ctx, m));
    assert(is.take(was.len() as int) =~= was);
}

/// What a user says last is sent last, as the user's.
pub proof fn law_user_message_is_sent_last(
    model: ModelView,
    ctx: ContextView,
    content: Seq<BlockView>,
    timestamp: i64,
)
    ensures
        ({
            let sent = sent_turns(model, continued(ctx, MessageView::User { content, timestamp }));
            &&& sent.len() > 0
            &&& sent.last().field_text("role"@) == Some("user"@)
            &&& sent.last().field_items("content"@) == Some(anthropic::user_parts(content))
        }),
{
    keys::lemma_wire_keys();
    let m = MessageView::User { content, timestamp };
    lemma_sent_turns(model, continued(ctx, m));
    lemma_continued(ctx, m);
}

/// What the assistant said last is sent last, as the assistant's, unless it said nothing.
pub proof fn law_assistant_message_is_sent_last(
    model: ModelView,
    ctx: ContextView,
    a: AssistantView,
)
    ensures
        ({
            let was = sent_turns(model, ctx);
            let sent = sent_turns(model, continued(ctx, MessageView::Assistant(a)));
            if anthropic::assistant_parts(a.content).len() == 0 {
                sent == was
            } else {
                &&& sent.len() == was.len() + 1
                &&& sent.last().field_text("role"@) == Some("assistant"@)
                &&& sent.last().field_items("content"@) == Some(
                    anthropic::assistant_parts(a.content),
                )
            }
        }),
{
    keys::lemma_wire_keys();
    let m = MessageView::Assistant(a);
    lemma_sent_turns(model, ctx);
    lemma_sent_turns(model, continued(ctx, m));
    lemma_continued(ctx, m);
}

/// The result of a tool is sent as the user's: it names the call, says whether the tool failed,
/// and says what the tool said, its texts one per line.
pub proof fn law_tool_result_is_sent(
    model: ModelView,
    ctx: ContextView,
    tool_call_id: Seq<char>,
    tool_name: Seq<char>,
    content: Seq<BlockView>,
    is_error: bool,
    timestamp: i64,
)
    ensures
        ({
            let m = MessageView::ToolResult {
                tool_call_id,
                tool_name,
                content,
                is_error,
                timestamp,
            };
            let sent = sent_turns(model, continued(ctx, m));
            let parts = sent.last().field_items("content"@);
            &&& sent.len() > 0
            &&& sent.last().field_text("role"@) == Some("user"@)
            &&& parts is Some && parts->0.len() == 1
            &&& parts->0[0].field_text("type"@) == Some("tool_result"@)
            &&& parts->0[0].field_text("tool_use_id"@) == Some(tool_call_id)
            &&& parts->0[0].field_boolean("is_error"@) == Some(is_error)
            &&& parts->0[0].field_text("content"@) == Some(
                text::joined(types::block_texts(content), "\n"@),
            )
        }),
{
    keys::lemma_wire_keys();
    let m = MessageView::ToolResult { tool_call_id, tool_name, content, is_error, timestamp };
    lemma_sent_turns(model, continued(ctx, m));
    lemma_continued(ctx, m);
}

/// Results of a tool that say different things make different requests.
pub proof fn law_different_tool_results_differ(
    model: ModelView,
    ctx: ContextView,
    tool_call_id: Seq<char>,
    tool_name: Seq<char>,
    a: Seq<char>,
    b: Seq<char>,
    is_error: bool,
    timestamp: i64,
)
    requires
        a != b,
    ensures
        ({
            let result = |said: Seq<char>|
                MessageView::ToolResult {
                    tool_call_id,
                    tool_name,
                    content: seq![BlockView::Text { text: said, text_signature: None }],
                    is_error,
                    timestamp,
                };
            anthropic::request(model, continued(ctx, result(a))) != anthropic::request(
                model,
                continued(ctx, result(b)),
            )
        }),
{
    let one = |said: Seq<char>| seq![BlockView::Text { text: said, text_signature: None }];
    law_tool_result_is_sent(model, ctx, tool_call_id, tool_name, one(a), is_error, timestamp);
    law_tool_result_is_sent(model, ctx, tool_call_id, tool_name, one(b), is_error, timestamp);
    types::law_texts_of_blocks(Seq::empty(), one(a)[0], Seq::empty());
    types::law_texts_of_blocks(Seq::empty(), one(b)[0], Seq::empty());
    assert(Seq::empty() + one(a) + Seq::empty() =~= one(a));
    assert(Seq::empty() + one(b) + Seq::empty() =~= one(b));
    assert(types::block_texts(one(a)) =~= seq![a]);
    assert(types::block_texts(one(b)) =~= seq![b]);
}

/// What the system says is joined to the system prompt, behind what it said before and with a
/// blank line between; it is no message of the conversation.
pub proof fn law_system_message_joins_the_prompt(
    model: ModelView,
    ctx: ContextView,
    content: Seq<BlockView>,
    timestamp: i64,
)
    ensures
        ({
            let r = anthropic::request(model, ctx);
            let s = anthropic::request(
                model,
                continued(ctx, MessageView::System { content, timestamp }),
            );
            let said = text::joined(types::block_texts(content), "\n"@);
            &&& s.get("messages"@) == r.get("messages"@)
            &&& s.field_text("system"@) == Some(
                match r.field_text("system"@) {
                    Some(before) => before + "\n\n"@ + said,
                    None => said,
                },
            )
        }),
        ctx.messages.len() == 0 ==> anthropic::request(model, ctx).field_text("system"@)
            == ctx.system_prompt,
{
    keys::lemma_wire_keys();
    let m = MessageView::System { content, timestamp };
    lemma_sent_turns(model, ctx);
    lemma_sent_turns(model, continued(ctx, m));
    lemma_continued(ctx, m);
}

/// Nothing but what the system says changes the system prompt.
pub proof fn law_conversation_leaves_the_prompt_alone(
    model: ModelView,
    ctx: ContextView,
    m: MessageView,
)
    requires
        !(m is System),
    ensures
        anthropic::request(model, continued(ctx, m)).get("system"@) == anthropic::request(
            model,
            ctx,
        ).get("system"@),
{
    keys::lemma_wire_keys();
    lemma_continued(ctx, m);
}

/// The response `json` with one block more.
pub open spec fn longer(json: JsonView, block: JsonView) -> JsonView {
    json.with(
        "content"@,
        JsonView::Array(
            match json.field_items("content"@) {
                Some(items) => items,
                None => Seq::empty(),
            }.push(block),
        ),
    )
}

/// The message that the last event of a response carries.
pub open spec fn message_read(model: ModelView, json: JsonView, now: i64) -> AssistantView {
    anthropic::response_events(model, json, now).last()->Done_message->Assistant_0
}

/// What is reported of a response before its usage and its end.
pub open spec fn said_events(model: ModelView, json: JsonView, now: i64) -> Seq<WireEventView> {
    let all = anthropic::response_events(model, json, now);
    all.take(
        if json.get("usage"@) is Some {
            all.len() - 2
        } else {
            all.len() - 1
        },
    )
}

proof fn lemma_read(model: ModelView, json: JsonView, now: i64)
    ensures
        ({
            let items = match json.field_items("content"@) {
                Some(items) => items,
                None => Seq::empty(),
            };
            let read = anthropic::blocks_read(seq![events::start_of(model, now)], model, items, now);
            &&& message_read(model, json, now).content == read.content
            &&& said_events(model, json, now) == read.events
        }),
{
    let items = match json.field_items("content"@) {
        Some(items) => items,
        None => Seq::empty(),
    };
    let read = anthropic::blocks_read(seq![events::start_of(model, now)], model, items, now);
    assert(said_events(model, json, now) =~= read.events);
}

proof fn lemma_longer(model: ModelView, json: JsonView, block: JsonView, now: i64)
    requires
        json is Object,
    ensures
        ({
            let items = match json.field_items("content"@) {
                Some(items) => items,
                None => Seq::empty(),
            };
            let first = seq![events::start_of(model, now)];
            let before = anthropic::blocks_read(first, model, items, now);
            let after = anthropic::block_read(before, model, block, now);
            &&& message_read(model, json, now).content == before.content
            &&& said_events(model, json, now) == before.events
            &&& message_read(model, longer(json, block), now).content == after.content
            &&& said_events(model, longer(json, block), now) == after.events
        }),
{
    keys::lemma_wire_keys();
    let items = match json.field_items("content"@) {
        Some(items) => items,
        None => Seq::empty(),
    };
    lemma_read(model, json, now);
    lemma_read(model, longer(json, block), now);
    assert(longer(json, block).field_items("content"@) == Some(items.push(block)));
    assert(items.push(block).drop_last() =~= items);
}

/// A text that stands last in a response is the last block of the message, and it is reported
/// behind everything else that was said; a text that says nothing is left out.
pub proof fn law_text_block_is_read(
    model: ModelView,
    json: JsonView,
    block: JsonView,
    said: Seq<char>,
    now: i64,
)
    requires
        json is Object,
        block.field_text("type"@) == Some("text"@),
        block.field_text("text"@) == Some(said),
    ensures
        ({
            let before = message_read(model, json, now).content;
            let after = message_read(model, longer(json, block), now).content;
            let told = said_events(model, json, now);
            let more = said_events(model, longer(json, block), now);
            if said.len() == 0 {
                after == before && more == told
            } else {
                &&& after == before.push(
                    BlockView::Text { text: said, text_signature: None },
                )
                &&& more == told + seq![
                    WireEventView::TextStart,
                    WireEventView::TextDelta { delta: said },
                    WireEventView::TextEnd,
                ]
            }
        }),
{
    lemma_longer(model, json, block, now);
}

/// A tool call that stands last in a response is the last block of the message, with its id,
/// its name and its arguments, and it is reported with them behind everything else that was
/// said.
pub proof fn law_tool_call_is_read(
    model: ModelView,
    json: JsonView,
    block: JsonView,
    id: Seq<char>,
    name: Seq<char>,
    input: JsonView,
    now: i64,
)
    requires
        json is Object,
        block.field_text("type"@) == Some("tool_use"@),
        block.field_text("id"@) == Some(id),
        block.field_text("name"@) == Some(name),
        block.get("input"@) == Some(input),
    ensures
        ({
            let call = BlockView::ToolCall { id, name, arguments: input };
            let told = said_events(model, json, now);
            let more = said_events(model, longer(json, block), now);
            let n = told.len() as int;
            &&& message_read(model, longer(json, block), now).content == message_read(
                model,
                json,
                now,
            ).content.push(call)
            &&& more.len() == n + 3
            &&& more.take(n) == told
            &&& more[n] is ToolcallStart
            &&& more[n + 1] is ToolcallDelta
            &&& more[n + 1]->ToolcallDelta_partial->Assistant_0.content == seq![call]
            &&& more[n + 2] == WireEventView::ToolcallEnd { tool_call: call }
        }),
{
    keys::lemma_wire_keys();
    lemma_longer(model, json, block, now);
    let told = said_events(model, json, now);
    let more = said_events(model, longer(json, block), now);
    assert(more.take(told.len() as int) =~= told);
}

/// The calls among blocks.
pub open spec fn calls_among(content: Seq<BlockView>) -> Seq<BlockView> {
    content.filter(|b: BlockView| b is ToolCall)
}

proof fn lemma_filter_push(content: Seq<BlockView>, b: BlockView)
    ensures
        calls_among(content.push(b)) == if b is ToolCall {
            calls_among(content).push(b)
        } else {
            calls_among(content)
        },
{
    reveal(Seq::filter);
    assert(content.push(b).drop_last() =~= content);
}

proof fn lemma_calls_counted(
    first: Seq<WireEventView>,
    model: ModelView,
    items: Seq<JsonView>,
    now: i64,
)
    ensures
        anthropic::blocks_read(first, model, items, now).calls == calls_among(
            anthropic::blocks_read(first, model, items, now).content,
        ).len(),
    decreases items.len(),
{
    let read = anthropic::blocks_read(first, model, items, now);
    if items.len() == 0 {
        reveal(Seq::filter);
    } else {
        lemma_calls_counted(first, model, items.drop_last(), now);
        let before = anthropic::blocks_read(first, model, items.drop_last(), now);
        if read.content.len() > before.content.len() {
            lemma_filter_push(before.content, read.content.last());
            assert(read.content =~= before.content.push(read.content.last()));
        }
    }
}

/// Tool calls are numbered from zero in the order in which they stand in the message.
pub proof fn law_tool_calls_are_numbered(
    model: ModelView,
    json: JsonView,
    block: JsonView,
    now: i64,
)
    requires
        json is Object,
        block.field_text("type"@) == Some("tool_use"@),
    ensures
        ({
            let n = said_events(model, json, now).len() as int;
            let more = said_events(model, longer(json, block), now);
            let calls = calls_among(message_read(model, json, now).content).len() as int;
            &&& more[n] is ToolcallStart
            &&& more[n]->ToolcallStart_content_index == calls
            &&& more[n + 1] is ToolcallDelta
            &&& more[n + 1]->ToolcallDelta_content_index == calls
        }),
{
    keys::lemma_wire_keys();
    lemma_longer(model, json, block, now);
    let items = match json.field_items("content"@) {
        Some(items) => items,
        None => Seq::empty(),
    };
    lemma_calls_counted(seq![events::start_of(model, now)], model, items, now);
}

/// A block that is neither text nor a tool call is left out, and a response without blocks has
/// a message without content.
pub proof fn law_other_blocks_are_left_out(
    model: ModelView,
    json: JsonView,
    block: JsonView,
    now: i64,
)
    requires
        json is Object,
    ensures
        block.field_text("type"@) != Some("text"@) && block.field_text("type"@) != Some(
            "tool_use"@,
        ) ==> {
            &&& message_read(model, longer(json, block), now).content == message_read(
                model,
                json,
                now,
            ).content
            &&& said_events(model, longer(json, block), now) == said_events(model, json, now)
        },
        json.get("content"@) is None ==> {
            &&& message_read(model, json, now).content.len() == 0
            &&& said_events(model, json, now).len() == 1
        },
{
    lemma_longer(model, json, block, now);
}

/// The usage that a response reports is the usage of its message and is reported on its own,
/// each count is the one that the service gave, and it is these counts that are charged.
pub proof fn law_usage_is_read_and_charged(
    model: ModelView,
    json: JsonView,
    reported: JsonView,
    now: i64,
)
    requires
        json.get("usage"@) == Some(reported),
    ensures
        ({
            let all = anthropic::response_events(model, json, now);
            let u = message_read(model, json, now).usage;
            let count = |key: Seq<char>|
                match reported.field_unsigned(key) {
                    Some(n) => n,
                    None => 0u64,
                };
            &&& all[all.len() - 2] == WireEventView::Usage { usage: u }
            &&& u.input == count("input_tokens"@)
            &&& u.output == count("output_tokens"@)
            &&& u.cache_read == count("cache_read_input_tokens"@)
            &&& u.cache_write == count("cache_creation_input_tokens"@)
            &&& u.cost.input.tokens == u.input
            &&& u.cost.output.tokens == u.output
            &&& u.cost.cache_read.tokens == u.cache_read
            &&& u.cost.cache_write.tokens == u.cache_write
            &&& model.cost_rates.tiers.len() == 0 ==> {
                &&& u.cost.input.per_million == model.cost_rates.input_per_million
                &&& u.cost.output.per_million == model.cost_rates.output_per_million
                &&& u.cost.cache_read.per_million == model.cost_rates.input_cache_read_per_million
                &&& u.cost.cache_write.per_million
                    == model.cost_rates.input_cache_write_per_million
            }
        }),
{
    keys::lemma_wire_keys();
    law_response_is_attributed(model, json, now);
}

/// The message of a response says of which model, provider and service it is and when it came,
/// and why the model stopped is told both in it and with it.
pub proof fn law_response_is_attributed(model: ModelView, json: JsonView, now: i64)
    ensures
        ({
            let all = anthropic::response_events(model, json, now);
            let m = message_read(model, json, now);
            &&& all.last() is Done
            &&& all.last()->Done_message is Assistant
            &&& m.model == Some(model.id)
            &&& m.provider == model.provider_id
            &&& m.api == model.api
            &&& m.timestamp == now
            &&& m.error_message is None
            &&& m.stop_reason == json.field_text("stop_reason"@)
            &&& m.stop_reason is Some ==> all.last()->Done_reason == m.stop_reason->0
            &&& m.stop_reason is None ==> all.last()->Done_reason == "unknown"@
            &&& all[0] is Start
            &&& all[0]->Start_model == model.id
            &&& all[0]->Start_partial->Assistant_0.content.len() == 0
        }),
{
    anthropic::law_response_opens_and_ends(model, json, now);
}

/// What a tool call does not say is empty, and arguments that it does not give are null.
pub proof fn law_incomplete_call_is_read(
    model: ModelView,
    json: JsonView,
    block: JsonView,
    now: i64,
)
    requires
        json is Object,
        block.field_text("type"@) == Some("tool_use"@),
    ensures
        ({
            let before = message_read(model, json, now).content;
            let after = message_read(model, longer(json, block), now).content;
            &&& after.len() == before.len() + 1
            &&& after.last() matches BlockView::ToolCall { id, name, arguments } && {
                &&& block.field_text("id"@) is None ==> id.len() == 0
                &&& block.field_text("name"@) is None ==> name.len() == 0
                &&& block.get("input"@) is None ==> arguments == JsonView::Null
            }
        }),
{
    keys::lemma_wire_keys();
    lemma_longer(model, json, block, now);
}

proof fn lemma_user_is_last(system: Option<Seq<char>>, messages: Seq<MessageView>)
    ensures
        ({
            let t = anthropic::turns_of(system, messages);
            t.user_last <==> t.turns.len() > 0 && t.turns.last().field_text("role"@) == Some(
                "user"@,
            )
        }),
    decreases messages.len(),
{
    keys::lemma_wire_keys();
    reveal_strlit("user");
    reveal_strlit("assistant");
    assert("user"@.len() == 4 && "assistant"@.len() == 9);
    if messages.len() > 0 {
        lemma_user_is_last(system, messages.drop_last());
    }
}

/// A message of the user follows what was sent at once, unless that ends with the user's too: then
/// the assistant says a space between them, and nothing else is put in.
pub proof fn law_only_users_are_kept_apart(
    model: ModelView,
    ctx: ContextView,
    content: Seq<BlockView>,
    timestamp: i64,
)
    ensures
        ({
            let was = sent_turns(model, ctx);
            let sent = sent_turns(model, continued(ctx, MessageView::User { content, timestamp }));
            if was.len() > 0 && was.last().field_text("role"@) == Some("user"@) {
                let between = sent[was.len() as int];
                &&& sent.len() == was.len() + 2
                &&& between.field_text("role"@) == Some("assistant"@)
                &&& between.field_items("content"@) is Some
                &&& between.field_items("content"@)->0.len() == 1
                &&& between.field_items("content"@)->0[0].field_text("type"@) == Some("text"@)
                &&& between.field_items("content"@)->0[0].field_text("text"@) == Some(" "@)
            } else {
                sent.len() == was.len() + 1
            }
        }),
{
    keys::lemma_wire_keys();
    let m = MessageView::User { content, timestamp };
    lemma_sent_turns(model, ctx);
    lemma_sent_turns(model, continued(ctx, m));
    lemma_continued(ctx, m);
    lemma_user_is_last(ctx.system_prompt, ctx.messages);
}

} // verus!
