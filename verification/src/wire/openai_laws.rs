//! What holds of every request to and every response of the OpenAI chat completions service.
use vstd::prelude::*;
use crate::json::{JsonView, NumberView};
use crate::json_text;
use crate::keys;
use crate::text;
use crate::types;
use crate::types::{AssistantView, BlockView, ContextView, FormatView, MessageView, ModelView};
use crate::wire::events;
use crate::wire::events::WireEventView;
use crate::wire::openai;

verus! {

/// A request names the model, says whether the response is to come in pieces, how many tokens
/// may come and how warm they are to be, and describes every tool in order: its name, what it
/// says of itself and its schema.
pub proof fn law_request_names_model_and_tools(
    model: ModelView,
    ctx: ContextView,
    stream: bool,
    i: int,
)
    ensures
        ({
            let r = openai::request(model, ctx, stream);
            &&& r.field_text("model"@) == Some(model.id)
            &&& r.field_boolean("stream"@) == Some(stream)
            &&& r.field_unsigned("max_tokens"@) == ctx.max_tokens
            &&& ctx.temperature is Some ==> r.get("temperature"@) == Some(
                JsonView::Number(NumberView::Decimal(ctx.temperature->0)),
            )
            &&& ctx.temperature is None && model.default_temperature is Some
                ==> r.get("temperature"@) == Some(
                JsonView::Number(NumberView::Decimal(model.default_temperature->0)),
            )
            &&& ctx.temperature is None && model.default_temperature is None
                ==> r.get("temperature"@) is None
            &&& ctx.tools.len() == 0 ==> r.get("tools"@) is None
            &&& ctx.tools.len() > 0 ==> r.field_items("tools"@) is Some && r.field_items(
                "tools"@,
            )->0.len() == ctx.tools.len()
            &&& 0 <= i < ctx.tools.len() ==> {
                let t = r.field_items("tools"@)->0[i];
                &&& t.field_text("type"@) == Some("function"@)
                &&& t.text2("function"@, "name"@) == Some(ctx.tools[i].name)
                &&& ctx.tools[i].description is Some ==> t.text2("function"@, "description"@)
                    == ctx.tools[i].description
                &&& t.get2("function"@, "parameters"@) == Some(ctx.tools[i].parameters)
            }
        }),
{
    keys::lemma_wire_keys();
}

/// The service is told which shape the response is to have, where one was asked for.
pub proof fn law_request_says_which_shape(model: ModelView, ctx: ContextView, stream: bool)
    ensures
        ({
            let r = openai::request(model, ctx, stream);
            match ctx.response_format {
                None => r.get("response_format"@) is None,
                Some(FormatView::Text) => r.text2("response_format"@, "type"@) == Some("text"@),
                Some(FormatView::JsonObject) => r.text2("response_format"@, "type"@) == Some(
                    "jsonobject"@,
                ),
                Some(FormatView::JsonSchema { name, schema, strict }) => {
                    &&& r.text2("response_format"@, "type"@) == Some("jsonschema"@)
                    &&& r.text2("response_format"@, "name"@) == Some(name)
                    &&& r.get2("response_format"@, "schema"@) == schema
                    &&& r.get2("response_format"@, "strict"@) == Some(JsonView::Bool(strict))
                },
            }
        }),
{
    keys::lemma_wire_keys();
}

/// What a request carries as the conversation.
pub open spec fn sent_messages(model: ModelView, ctx: ContextView, stream: bool) -> Seq<JsonView> {
    openai::request(model, ctx, stream).field_items("messages"@)->0
}

proof fn lemma_sent_messages(model: ModelView, ctx: ContextView, stream: bool)
    ensures
        openai::request(model, ctx, stream).field_items("messages"@) == Some(
            openai::service_messages(ctx),
        ),
{
    keys::lemma_wire_keys();
}

/// Whether a message of the service is made of `parts`; a single text may go as it is.
pub open spec fn says_parts(message: JsonView, parts: Seq<JsonView>) -> bool {
    ||| message.field_items("content"@) == Some(parts)
    ||| {
        &&& parts.len() == 1
        &&& parts[0].field_text("text"@) is Some
        &&& message.field_text("content"@) == parts[0].field_text("text"@)
    }
}

/// The system prompt is sent first and every message of the conversation behind it, in order
/// and under its own role: what the user and the assistant said, the calls of the assistant,
/// what a tool said and which call it answers, and what the system said.
pub proof fn law_every_message_is_sent(
    model: ModelView,
    ctx: ContextView,
    stream: bool,
    i: int,
)
    ensures
        ({
            let sent = sent_messages(model, ctx, stream);
            let n: int = if ctx.system_prompt is Some {
                1
            } else {
                0
            };
            let m = sent[n + i];
            &&& sent.len() == n + ctx.messages.len()
            &&& ctx.system_prompt is Some ==> {
                &&& sent[0].field_text("role"@) == Some("system"@)
                &&& sent[0].field_text("content"@) == ctx.system_prompt
            }
            &&& 0 <= i < ctx.messages.len() ==> match ctx.messages[i] {
                MessageView::User { content, .. } => {
                    &&& m.field_text("role"@) == Some("user"@)
                    &&& m.get("tool_calls"@) is None
                    &&& says_parts(m, openai::user_parts(content))
                },
                MessageView::Assistant(a) => {
                    &&& m.field_text("role"@) == Some("assistant"@)
                    &&& openai::said_parts(a.content).len() == 0 ==> m.get("content"@) == Some(
                        JsonView::Null,
                    )
                    &&& openai::said_parts(a.content).len() > 0 ==> says_parts(
                        m,
                        openai::said_parts(a.content),
                    )
                    &&& openai::service_calls(a.content).len() == 0 ==> m.get("tool_calls"@)
                        is None
                    &&& openai::service_calls(a.content).len() > 0 ==> m.field_items(
                        "tool_calls"@,
                    ) == Some(openai::service_calls(a.content))
                },
                MessageView::ToolResult { tool_call_id, content, .. } => {
                    &&& m.field_text("role"@) == Some("tool"@)
                    &&& m.field_text("tool_call_id"@) == Some(tool_call_id)
                    &&& m.field_text("content"@) == Some(
                        text::joined(types::block_texts(content), "\n"@),
                    )
                },
                MessageView::System { content, .. } => {
                    &&& m.field_text("role"@) == Some("system"@)
                    &&& m.field_text("content"@) == Some(
                        text::joined(types::block_texts(content), "\n"@),
                    )
                },
            }
        }),
{
    keys::lemma_wire_keys();
    lemma_sent_messages(model, ctx, stream);
}

proof fn lemma_user_parts_add(a: Seq<BlockView>, b: Seq<BlockView>)
    ensures
        openai::user_parts(a + b) == openai::user_parts(a) + openai::user_parts(b),
    decreases b.len(),
{
    if b.len() == 0 {
        assert(a + b =~= a);
    } else {
        lemma_user_parts_add(a, b.drop_last());
        assert((a + b).drop_last() =~= a + b.drop_last());
    }
    assert(openai::user_parts(a + b) =~= openai::user_parts(a) + openai::user_parts(b));
}

proof fn lemma_said_parts_add(a: Seq<BlockView>, b: Seq<BlockView>)
    ensures
        openai::said_parts(a + b) == openai::said_parts(a) + openai::said_parts(b),
        openai::service_calls(a + b) == openai::service_calls(a) + openai::service_calls(b),
    decreases b.len(),
{
    if b.len() == 0 {
        assert(a + b =~= a);
    } else {
        lemma_said_parts_add(a, b.drop_last());
        assert((a + b).drop_last() =~= a + b.drop_last());
    }
    assert(openai::said_parts(a + b) =~= openai::said_parts(a) + openai::said_parts(b));
    assert(openai::service_calls(a + b) =~= openai::service_calls(a) + openai::service_calls(b));
}

/// What stands before a block of the user's and what stands behind it goes to the service
/// around it, and the block itself goes as it is: a text with its words, an image by its data
/// address, anything else not at all.
pub proof fn law_user_blocks_reach_the_service(
    before: Seq<BlockView>,
    block: BlockView,
    behind: Seq<BlockView>,
)
    ensures
        ({
            let sent = openai::user_parts(before + seq![block] + behind);
            let a = openai::user_parts(before);
            let b = openai::user_parts(behind);
            let n = a.len() as int;
            match block {
                BlockView::Text { text, .. } => {
                    &&& sent == a.push(sent[n]) + b
                    &&& sent[n].field_text("type"@) == Some("text"@)
                    &&& sent[n].field_text("text"@) == Some(text)
                },
                BlockView::Image { data, mime_type, .. } => {
                    &&& sent == a.push(sent[n]) + b
                    &&& sent[n].field_text("type"@) == Some("image_url"@)
                    &&& text::begins(data, "data:"@) ==> sent[n].text2("image_url"@, "url"@)
                        == Some(data)
                    &&& !text::begins(data, "data:"@) && mime_type is Some ==> sent[n].text2(
                        "image_url"@,
                        "url"@,
                    ) == Some("data:"@ + mime_type->0 + ";base64,"@ + data)
                },
                _ => sent == a + b,
            }
        }),
{
    keys::lemma_wire_keys();
    reveal_with_fuel(openai::user_parts, 2);
    lemma_user_parts_add(before + seq![block], behind);
    lemma_user_parts_add(before, seq![block]);
    assert(seq![block].drop_last() =~= Seq::<BlockView>::empty());
    let sent = openai::user_parts(before + seq![block] + behind);
    let a = openai::user_parts(before);
    let b = openai::user_parts(behind);
    assert(sent =~= a + openai::user_parts(seq![block]) + b);
    match openai::user_part(block) {
        Some(p) => {
            assert(openai::user_parts(seq![block]) =~= seq![p]);
            assert(sent =~= a.push(p) + b);
        },
        None => {
            assert(openai::user_parts(seq![block]) =~= Seq::<JsonView>::empty());
            assert(sent =~= a + b);
        },
    }
}

/// What stands before a block of the assistant's and what stands behind it goes to the service
/// around it: a text with its words among what is said, a tool call with its id, its name and
/// its arguments as JSON text among the calls, anything else not at all.
pub proof fn law_assistant_blocks_reach_the_service(
    before: Seq<BlockView>,
    block: BlockView,
    behind: Seq<BlockView>,
)
    ensures
        ({
            let said = openai::said_parts(before + seq![block] + behind);
            let calls = openai::service_calls(before + seq![block] + behind);
            let (sa, sb) = (openai::said_parts(before), openai::said_parts(behind));
            let (ca, cb) = (openai::service_calls(before), openai::service_calls(behind));
            let (s, c) = (sa.len() as int, ca.len() as int);
            match block {
                BlockView::Text { text, .. } => {
                    &&& said == sa.push(said[s]) + sb
                    &&& said[s].field_text("type"@) == Some("text"@)
                    &&& said[s].field_text("text"@) == Some(text)
                    &&& calls == ca + cb
                },
                BlockView::ToolCall { id, name, arguments } => {
                    &&& said == sa + sb
                    &&& calls == ca.push(calls[c]) + cb
                    &&& calls[c].field_text("id"@) == Some(id)
                    &&& calls[c].field_text("type"@) == Some("function"@)
                    &&& calls[c].text2("function"@, "name"@) == Some(name)
                    &&& calls[c].text2("function"@, "arguments"@) == Some(
                        json_text::text_of_json(arguments),
                    )
                },
                _ => said == sa + sb && calls == ca + cb,
            }
        }),
{
    keys::lemma_wire_keys();
    reveal_with_fuel(openai::said_parts, 2);
    reveal_with_fuel(openai::service_calls, 2);
    lemma_said_parts_add(before + seq![block], behind);
    lemma_said_parts_add(before, seq![block]);
    assert(seq![block].drop_last() =~= Seq::<BlockView>::empty());
    let said = openai::said_parts(before + seq![block] + behind);
    let calls = openai::service_calls(before + seq![block] + behind);
    let (sa, sb) = (openai::said_parts(before), openai::said_parts(behind));
    let (ca, cb) = (openai::service_calls(before), openai::service_calls(behind));
    match block {
        BlockView::Text { text, .. } => {
            let p = openai::said_parts(seq![block])[0];
            assert(openai::said_parts(seq![block]) =~= seq![p]);
            assert(said =~= sa.push(p) + sb);
            assert(calls =~= ca + cb);
        },
        BlockView::ToolCall { id, name, arguments } => {
            let p = openai::service_calls(seq![block])[0];
            assert(openai::service_calls(seq![block]) =~= seq![p]);
            assert(calls =~= ca.push(p) + cb);
            assert(said =~= sa + sb);
        },
        _ => {
            assert(said =~= sa + sb);
            assert(calls =~= ca + cb);
        },
    }
}

/// The message that the last event of a response carries.
pub open spec fn message_read(model: ModelView, json: JsonView, now: i64) -> AssistantView {
    openai::response_events(model, json, now).last()->Done_message->Assistant_0
}

proof fn lemma_calls_read(
    first: openai::ReadView,
    model: ModelView,
    calls: Seq<JsonView>,
    now: i64,
    i: int,
)
    ensures
        ({
            let read = openai::calls_read(first, model, calls, now);
            &&& read.content.len() == first.content.len() + calls.len()
            &&& read.events.len() == first.events.len() + 3 * calls.len()
            &&& read.content.take(first.content.len() as int) == first.content
            &&& read.events.take(first.events.len() as int) == first.events
            &&& 0 <= i < calls.len() ==> {
                let call = openai::call_read(calls[i]);
                &&& read.content[first.content.len() + i] == call
                &&& read.events[first.events.len() + 3 * i] is ToolcallStart
                &&& read.events[first.events.len() + 3 * i]->ToolcallStart_content_index == i
                &&& read.events[first.events.len() + 3 * i + 1] is ToolcallDelta
                &&& read.events[first.events.len() + 3 * i + 1]->ToolcallDelta_content_index == i
                &&& read.events[first.events.len() + 3 * i + 2] == (WireEventView::ToolcallEnd {
                    tool_call: call,
                })
            }
        }),
    decreases calls.len(),
{
    let read = openai::calls_read(first, model, calls, now);
    if calls.len() == 0 {
        assert(read.content.take(first.content.len() as int) =~= first.content);
        assert(read.events.take(first.events.len() as int) =~= first.events);
    } else {
        let init = calls.drop_last();
        lemma_calls_read(first, model, init, now, i);
        let before = openai::calls_read(first, model, init, now);
        assert(read.content.take(first.content.len() as int) =~= before.content.take(
            first.content.len() as int,
        ));
        assert(read.events.take(first.events.len() as int) =~= before.events.take(
            first.events.len() as int,
        ));
        if 0 <= i < init.len() {
            assert(init[i] == calls[i]);
            assert(read.events[first.events.len() + 3 * i]
                == before.events[first.events.len() + 3 * i]);
            assert(read.events[first.events.len() + 3 * i + 1]
                == before.events[first.events.len() + 3 * i + 1]);
            assert(read.events[first.events.len() + 3 * i + 2]
                == before.events[first.events.len() + 3 * i + 2]);
        }
    }
}

/// The message of a response is what the first choice says: its text, where there is one, and
/// behind it every tool call in order, with its id, its name and what its argument text reads
/// as. Both are reported in that order.
pub proof fn law_first_choice_is_read(
    model: ModelView,
    json: JsonView,
    choices: Seq<JsonView>,
    message: JsonView,
    i: int,
    now: i64,
)
    requires
        json.field_items("choices"@) == Some(choices),
        choices.len() > 0,
        choices[0].get("message"@) == Some(message),
    ensures
        ({
            let all = openai::response_events(model, json, now);
            let m = message_read(model, json, now);
            let said = message.field_text("content"@);
            let speaks = said is Some && said->0.len() > 0;
            let calls = match message.field_items("tool_calls"@) {
                Some(c) => c,
                None => Seq::empty(),
            };
            let n: int = if speaks {
                1
            } else {
                0
            };
            let call = m.content[n + i];
            &&& m.content.len() == n + calls.len()
            &&& speaks ==> {
                &&& m.content[0] == BlockView::Text { text: said->0, text_signature: None }
                &&& all[1] is TextStart
                &&& all[2] == WireEventView::TextDelta { delta: said->0 }
                &&& all[3] is TextEnd
            }
            &&& 0 <= i < calls.len() ==> {
                &&& call is ToolCall
                &&& calls[i].field_text("id"@) is Some ==> call->ToolCall_id
                    == calls[i].field_text("id"@)->0
                &&& calls[i].text2("function"@, "name"@) is Some ==> call->ToolCall_name
                    == calls[i].text2("function"@, "name"@)->0
                &&& calls[i].text2("function"@, "arguments"@) is Some ==> {
                    let read = json_text::json_of_text(calls[i].text2("function"@, "arguments"@)->0);
                    &&& read is Ok ==> call->ToolCall_arguments == read->Ok_0
                    &&& read is Err ==> call->ToolCall_arguments == JsonView::Null
                }
                &&& calls[i].field_text("id"@) is None ==> call->ToolCall_id.len() == 0
                &&& calls[i].text2("function"@, "name"@) is None ==> call->ToolCall_name.len() == 0
                &&& calls[i].text2("function"@, "arguments"@) is None ==> {
                    let read = json_text::json_of_text("{}"@);
                    &&& read is Ok ==> call->ToolCall_arguments == read->Ok_0
                    &&& read is Err ==> call->ToolCall_arguments == JsonView::Null
                }
                &&& all[1 + 3 * n + 3 * i] is ToolcallStart
                &&& all[1 + 3 * n + 3 * i]->ToolcallStart_content_index == i
                &&& all[1 + 3 * n + 3 * i + 2] == (WireEventView::ToolcallEnd { tool_call: call })
            }
        }),
{
    keys::lemma_wire_keys();
    let first = seq![events::start_of(model, now)];
    let said = message.field_text("content"@);
    let speaks = said is Some && said->0.len() > 0;
    let calls = match message.field_items("tool_calls"@) {
        Some(c) => c,
        None => Seq::empty(),
    };
    let start = if speaks {
        openai::ReadView {
            events: first + events::text_events(said->0),
            content: seq![BlockView::Text { text: said->0, text_signature: None }],
        }
    } else {
        openai::ReadView { events: first, content: Seq::empty() }
    };
    lemma_calls_read(start, model, calls, now, i);
    let read = openai::calls_read(start, model, calls, now);
    let all = openai::response_events(model, json, now);
    assert(read == openai::message_read(first, model, message, now));
    assert(message_read(model, json, now).content == read.content);
    assert(all.take(read.events.len() as int) =~= read.events);
    assert forall|k: int| 0 <= k < read.events.len() implies all[k] == read.events[k] by {
        assert(all.take(read.events.len() as int)[k] == all[k]);
    }
    if speaks {
        assert(start.events =~= read.events.take(4));
        assert(read.events.take(4)[1] == read.events[1]);
        assert(read.events.take(4)[2] == read.events[2]);
        assert(read.events.take(4)[3] == read.events[3]);
        assert(start.content =~= read.content.take(1));
        assert(read.content.take(1)[0] == read.content[0]);
    }
}

/// The usage that a response reports is the usage of its message and is reported on its own,
/// each count is the one that the service gave, and it is these counts that are charged.
pub proof fn law_usage_is_read_and_charged(
    model: ModelView,
    json: JsonView,
    reported: JsonView,
    now: i64,
)
    requires
        json.get("usage"@) == Some(reported),
    ensures
        ({
            let all = openai::response_events(model, json, now);
            let u = message_read(model, json, now).usage;
            let given = |n: Option<u64>|
                match n {
                    Some(n) => n,
                    None => 0u64,
                };
            &&& all[all.len() - 2] == WireEventView::Usage { usage: u }
            &&& u.input == given(reported.field_unsigned("prompt_tokens"@))
            &&& u.output == given(reported.field_unsigned("completion_tokens"@))
            &&& u.cache_read == given(
                reported.unsigned2("prompt_tokens_details"@, "cached_tokens"@),
            )
            &&& u.cache_write == 0
            &&& u.cost.input.tokens == u.input
            &&& u.cost.output.tokens == u.output
            &&& u.cost.cache_read.tokens == u.cache_read
            &&& u.cost.cache_write.tokens == u.cache_write
            &&& model.cost_rates.tiers.len() == 0 ==> {
                &&& u.cost.input.per_million == model.cost_rates.input_per_million
                &&& u.cost.output.per_million == model.cost_rates.output_per_million
                &&& u.cost.cache_read.per_million == model.cost_rates.input_cache_read_per_million
            }
        }),
{
    keys::lemma_wire_keys();
    openai::law_response_opens_and_ends(model, json, now);
}

/// The message of a response says of which model, provider and service it is and when it came,
/// and why the model stopped is told both in it and with it.
pub proof fn law_response_is_attributed(
    model: ModelView,
    json: JsonView,
    choices: Seq<JsonView>,
    now: i64,
)
    requires
        json.field_items("choices"@) == Some(choices),
        choices.len() > 0,
    ensures
        ({
            let all = openai::response_events(model, json, now);
            let m = message_read(model, json, now);
            &&& all.last() is Done
            &&& all.last()->Done_message is Assistant
            &&& m.model == Some(model.id)
            &&& m.provider == model.provider_id
            &&& m.api == model.api
            &&& m.timestamp == now
            &&& m.error_message is None
            &&& m.stop_reason == choices[0].field_text("finish_reason"@)
            &&& m.stop_reason is Some ==> all.last()->Done_reason == m.stop_reason->0
            &&& m.stop_reason is None ==> all.last()->Done_reason == "unknown"@
            &&& all[0] is Start
            &&& all[0]->Start_model == model.id
            &&& all[0]->Start_partial->Assistant_0.content.len() == 0
        }),
{
    openai::law_response_opens_and_ends(model, json, now);
}

} // verus!
