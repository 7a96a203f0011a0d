//! What scripted responses come to.
use vstd::prelude::*;
use vstd::utf8::*;
use crate::faux::content;
use crate::faux::content::FauxContentInput;
use crate::faux::deltas;
use crate::faux::deltas::{DeltaPhase, DeltaView};
use crate::faux::estimate;
use crate::faux::script;
use crate::faux::script::{CoreView, DefinitionView};
use crate::json::JsonView;
use crate::json_text;
use crate::text;
use crate::types::{
    BlockView, CacheRetention, ContentBlock, ContextView, EventView, MessageView, ToolView,
};
use crate::views;

verus! {

broadcast use crate::views::group_views;

/// A text, a block and blocks are the content that they say, block by block.
pub proof fn law_content_is_what_was_given(
    said: String,
    block: ContentBlock,
    blocks: Vec<ContentBlock>,
    i: int,
)
    requires
        0 <= i < blocks@.len(),
    ensures
        content::normalized(FauxContentInput::Text(said)).len() == 1,
        content::normalized(FauxContentInput::Text(said))[0] == (BlockView::Text {
            text: said@,
            text_signature: None,
        }),
        content::normalized(FauxContentInput::Block(block)).len() == 1,
        content::normalized(FauxContentInput::Block(block))[0] == block@,
        content::normalized(FauxContentInput::Blocks(blocks)).len() == blocks@.len(),
        content::normalized(FauxContentInput::Blocks(blocks))[i] == blocks@[i]@,
{
}

/// A message that is cut short keeps what came of it, and says that it was aborted.
pub proof fn law_aborted_message_keeps_what_came(m: MessageView)
    ensures
        match (m, content::aborted(m)) {
            (MessageView::Assistant(a), MessageView::Assistant(b)) => {
                &&& b.content == a.content
                &&& b.api == a.api
                &&& b.provider == a.provider
                &&& b.model == a.model
                &&& b.usage == a.usage
                &&& b.response_id == a.response_id
                &&& b.timestamp == a.timestamp
                &&& b.stop_reason == Some("aborted"@)
                &&& b.error_message == Some("Request was aborted"@)
                &&& content::error_text(content::aborted(m)) == "Request was aborted"@
            },
            (MessageView::Assistant(_), _) => false,
            _ => content::aborted(m) == m,
        },
{
}

/// A failure is told by the message of the failure, and else by the reason.
pub proof fn law_failure_is_told_by_its_message(m: MessageView)
    ensures
        match m {
            MessageView::Assistant(a) => {
                &&& a.error_message is Some ==> content::error_text(m) == a.error_message->0
                &&& a.error_message is None && a.stop_reason is Some ==> content::error_text(m)
                    == a.stop_reason->0
            },
            _ => content::error_text(m) == "unknown error"@,
        },
{
}

/// A failure names the model that was asked, and has no content.
pub proof fn law_failure_is_of_its_model(
    err: Seq<char>,
    api: Seq<char>,
    provider: Seq<char>,
    model_id: Seq<char>,
    now: i64,
)
    ensures
        ({
            let a = content::error_message_of(err, api, provider, model_id, now);
            &&& a.error_message == Some(err)
            &&& a.stop_reason == Some("error"@)
            &&& a.api == api
            &&& a.provider == provider
            &&& a.model == Some(model_id)
            &&& a.timestamp == now
            &&& a.content.len() == 0
        }),
{
}

/// A scripted message becomes one of the model that was asked, and says the same; it keeps the
/// time that it has.
pub proof fn law_scripted_message_becomes_the_models(
    m: MessageView,
    api: Seq<char>,
    provider: Seq<char>,
    model_id: Seq<char>,
    now: i64,
)
    ensures
        match (m, content::adopted(m, api, provider, model_id, now)) {
            (MessageView::Assistant(a), MessageView::Assistant(b)) => {
                &&& b.api == api
                &&& b.provider == provider
                &&& b.model == Some(model_id)
                &&& b.content == a.content
                &&& b.usage == a.usage
                &&& b.stop_reason == a.stop_reason
                &&& b.error_message == a.error_message
                &&& b.response_id == a.response_id
                &&& b.end_turn == a.end_turn
                &&& a.timestamp != 0 ==> b.timestamp == a.timestamp
                &&& a.timestamp == 0 ==> b.timestamp == now
            },
            (MessageView::Assistant(_), _) => false,
            _ => content::adopted(m, api, provider, model_id, now) == m,
        },
{
}

/// Four bytes are one token, and a part of four counts as one too.
pub proof fn law_four_bytes_are_a_token(bytes: nat)
    ensures
        4 * estimate::tokens_of(bytes) >= bytes,
        4 * estimate::tokens_of(bytes) < bytes + 4,
        estimate::tokens_of(bytes + 4) == estimate::tokens_of(bytes) + 1,
        estimate::tokens_of(0) == 0,
{
}

/// A text counts as itself wherever it stands.
pub proof fn law_text_counts_as_itself(said: Seq<char>, signature: Option<Seq<char>>)
    ensures
        ({
            let b = BlockView::Text { text: said, text_signature: signature };
            &&& estimate::block_text(b) == said
            &&& estimate::assistant_block_text(b) == said
            &&& estimate::result_block_text(b) == said
            &&& estimate::content_line(seq![b]) == said
            &&& estimate::assistant_line(seq![b]) == said
        }),
{
    let b = BlockView::Text { text: said, text_signature: signature };
    law_content_counts_block_by_block(Seq::empty(), b);
    assert(Seq::<BlockView>::empty().push(b) =~= seq![b]);
}

/// Thinking counts as itself in what an assistant says, and a call as its name and arguments; an
/// image counts by its type and by how long it is.
pub proof fn law_other_blocks_count(
    thinking: Seq<char>,
    signature: Option<Seq<char>>,
    id: Seq<char>,
    name: Seq<char>,
    arguments: JsonView,
    image: BlockView,
)
    ensures
        estimate::assistant_block_text(BlockView::Thinking { thinking, signature }) == thinking,
        estimate::assistant_block_text(BlockView::ToolCall { id, name, arguments }) == name + ":"@
            + json_text::text_of_json(arguments),
        image matches BlockView::Image { data, mime_type, .. } ==> {
            let t = estimate::block_text(image);
            &&& text::begins(
                t,
                "[image:"@ + views::or(mime_type, "application/octet-stream"@) + ":"@,
            )
            &&& text::ends(t, text::decimal_text(encode_utf8(data).len()) + "]"@)
        },
{
    if let BlockView::Image { data, mime_type, .. } = image {
        let t = estimate::block_text(image);
        let head = "[image:"@ + views::or(mime_type, "application/octet-stream"@) + ":"@;
        let tail = text::decimal_text(encode_utf8(data).len()) + "]"@;
        assert(t =~= head + tail);
        assert(t.take(head.len() as int) =~= head);
        assert(t.skip(t.len() - tail.len()) =~= tail);
    }
}

proof fn lemma_joined_push(parts: Seq<Seq<char>>, one: Seq<char>, sep: Seq<char>)
    ensures
        text::joined(parts.push(one), sep) == if parts.len() == 0 {
            one
        } else {
            text::joined(parts, sep) + sep + one
        },
{
    text::law_joined_texts_are_all_there(parts, seq![one], sep, one);
    assert(parts.push(one) =~= parts + seq![one]);
    if parts.len() == 0 {
        assert(parts + seq![one] =~= seq![one]);
    }
}

/// One more block of a message is one more line of what the message counts as.
pub proof fn law_content_counts_block_by_block(content: Seq<BlockView>, b: BlockView)
    ensures
        estimate::content_line(content.push(b)) == if content.len() == 0 {
            estimate::block_text(b)
        } else {
            estimate::content_line(content) + "\n"@ + estimate::block_text(b)
        },
        estimate::assistant_line(content.push(b)) == if content.len() == 0 {
            estimate::assistant_block_text(b)
        } else {
            estimate::assistant_line(content) + "\n"@ + estimate::assistant_block_text(b)
        },
{
    let f = |b: BlockView| estimate::block_text(b);
    let g = |b: BlockView| estimate::assistant_block_text(b);
    assert(content.push(b).map_values(f) =~= content.map_values(f).push(f(b)));
    assert(content.push(b).map_values(g) =~= content.map_values(g).push(g(b)));
    lemma_joined_push(content.map_values(f), f(b), "\n"@);
    lemma_joined_push(content.map_values(g), g(b), "\n"@);
}

/// A message counts as its content, and a result of a tool as the tool and its texts as well.
pub proof fn law_messages_count_as_their_content(m: MessageView)
    ensures
        m matches MessageView::User { content, .. } ==> estimate::message_line(m)
            == estimate::content_line(content) && estimate::role(m) == "user"@,
        m matches MessageView::System { content, .. } ==> estimate::message_line(m)
            == estimate::content_line(content) && estimate::role(m) == "system"@,
        m matches MessageView::Assistant(a) ==> estimate::message_line(m)
            == estimate::assistant_line(a.content) && estimate::output_line(m)
            == estimate::assistant_line(a.content) && estimate::role(m) == "assistant"@,
        m matches MessageView::ToolResult { tool_name, .. } ==> text::begins(
            estimate::message_line(m),
            "toolResult:"@ + tool_name,
        ) && estimate::role(m) == "toolResult"@,
{
    if let MessageView::ToolResult { tool_name, content, .. } = m {
        let lines = content.map_values(|b: BlockView| estimate::result_block_text(b));
        text::law_joined_texts_are_all_there(seq![tool_name], lines, "\n"@, tool_name);
        let head = "toolResult:"@ + tool_name;
        if lines.len() == 0 {
            assert(seq![tool_name] + lines =~= seq![tool_name]);
        }
        assert(estimate::message_line(m).take(head.len() as int) =~= head);
    }
}

/// A result of a tool counts its texts, one line each.
pub proof fn law_results_count_their_texts(
    tool_call_id: Seq<char>,
    tool_name: Seq<char>,
    content: Seq<BlockView>,
    is_error: bool,
    timestamp: i64,
    said: Seq<char>,
)
    ensures
        ({
            let b = BlockView::Text { text: said, text_signature: None };
            let m = MessageView::ToolResult {
                tool_call_id,
                tool_name,
                content,
                is_error,
                timestamp,
            };
            let more = MessageView::ToolResult {
                tool_call_id,
                tool_name,
                content: content.push(b),
                is_error,
                timestamp,
            };
            estimate::message_line(more) == estimate::message_line(m) + "\n"@ + said
        }),
{
    let b = BlockView::Text { text: said, text_signature: None };
    let f = |b: BlockView| estimate::result_block_text(b);
    let lines = seq![tool_name] + content.map_values(f);
    assert(seq![tool_name] + content.push(b).map_values(f) =~= lines.push(said));
    lemma_joined_push(lines, said, "\n"@);
    let j = text::joined(lines, "\n"@);
    assert("toolResult:"@ + (j + "\n"@ + said) =~= ("toolResult:"@ + j) + "\n"@ + said);
}

/// One more message of a context that asks for no tools is one more part of its text, under the
/// role of the message.
pub proof fn law_context_counts_message_by_message(ctx: ContextView, m: MessageView)
    requires
        ctx.tools.len() == 0,
    ensures
        ({
            let more = ContextView { messages: ctx.messages.push(m), ..ctx };
            let line = estimate::role(m) + ":"@ + estimate::message_line(m);
            estimate::context_text(more) == if ctx.messages.len() == 0 && ctx.system_prompt is None {
                line
            } else {
                estimate::context_text(ctx) + "\n\n"@ + line
            }
        }),
{
    let more = ContextView { messages: ctx.messages.push(m), ..ctx };
    let line = estimate::role(m) + ":"@ + estimate::message_line(m);
    assert(estimate::context_parts(more) =~= estimate::context_parts(ctx).push(line));
    lemma_joined_push(estimate::context_parts(ctx), line, "\n\n"@);
}

/// The text of a context begins with its system prompt and ends with its tools, behind what the
/// context would count as without them.
pub proof fn law_context_counts_prompt_and_tools(ctx: ContextView, prompt: Seq<char>)
    ensures
        ({
            let asked = ContextView { system_prompt: Some(prompt), ..ctx };
            text::begins(estimate::context_text(asked), "system:"@ + prompt)
        }),
        ctx.tools.len() > 0 ==> text::ends(
            estimate::context_text(ctx),
            "tools:"@ + estimate::tools_text(ctx.tools),
        ),
{
    let asked = ContextView { system_prompt: Some(prompt), ..ctx };
    let first = "system:"@ + prompt;
    let parts = estimate::context_parts(asked);
    let rest = parts.skip(1);
    assert(parts =~= seq![first] + rest);
    text::law_joined_texts_are_all_there(seq![first], rest, "\n\n"@, first);
    if rest.len() == 0 {
        assert(parts =~= seq![first]);
    }
    assert(estimate::context_text(asked).take(first.len() as int) =~= first);
    if ctx.tools.len() > 0 {
        let last = "tools:"@ + estimate::tools_text(ctx.tools);
        let all = estimate::context_parts(ctx);
        assert(all.last() == last);
        assert(all =~= all.drop_last().push(last));
        lemma_joined_push(all.drop_last(), last, "\n\n"@);
        let t = estimate::context_text(ctx);
        assert(t.skip(t.len() - last.len()) =~= last);
    }
}

/// A tool counts by its name, its schema and what else it says.
pub proof fn law_tools_count(t: ToolView)
    ensures
        text::begins(
            estimate::tool_text(t),
            "{\"name\":"@ + json_text::text_of_json(JsonView::Str(t.name)),
        ),
        t.constrained_sampling is None ==> text::ends(
            estimate::tool_text(t),
            ",\"parameters\":"@ + json_text::text_of_json(t.parameters) + "}"@,
        ),
        t.description is Some ==> text::begins(
            estimate::tool_text(t),
            "{\"name\":"@ + json_text::text_of_json(JsonView::Str(t.name)) + ",\"description\":"@
                + json_text::text_of_json(JsonView::Str(t.description->0)),
        ),
        estimate::tools_text(seq![t]) == "["@ + estimate::tool_text(t) + "]"@,
{
    let all = estimate::tool_text(t);
    let head = "{\"name\":"@ + json_text::text_of_json(JsonView::Str(t.name));
    assert(all.take(head.len() as int) =~= head);
    if t.constrained_sampling is None {
        let tail = ",\"parameters\":"@ + json_text::text_of_json(t.parameters) + "}"@;
        assert(all.skip(all.len() - tail.len()) =~= tail);
    }
    if t.description is Some {
        let more = head + ",\"description\":"@ + json_text::text_of_json(
            JsonView::Str(t.description->0),
        );
        assert(all.take(more.len() as int) =~= more);
    }
    let f = |t: ToolView| estimate::tool_text(t);
    assert(seq![t].map_values(f) =~= seq![f(t)]);
    text::law_joined_texts_are_all_there(Seq::empty(), Seq::empty(), ","@, f(t));
}

/// What two texts have in common at their start is as long as it can be.
pub proof fn law_common_start_is_the_longest(a: Seq<u8>, b: Seq<u8>)
    ensures
        ({
            let n = estimate::common_prefix(a, b) as int;
            &&& n <= a.len()
            &&& n <= b.len()
            &&& a.take(n) == b.take(n)
            &&& n < a.len() && n < b.len() ==> a[n] != b[n]
        }),
    decreases a.len(),
{
    let n = estimate::common_prefix(a, b) as int;
    if a.len() > 0 && b.len() > 0 && a[0] == b[0] {
        law_common_start_is_the_longest(a.skip(1), b.skip(1));
        let x = a.skip(1);
        let y = b.skip(1);
        assert forall|i: int| 0 <= i < n implies a[i] == b[i] by {
            if i > 0 {
                assert(x.take(n - 1)[i - 1] == y.take(n - 1)[i - 1]);
                assert(x[i - 1] == a[i]);
                assert(y[i - 1] == b[i]);
            }
        }
        if n < a.len() && n < b.len() {
            assert(x[n - 1] == a[n]);
            assert(y[n - 1] == b[n]);
        }
    }
    assert(a.take(n) =~= b.take(n));
}

/// Where prompts are cached, what a prompt has in common with the one before it is read from the
/// cache and the rest is written to it; the first one is written whole. What is not read is
/// input, and the total is the sum.
pub proof fn law_cached_prompt_is_read(
    prompt: Seq<char>,
    output: Seq<char>,
    previous: Seq<char>,
    n: int,
)
    requires
        encode_utf8(prompt).len() <= 0x1_0000_0000,
        encode_utf8(output).len() <= 0x1_0000_0000,
        0 <= n <= encode_utf8(prompt).len(),
        n <= encode_utf8(previous).len(),
        encode_utf8(prompt).take(n) == encode_utf8(previous).take(n),
        n < encode_utf8(prompt).len() && n < encode_utf8(previous).len() ==> encode_utf8(prompt)[n]
            != encode_utf8(previous)[n],
    ensures
        ({
            let u = estimate::estimated(prompt, output, true, Some(previous));
            &&& u.cache_read == estimate::tokens_of(n as nat)
            &&& u.cache_write == estimate::tokens_of((encode_utf8(prompt).len() - n) as nat)
            &&& u.reasoning == 0
            &&& u.input + u.cache_read == estimate::tokens_of(encode_utf8(prompt).len())
            &&& u.output == estimate::tokens_of(encode_utf8(output).len())
            &&& u.total_tokens == u.input + u.output + u.cache_read + u.cache_write
        }),
        ({
            let u = estimate::estimated(prompt, output, true, None);
            &&& u.cache_read == 0
            &&& u.cache_write == estimate::tokens_of(encode_utf8(prompt).len())
            &&& u.input == estimate::tokens_of(encode_utf8(prompt).len())
            &&& u.output == estimate::tokens_of(encode_utf8(output).len())
            &&& u.total_tokens == u.input + u.output + u.cache_write
        }),
{
    let a = encode_utf8(previous);
    let b = encode_utf8(prompt);
    law_common_start_is_the_longest(a, b);
    let k = estimate::common_prefix(a, b) as int;
    if k < n {
        assert(a.take(n)[k] == b.take(n)[k]);
    }
    if n < k {
        assert(a.take(k)[n] == b.take(k)[n]);
    }
}

/// Prompts of a session are cached where that is asked for, for however long.
pub proof fn law_caching_is_asked_for(session: Option<Seq<char>>)
    ensures
        estimate::caching_session(session, Some(CacheRetention::Short)) == session,
        estimate::caching_session(session, Some(CacheRetention::Long)) == session,
        estimate::caching_session(session, Some(CacheRetention::Off)) is None,
        estimate::caching_session(session, None) is None,
{
}

/// A message that is counted says the same, and counts what was asked and answered, held against
/// what the session asked before; other sessions are not touched.
pub proof fn law_message_is_counted(
    m: MessageView,
    ctx: ContextView,
    session: Option<Seq<char>>,
    prompts: Map<Seq<char>, Seq<char>>,
)
    requires
        estimate::with_usage(m, ctx, session, prompts) is Some,
    ensures
        match estimate::with_usage(m, ctx, session, prompts) {
            Some((n, after)) => {
                &&& match (m, n) {
                    (MessageView::Assistant(a), MessageView::Assistant(b)) => {
                        &&& b.content == a.content
                        &&& b.stop_reason == a.stop_reason
                        &&& b.model == a.model
                        &&& b.timestamp == a.timestamp
                        &&& session is None ==> b.usage == estimate::estimated(
                            estimate::context_text(ctx),
                            estimate::assistant_line(a.content),
                            false,
                            None,
                        )
                        &&& session is Some && prompts.contains_key(session->0) ==> b.usage
                            == estimate::estimated(
                            estimate::context_text(ctx),
                            estimate::assistant_line(a.content),
                            true,
                            Some(prompts[session->0]),
                        )
                        &&& session is Some && !prompts.contains_key(session->0) ==> b.usage
                            == estimate::estimated(
                            estimate::context_text(ctx),
                            estimate::assistant_line(a.content),
                            true,
                            None,
                        )
                    },
                    (MessageView::Assistant(_), _) => false,
                    _ => n == m,
                }
                &&& session is None ==> after == prompts
                &&& forall|other: Seq<char>|
                    session != Some(other) ==> (#[trigger] after.contains_key(other)
                        <==> prompts.contains_key(other)) && (prompts.contains_key(other)
                        ==> after[other] == prompts[other])
            },
            None => false,
        },
{
}

/// A block is streamed by events of its kind: text as text, thinking as thinking with its
/// signature at the end, a call as a call under its id and name, whole at the end.
pub proof fn law_block_is_streamed_by_its_kind(index: int, b: BlockView, piece: Seq<char>)
    ensures
        b matches BlockView::Text { text: t, .. } ==> {
            &&& deltas::streamed_text(b) == Some(t)
            &&& deltas::start_event(index, b) == EventView::TextStart
            &&& deltas::delta_event(index, b, piece) == (EventView::TextDelta { delta: piece })
            &&& deltas::end_event(index, b) == EventView::TextEnd
        },
        b matches BlockView::Thinking { thinking, signature } ==> {
            &&& deltas::streamed_text(b) == Some(thinking)
            &&& deltas::start_event(index, b) == EventView::ThinkingStart
            &&& deltas::delta_event(index, b, piece) == (EventView::ThinkingDelta { delta: piece })
            &&& deltas::end_event(index, b) == (EventView::ThinkingEnd { signature })
        },
        b matches BlockView::ToolCall { id, name, arguments } ==> {
            &&& deltas::streamed_text(b) == Some(json_text::text_of_json(arguments))
            &&& deltas::start_event(index, b) == (EventView::ToolcallStart {
                content_index: index,
                id: Some(id),
                name: Some(name),
            })
            &&& deltas::delta_event(index, b, piece) == (EventView::ToolcallDelta {
                content_index: index,
                delta: piece,
            })
            &&& deltas::end_event(index, b) == (EventView::ToolcallEnd {
                content_index: index,
                tool_call: b,
            })
        },
        b is Image || b is ToolResult ==> deltas::streamed_text(b) is None,
{
}

/// A stream begins with the message without content, and says that it is pending.
pub proof fn law_stream_begins_empty(m: MessageView, pieces: Seq<Seq<Seq<char>>>)
    ensures
        ({
            let v = deltas::fresh(m, pieces);
            &&& v.message == m
            &&& v.pieces == pieces
            &&& v.phase is Start
            &&& match (m, v.partial) {
                (MessageView::Assistant(a), MessageView::Assistant(b)) => {
                    &&& b.content.len() == 0
                    &&& b.stop_reason == Some("pending"@)
                    &&& b.model == a.model
                    &&& b.api == a.api
                    &&& b.provider == a.provider
                    &&& b.timestamp == a.timestamp
                },
                (MessageView::Assistant(_), _) => false,
                _ => v.partial == m,
            }
        }),
{
}

/// A message that stopped for a reason of its own is reported with its usage and whole; one that
/// failed is reported as failed, and so is one that does not say why it stopped.
pub proof fn law_stream_ends_as_its_message_says(m: MessageView, now: i64)
    requires
        m is Assistant,
    ensures
        ({
            let end = deltas::concluded(m, now);
            match m {
                MessageView::Assistant(a) => {
                    &&& end.ended
                    &&& a.stop_reason is None || a.stop_reason == Some("pending"@) ==> {
                        &&& end.events == seq![
                            EventView::Error {
                                reason: "error"@,
                                error: "Faux response ended without a stop reason"@,
                            },
                        ]
                        &&& end.result matches Some(MessageView::Assistant(e)) && e.error_message
                            == Some("Faux response ended without a stop reason"@) && e.stop_reason
                            == Some("error"@) && e.api == a.api && e.provider == a.provider
                            && e.timestamp == now
                    }
                    &&& a.stop_reason == Some("error"@) || a.stop_reason == Some("aborted"@) ==> {
                        &&& end.events.len() == 1
                        &&& end.events[0] matches EventView::Error { reason, error } && Some(reason)
                            == a.stop_reason && error == content::error_text(m)
                        &&& end.result == Some(m)
                    }
                    &&& a.stop_reason is Some && a.stop_reason != Some("pending"@) && a.stop_reason
                        != Some("error"@) && a.stop_reason != Some("aborted"@) ==> {
                        &&& end.events == seq![
                            EventView::Usage { usage: a.usage },
                            EventView::Done { reason: a.stop_reason->0, message: m },
                        ]
                        &&& end.result is None
                    }
                },
                _ => true,
            }
        }),
{
    reveal_strlit("pending");
    reveal_strlit("error");
    reveal_strlit("aborted");
    assert("pending"@.len() == 7 && "error"@.len() == 5 && "aborted"@.len() == 7);
    assert("pending"@[0] == 'p' && "aborted"@[0] == 'a');
}

/// A piece waits for as many tokens as it has, and for one at least.
pub proof fn law_piece_waits_for_its_tokens(piece: Seq<char>)
    requires
        encode_utf8(piece).len() <= usize::MAX,
    ensures
        deltas::wait_for(piece) >= 1,
        4 * deltas::wait_for(piece) >= encode_utf8(piece).len(),
        piece.len() > 0 && encode_utf8(piece).len() > 0 ==> 4 * deltas::wait_for(piece) < encode_utf8(
            piece,
        ).len() + 4,
{
}

/// A piece of a text that is streamed at its place grows that text and nothing else, and the next
/// piece is awaited, or the block is closed.
pub proof fn law_piece_grows_its_block(v: DeltaView, i: usize, j: usize, now: i64)
    requires
        v.wf(),
        v.phase == DeltaPhase::Piece(i, j),
        deltas::blocks_of(v.message)[i as int] is Text,
        v.partial matches MessageView::Assistant(a) && i < a.content.len() && a.content[i as int] is Text,
    ensures
        ({
            let (next, step) = deltas::stepped(v, false, now);
            let piece = v.pieces[i as int][j as int];
            let before = deltas::blocks_of(v.partial);
            let after = deltas::blocks_of(next.partial);
            &&& next.message == v.message
            &&& next.pieces == v.pieces
            &&& step.events.len() > 0
            &&& step.events[0] == (EventView::TextDelta { delta: piece })
            &&& !step.ended
            &&& after.len() == before.len()
            &&& forall|k: int| 0 <= k < after.len() && k != i ==> #[trigger] after[k] == before[k]
            &&& match (before[i as int], after[i as int]) {
                (BlockView::Text { text: t, .. }, BlockView::Text { text: u, .. }) => u == t + piece,
                _ => false,
            }
            &&& j + 1 < v.pieces[i as int].len() ==> step.events.len() == 1 && next.phase
                == DeltaPhase::Piece(i, (j + 1) as usize)
            &&& j + 1 == v.pieces[i as int].len() ==> step.events.len() == 2 && step.events[1]
                == EventView::TextEnd && next.phase == DeltaPhase::Block((i + 1) as usize)
        }),
{
}

/// A step that is cancelled keeps what was streamed and reports that it was aborted.
pub proof fn law_cancelled_step_keeps_the_partial(partial: MessageView)
    requires
        partial is Assistant,
    ensures
        ({
            let end = deltas::cut_short(partial);
            &&& end.ended
            &&& end.events == seq![
                EventView::Error { reason: "aborted"@, error: "Request was aborted"@ },
            ]
            &&& end.result == Some(content::aborted(partial))
        }),
{
}

/// A model is offered under its own id, with the name and the limits that were given, and thinks
/// where it reasons.
pub proof fn law_model_is_offered_as_defined(
    d: DefinitionView,
    api: Seq<char>,
    provider: Seq<char>,
)
    ensures
        ({
            let m = script::offered(d, api, provider);
            &&& m.id == d.id
            &&& m.provider_id == provider
            &&& m.api == api
            &&& d.name is Some ==> m.name == d.name->0
            &&& d.name is None ==> m.name == d.id
            &&& m.max_output_tokens == d.max_tokens
            &&& m.context_window == d.context_window
            &&& m.supports_images == d.supports_images
            &&& m.reasoning == d.reasoning
            &&& m.cost_rates == d.cost_rates
            &&& m.supports_tool_calling
        }),
{
}

/// A provider offers every model that was defined, in order, and one where none was.
pub proof fn law_every_model_is_offered(
    defs: Seq<DefinitionView>,
    api: Seq<char>,
    provider: Seq<char>,
    i: int,
)
    ensures
        defs.len() > 0 ==> script::offered_all(defs, api, provider).len() == defs.len(),
        0 <= i < defs.len() ==> script::offered_all(defs, api, provider)[i].id == defs[i].id,
        defs.len() == 0 ==> script::offered_all(defs, api, provider).len() == 1,
{
}

/// Pieces have one token at least, and the greatest size is no less than the least one; sizes
/// that make sense are taken as given.
pub proof fn law_sizes_make_sense(token_size: Option<(usize, usize)>)
    ensures
        1 <= script::least_size(token_size) <= script::greatest_size(token_size),
        token_size matches Some((least, greatest)) ==> (1 <= least <= greatest
            ==> script::least_size(token_size) == least && script::greatest_size(token_size)
            == greatest),
        token_size is None ==> script::least_size(token_size) == 3 && script::greatest_size(
            token_size,
        ) == 5,
{
}

/// A request is counted and takes the first answer; all else stays.
pub proof fn law_request_takes_the_first_answer(v: CoreView)
    requires
        v.state.call_count < u64::MAX,
    ensures
        ({
            let w = script::after_request(v);
            &&& w.state.call_count == v.state.call_count + 1
            &&& w.state.deferred_fetch_count == v.state.deferred_fetch_count
            &&& w.models == v.models
            &&& w.prompts == v.prompts
            &&& w.api == v.api
            &&& w.provider_id == v.provider_id
            &&& v.pending.len() > 0 ==> script::next_answer(v) == Some(v.pending[0])
                && seq![v.pending[0]] + w.pending == v.pending
            &&& v.pending.len() == 0 ==> script::next_answer(v) is None && w.pending.len() == 0
        }),
{
    if v.pending.len() > 0 {
        assert(seq![v.pending[0]] + v.pending.skip(1) =~= v.pending);
    }
}

/// A script without answers says so, as the model that was asked.
pub proof fn law_empty_script_says_so(
    core: CoreView,
    ctx: ContextView,
    model_id: Seq<char>,
    now: i64,
)
    ensures
        match script::exhausted_message(core, ctx, model_id, now) {
            MessageView::Assistant(a) => {
                &&& a.error_message == Some("No more faux responses queued"@)
                &&& a.stop_reason == Some("error"@)
                &&& a.model == Some(model_id)
                &&& a.api == core.api
                &&& a.provider == core.provider_id
                &&& a.timestamp == now
                &&& a.usage.output == 0
            },
            _ => false,
        },
{
    let line = estimate::assistant_line(Seq::empty());
    let none = Seq::<BlockView>::empty().map_values(
        |b: BlockView| estimate::assistant_block_text(b),
    );
    assert(none =~= Seq::empty());
    assert(line =~= Seq::empty());
    assert(encode_utf8(line).len() == 0);
}

/// One more tool is written behind the others, parted by a comma; a constraint on what a tool is
/// given comes last.
pub proof fn law_tools_are_written_one_by_one(tools: Seq<ToolView>, t: ToolView)
    ensures
        tools.len() > 0 ==> estimate::tools_text(tools.push(t)) == estimate::tools_text(
            tools,
        ).drop_last() + ","@ + estimate::tool_text(t) + "]"@,
        t.constrained_sampling matches Some(s) ==> text::ends(
            estimate::tool_text(t),
            ",\"constrained_sampling\":"@ + estimate::sampling_text(s) + "}"@,
        ),
        t.constrained_sampling matches Some(s) ==> text::begins(
            estimate::sampling_text(s),
            "{\"type\":"@ + json_text::text_of_json(JsonView::Str(s.sampling_type)),
        ),
{
    reveal_strlit("]");
    let f = |t: ToolView| estimate::tool_text(t);
    assert(tools.push(t).map_values(f) =~= tools.map_values(f).push(f(t)));
    lemma_joined_push(tools.map_values(f), f(t), ","@);
    if tools.len() > 0 {
        let j = text::joined(tools.map_values(f), ","@);
        assert(estimate::tools_text(tools).drop_last() =~= "["@ + j);
        assert(estimate::tools_text(tools.push(t)) =~= "["@ + j + ","@ + f(t) + "]"@);
    }
    if let Some(s) = t.constrained_sampling {
        let all = estimate::tool_text(t);
        let tail = ",\"constrained_sampling\":"@ + estimate::sampling_text(s) + "}"@;
        assert(all.skip(all.len() - tail.len()) =~= tail);
        let head = "{\"type\":"@ + json_text::text_of_json(JsonView::Str(s.sampling_type));
        assert(estimate::sampling_text(s).take(head.len() as int) =~= head);
    }
}

/// A block opens empty: thinking under its signature, a call under its id and name; the first
/// piece is then waited for.
pub proof fn law_block_opens_empty(v: DeltaView, i: usize, now: i64)
    requires
        v.wf(),
        v.phase == DeltaPhase::Block(i),
        v.message is Assistant,
        i < deltas::blocks_of(v.message).len(),
        deltas::streamed_text(deltas::blocks_of(v.message)[i as int]) is Some,
    ensures
        ({
            let (next, step) = deltas::stepped(v, false, now);
            let block = deltas::blocks_of(v.message)[i as int];
            let before = deltas::blocks_of(v.partial);
            let after = deltas::blocks_of(next.partial);
            &&& next.phase == DeltaPhase::Piece(i, 0)
            &&& step.events == seq![deltas::start_event(i as int, block)]
            &&& step.wait_tokens == Some(deltas::wait_for(v.pieces[i as int][0]))
            &&& after.len() == before.len() + 1
            &&& after.drop_last() == before
            &&& block matches BlockView::Text { .. } ==> after.last() == (BlockView::Text {
                text: Seq::empty(),
                text_signature: None,
            })
            &&& block matches BlockView::Thinking { signature, .. } ==> after.last()
                == (BlockView::Thinking { thinking: Seq::empty(), signature })
            &&& block matches BlockView::ToolCall { id, name, .. } ==> after.last()
                == (BlockView::ToolCall { id, name, arguments: JsonView::object() })
        }),
{
    let (next, step) = deltas::stepped(v, false, now);
    assert(deltas::blocks_of(next.partial).drop_last() =~= deltas::blocks_of(v.partial));
}

/// A piece of thinking grows the thinking at its place, and the next piece is waited for.
pub proof fn law_thinking_grows(v: DeltaView, i: usize, j: usize, now: i64)
    requires
        v.wf(),
        v.phase == DeltaPhase::Piece(i, j),
        deltas::blocks_of(v.message)[i as int] is Thinking,
        v.partial matches MessageView::Assistant(a) && i < a.content.len()
            && a.content[i as int] is Thinking,
    ensures
        ({
            let (next, step) = deltas::stepped(v, false, now);
            let piece = v.pieces[i as int][j as int];
            let before = deltas::blocks_of(v.partial);
            let after = deltas::blocks_of(next.partial);
            &&& step.events[0] == (EventView::ThinkingDelta { delta: piece })
            &&& after.len() == before.len()
            &&& match (before[i as int], after[i as int]) {
                (
                    BlockView::Thinking { thinking: t, signature: s },
                    BlockView::Thinking { thinking: u, signature: r },
                ) => u == t + piece && r == s,
                _ => false,
            }
            &&& j + 1 < v.pieces[i as int].len() ==> step.wait_tokens == Some(
                deltas::wait_for(v.pieces[i as int][j + 1]),
            )
            &&& j + 1 == v.pieces[i as int].len() ==> step.wait_tokens is None
        }),
{
}

/// A provider is what it was told to be, and `faux` where it was not told; it starts without
/// answers, without prompts and unasked.
pub proof fn law_provider_is_as_told(
    api: Option<Seq<char>>,
    provider: Option<Seq<char>>,
    defs: Seq<DefinitionView>,
    speed: Option<u64>,
    token_size: Option<(usize, usize)>,
)
    ensures
        ({
            let v = script::new_core(api, provider, defs, speed, token_size);
            &&& api is Some ==> v.api == api->0
            &&& api is None ==> v.api == "faux"@
            &&& provider is Some ==> v.provider_id == provider->0
            &&& provider is None ==> v.provider_id == "faux"@
            &&& v.models == script::offered_all(defs, v.api, v.provider_id)
            &&& v.tokens_per_second == speed
            &&& v.min_token_size == script::least_size(token_size)
            &&& v.max_token_size == script::greatest_size(token_size)
            &&& v.pending.len() == 0
            &&& v.prompts == Map::<Seq<char>, Seq<char>>::empty()
            &&& v.state.call_count == 0
        }),
        script::default_definition().id == "faux-mini"@,
        script::default_definition().context_window == Some(128_000u64),
        script::default_definition().max_tokens == Some(16_384u64),
{
}

} // verus!
