//! What holds of every conversation that is replayed, and of every request that replays one.
use vstd::prelude::*;
use crate::codex::grammar;
use crate::codex::ids;
use crate::codex::options::CodexOptionsView;
use crate::codex::replay;
use crate::codex::replay::ReplayTarget;
use crate::codex::request;
use crate::codex::signature;
use crate::json::{JsonView, NumberView};
use crate::json_text;
use crate::keys;
use crate::text;
use crate::types;
use crate::types::{
    AssistantView, BlockView, ContextView, MessageView, ModelView, ToolChoiceView,
};

verus! {

/// The conversation of `ctx` with one message more.
pub open spec fn continued(ctx: ContextView, m: MessageView) -> ContextView {
    ContextView { messages: ctx.messages.push(m), ..ctx }
}

proof fn lemma_continued(ctx: ContextView, m: MessageView, system: bool, target: ReplayTarget)
    ensures
        replay::input_items(continued(ctx, m), system, target) == replay::input_items(
            ctx,
            system,
            target,
        ) + replay::message_items(m, ctx.messages.len(), target),
{
    assert(ctx.messages.push(m).drop_last() =~= ctx.messages);
    assert(replay::input_items(continued(ctx, m), system, target) =~= replay::input_items(
        ctx,
        system,
        target,
    ) + replay::message_items(m, ctx.messages.len(), target));
}

/// A conversation that goes on keeps what was replayed of it, whatever comes behind; before it
/// stands the system prompt where it is asked for, and nothing else.
pub proof fn law_input_grows_with_the_conversation(
    ctx: ContextView,
    m: MessageView,
    system: bool,
    target: ReplayTarget,
)
    ensures
        ({
            let was = replay::input_items(ctx, system, target);
            let is = replay::input_items(continued(ctx, m), system, target);
            is.len() >= was.len() && is.take(was.len() as int) == was
        }),
        ({
            let none = replay::input_items(
                ContextView { messages: Seq::empty(), ..ctx },
                system,
                target,
            );
            match ctx.system_prompt {
                Some(s) if system => {
                    &&& none.len() == 1
                    &&& none[0].field_text("role"@) == Some("system"@)
                    &&& none[0].field_text("content"@) == Some(s)
                },
                _ => none.len() == 0,
            }
        }),
{
    keys::lemma_codex_keys();
    lemma_continued(ctx, m, system, target);
    let was = replay::input_items(ctx, system, target);
    let is = replay::input_items(continued(ctx, m), system, target);
    assert(is.take(was.len() as int) =~= was);
}

proof fn lemma_user_parts_add(a: Seq<BlockView>, b: Seq<BlockView>)
    ensures
        replay::user_parts(a + b) == replay::user_parts(a) + replay::user_parts(b),
    decreases b.len(),
{
    if b.len() == 0 {
        assert(a + b =~= a);
    } else {
        lemma_user_parts_add(a, b.drop_last());
        assert((a + b).drop_last() =~= a + b.drop_last());
    }
    assert(replay::user_parts(a + b) =~= replay::user_parts(a) + replay::user_parts(b));
}

/// What stands before a block of the user's and what stands behind it is replayed around it,
/// and the block itself as it is: a text with its words, an image with its type and its bytes,
/// anything else not at all.
pub proof fn law_user_blocks_are_replayed(
    before: Seq<BlockView>,
    block: BlockView,
    behind: Seq<BlockView>,
)
    ensures
        ({
            let sent = replay::user_parts(before + seq![block] + behind);
            let a = replay::user_parts(before);
            let b = replay::user_parts(behind);
            let n = a.len() as int;
            match block {
                BlockView::Text { text, .. } => {
                    &&& sent == a.push(sent[n]) + b
                    &&& sent[n].field_text("type"@) == Some("input_text"@)
                    &&& sent[n].field_text("text"@) == Some(text)
                },
                BlockView::Image { data, mime_type, .. } => {
                    &&& sent == a.push(sent[n]) + b
                    &&& sent[n].field_text("type"@) == Some("input_image"@)
                    &&& mime_type is Some ==> sent[n].field_text("image_url"@) == Some(
                        "data:"@ + mime_type->0 + ";base64,"@ + data,
                    )
                    &&& mime_type is None ==> sent[n].field_text("image_url"@) == Some(
                        "data:"@ + "application/octet-stream"@ + ";base64,"@ + data,
                    )
                },
                _ => sent == a + b,
            }
        }),
{
    keys::lemma_codex_keys();
    reveal_with_fuel(replay::user_parts, 2);
    lemma_user_parts_add(before + seq![block], behind);
    lemma_user_parts_add(before, seq![block]);
    assert(seq![block].drop_last() =~= Seq::<BlockView>::empty());
    let sent = replay::user_parts(before + seq![block] + behind);
    let a = replay::user_parts(before);
    let b = replay::user_parts(behind);
    assert(sent =~= a + replay::user_parts(seq![block]) + b);
    match replay::user_part(block) {
        Some(p) => {
            assert(replay::user_parts(seq![block]) =~= seq![p]);
            assert(sent =~= a.push(p) + b);
        },
        None => {
            assert(replay::user_parts(seq![block]) =~= Seq::<JsonView>::empty());
            assert(sent =~= a + b);
        },
    }
}

/// What a user says last is replayed last, as the user's and as one item, unless it has neither
/// a text nor an image.
pub proof fn law_user_message_is_replayed(
    ctx: ContextView,
    content: Seq<BlockView>,
    timestamp: i64,
    system: bool,
    target: ReplayTarget,
)
    ensures
        ({
            let was = replay::input_items(ctx, system, target);
            let is = replay::input_items(
                continued(ctx, MessageView::User { content, timestamp }),
                system,
                target,
            );
            let parts = replay::user_parts(content);
            if parts.len() == 0 {
                is == was
            } else {
                &&& is.len() == was.len() + 1
                &&& is.last().field_text("role"@) == Some("user"@)
                &&& is.last().field_items("content"@) == Some(parts)
            }
        }),
{
    keys::lemma_codex_keys();
    lemma_continued(ctx, MessageView::User { content, timestamp }, system, target);
}

/// Whether an item gives `said` as words of the assistant, and nothing else.
pub open spec fn is_said_by_assistant(item: JsonView, said: Seq<char>) -> bool {
    let parts = item.field_items("content"@);
    &&& item.field_text("type"@) == Some("message"@)
    &&& item.field_text("role"@) == Some("assistant"@)
    &&& item.field_text("status"@) == Some("completed"@)
    &&& parts is Some
    &&& parts->0.len() == 1
    &&& parts->0[0].field_text("type"@) == Some("output_text"@)
    &&& parts->0[0].field_text("text"@) == Some(said)
}

/// Every block of an assistant message is replayed behind those that stand before it: a text as
/// words of the assistant, a thinking as the item that its signature holds, a call of a plain
/// tool with its name and its arguments as JSON text, a call of a tool with a grammar with its
/// name and its input.
pub proof fn law_assistant_blocks_are_replayed(
    content: Seq<BlockView>,
    block: BlockView,
    provider: Seq<char>,
    index: nat,
    target: ReplayTarget,
)
    ensures
        ({
            let was = replay::assistant_items(content, provider, index, target);
            let is = replay::assistant_items(content.push(block), provider, index, target);
            let item = is.last();
            match block {
                BlockView::Text { text, .. } => {
                    &&& is == was.push(item)
                    &&& is_said_by_assistant(item, text)
                },
                BlockView::Thinking { signature, .. } => match signature {
                    Some(sig) => match json_text::json_of_text(sig) {
                        Ok(kept) => is == was.push(kept),
                        Err(_) => is == was,
                    },
                    None => is == was,
                },
                BlockView::ToolCall { id, name, arguments } => {
                    &&& is == was.push(item)
                    &&& item.field_text("name"@) == Some(name)
                    &&& !target.properties.contains_key(name) ==> {
                        &&& item.field_text("type"@) == Some("function_call"@)
                        &&& item.field_text("arguments"@) == Some(
                            json_text::text_of_json(arguments),
                        )
                        &&& {
                            let sent = ids::sent_ids(
                                id,
                                target.allowed,
                                provider == target.provider,
                            );
                            item.field_text("call_id"@) == Some(sent.0) && item.field_text("id"@)
                                == sent.1
                        }
                    }
                    &&& target.properties.contains_key(name) ==> {
                        &&& item.field_text("type"@) == Some("custom_tool_call"@)
                        &&& arguments.field_text(target.properties[name]) is Some
                            ==> item.field_text("input"@) == arguments.field_text(
                            target.properties[name],
                        )
                        &&& arguments.field_text(target.properties[name]) is None
                            ==> item.field_text("input"@) == Some(Seq::<char>::empty())
                        &&& item.field_text("call_id"@) == Some(ids::split_id(id).0)
                        &&& item.field_text("id"@) == ids::split_id(id).1
                    }
                },
                _ => is == was,
            }
        }),
        replay::assistant_items(Seq::empty(), provider, index, target).len() == 0,
{
    keys::lemma_codex_keys();
    assert(content.push(block).drop_last() =~= content);
    let was = replay::assistant_items(content, provider, index, target);
    let is = replay::assistant_items(content.push(block), provider, index, target);
    if let Some(item) = replay::assistant_item(
        block,
        provider,
        index,
        replay::text_count(content),
        target,
    ) {
        assert(is =~= was.push(item));
    }
}

/// What the assistant said last is replayed last, block by block.
pub proof fn law_assistant_message_is_replayed(
    ctx: ContextView,
    a: AssistantView,
    system: bool,
    target: ReplayTarget,
)
    ensures
        replay::input_items(continued(ctx, MessageView::Assistant(a)), system, target)
            == replay::input_items(ctx, system, target) + replay::assistant_items(
            a.content,
            a.provider,
            ctx.messages.len(),
            target,
        ),
{
    lemma_continued(ctx, MessageView::Assistant(a), system, target);
}

proof fn lemma_assistant_is_no_user(
    content: Seq<BlockView>,
    provider: Seq<char>,
    index: nat,
    target: ReplayTarget,
    i: int,
)
    requires
        forall|j: int| 0 <= j < content.len() ==> !(#[trigger] content[j] is Thinking),
        0 <= i < replay::assistant_items(content, provider, index, target).len(),
    ensures
        replay::assistant_items(content, provider, index, target)[i].field_text("role"@) != Some(
            "user"@,
        ),
    decreases content.len(),
{
    keys::lemma_codex_keys();
    let block = content.last();
    let init = content.drop_last();
    assert(content =~= init.push(block));
    law_assistant_blocks_are_replayed(init, block, provider, index, target);
    assert(content[content.len() - 1] == block);
    let was = replay::assistant_items(init, provider, index, target);
    if i < was.len() {
        assert forall|j: int| 0 <= j < init.len() implies !(#[trigger] init[j] is Thinking) by {
            assert(content[j] == init[j]);
        }
        lemma_assistant_is_no_user(init, provider, index, target, i);
    }
}

/// Nothing but what a user said is replayed as words of a user. (A thinking is replayed as the
/// service gave it, so that it can be left out of account.)
pub proof fn law_only_users_speak_as_users(
    m: MessageView,
    index: nat,
    target: ReplayTarget,
    i: int,
)
    requires
        !(m is User),
        m is Assistant ==> forall|j: int|
            0 <= j < m->Assistant_0.content.len() ==> !(#[trigger] m->Assistant_0.content[j]
                is Thinking),
        0 <= i < replay::message_items(m, index, target).len(),
    ensures
        replay::message_items(m, index, target)[i].field_text("role"@) != Some("user"@),
{
    keys::lemma_codex_keys();
    if let MessageView::Assistant(a) = m {
        lemma_assistant_is_no_user(a.content, a.provider, index, target, i);
    }
}

/// The result of a tool is replayed as one item: it says what the tool said, its texts one per
/// line, or that the tool said nothing.
pub proof fn law_tool_result_is_replayed(
    ctx: ContextView,
    tool_call_id: Seq<char>,
    tool_name: Seq<char>,
    content: Seq<BlockView>,
    is_error: bool,
    timestamp: i64,
    system: bool,
    target: ReplayTarget,
)
    ensures
        ({
            let m = MessageView::ToolResult {
                tool_call_id,
                tool_name,
                content,
                is_error,
                timestamp,
            };
            let was = replay::input_items(ctx, system, target);
            let is = replay::input_items(continued(ctx, m), system, target);
            let said = text::joined(types::block_texts(content), "\n"@);
            &&& is.len() == was.len() + 1
            &&& is.last().field_text("type"@) == Some(
                if target.properties.contains_key(tool_name) {
                    "custom_tool_call_output"@
                } else {
                    "function_call_output"@
                },
            )
            &&& is.last().field_text("call_id"@) is Some
            &&& said.len() > 0 ==> is.last().field_text("output"@) == Some(said)
            &&& said.len() == 0 ==> is.last().field_text("output"@) == Some("(no tool output)"@)
        }),
{
    keys::lemma_codex_keys();
    let m = MessageView::ToolResult { tool_call_id, tool_name, content, is_error, timestamp };
    lemma_continued(ctx, m, system, target);
}

/// The result of a tool names the call that it answers: by the very id under which the call is
/// replayed.
pub proof fn law_result_names_its_call(
    content: Seq<BlockView>,
    id: Seq<char>,
    name: Seq<char>,
    arguments: JsonView,
    provider: Seq<char>,
    index: nat,
    result: MessageView,
    later: nat,
    target: ReplayTarget,
)
    requires
        result is ToolResult,
        result->ToolResult_tool_call_id == id,
        !target.properties.contains_key(name),
    ensures
        replay::assistant_items(
            content.push(BlockView::ToolCall { id, name, arguments }),
            provider,
            index,
            target,
        ).last().field_text("call_id"@) == replay::message_items(
            result,
            later,
            target,
        )[0].field_text("call_id"@),
        replay::message_items(result, later, target)[0].field_text("call_id"@) is Some,
{
    keys::lemma_codex_keys();
    let block = BlockView::ToolCall { id, name, arguments };
    assert(content.push(block).drop_last() =~= content);
}

/// What the system says in between is not replayed.
pub proof fn law_system_messages_are_not_replayed(
    ctx: ContextView,
    content: Seq<BlockView>,
    timestamp: i64,
    system: bool,
    target: ReplayTarget,
)
    ensures
        replay::input_items(
            continued(ctx, MessageView::System { content, timestamp }),
            system,
            target,
        ) == replay::input_items(ctx, system, target),
{
    lemma_continued(ctx, MessageView::System { content, timestamp }, system, target);
    assert(replay::input_items(
        continued(ctx, MessageView::System { content, timestamp }),
        system,
        target,
    ) =~= replay::input_items(ctx, system, target));
}

/// A text is replayed under the id that the service gave it, where that is short enough; one
/// that has none is replayed under an id of its own, told by where it stands.
pub proof fn law_text_keeps_its_id(
    content: Seq<BlockView>,
    said: Seq<char>,
    text_signature: Option<Seq<char>>,
    provider: Seq<char>,
    index: nat,
    target: ReplayTarget,
)
    ensures
        ({
            let block = BlockView::Text { text: said, text_signature };
            let item = replay::assistant_items(
                content.push(block),
                provider,
                index,
                target,
            ).last();
            let before = types::block_texts(content).len();
            &&& text_signature is None && before == 0 ==> item.field_text("id"@) == Some(
                "msg_pi_"@ + text::decimal_text(index),
            )
            &&& text_signature is None && before > 0 ==> item.field_text("id"@) == Some(
                "msg_pi_"@ + text::decimal_text(index) + "_"@ + text::decimal_text(before),
            )
            &&& text_signature is Some ==> {
                let id = signature::signature_parts(
                    text_signature->0,
                    json_text::json_of_text(text_signature->0),
                ).0;
                &&& 0 < id.len() <= 64 ==> item.field_text("id"@) == Some(id)
                &&& id.len() > 64 ==> item.field_text("id"@) == Some(
                    "msg_"@ + ids::short_hash_text(id),
                )
                &&& id.len() == 0 && before == 0 ==> item.field_text("id"@) == Some(
                    "msg_pi_"@ + text::decimal_text(index),
                )
            }
        }),
{
    keys::lemma_codex_keys();
    let block = BlockView::Text { text: said, text_signature };
    assert(content.push(block).drop_last() =~= content);
}

/// The fields of a request: the model, what the system says, the conversation without the
/// system prompt, and what the caller asked for. The response is streamed and not stored, and
/// the thinking comes along so that it can be replayed.
pub proof fn law_request_says_what_is_asked(
    model: ModelView,
    ctx: ContextView,
    opts: CodexOptionsView,
    session: Option<Seq<char>>,
    properties: Map<Seq<char>, Seq<char>>,
)
    ensures
        ({
            let r = request::request_body(model, ctx, opts, session, properties);
            let target = ReplayTarget {
                provider: model.provider_id,
                allowed: request::is_codex_provider(model.provider_id),
                properties,
            };
            &&& r.field_text("model"@) == Some(model.id)
            &&& r.field_boolean("store"@) == Some(false)
            &&& r.field_boolean("stream"@) == Some(true)
            &&& r.field_boolean("parallel_tool_calls"@) == Some(true)
            &&& ctx.system_prompt is Some ==> r.field_text("instructions"@) == ctx.system_prompt
            &&& ctx.system_prompt is None ==> r.field_text("instructions"@) == Some(
                "You are a helpful assistant."@,
            )
            &&& r.field_items("input"@) == Some(replay::input_items(ctx, false, target))
            &&& r.field_items("include"@) is Some
            &&& r.field_items("include"@)->0.len() == 1
            &&& r.field_items("include"@)->0[0].text() == Some("reasoning.encrypted_content"@)
            &&& opts.text_verbosity is Some ==> r.text2("text"@, "verbosity"@)
                == opts.text_verbosity
            &&& opts.text_verbosity is None ==> r.text2("text"@, "verbosity"@) == Some("low"@)
            &&& r.field_text("prompt_cache_key"@) == session
            &&& r.field_text("service_tier"@) == opts.service_tier
            &&& opts.temperature is Some ==> r.get("temperature"@) == Some(
                JsonView::Number(NumberView::Decimal(opts.temperature->0)),
            )
            &&& opts.temperature is None ==> r.get("temperature"@) is None
        }),
{
    keys::lemma_codex_keys();
}

/// How hard the model is to think is said where it was asked for, in the words of the model
/// where it has its own; `off` is `none` to a model without a word for it.
pub proof fn law_request_says_how_hard_to_think(
    model: ModelView,
    ctx: ContextView,
    opts: CodexOptionsView,
    session: Option<Seq<char>>,
    properties: Map<Seq<char>, Seq<char>>,
)
    ensures
        ({
            let r = request::request_body(model, ctx, opts, session, properties);
            let said = r.text2("reasoning"@, "effort"@);
            match opts.reasoning_effort {
                None => r.get("reasoning"@) is None,
                Some(effort) => {
                    &&& opts.reasoning_summary is Some ==> r.text2("reasoning"@, "summary"@)
                        == opts.reasoning_summary
                    &&& opts.reasoning_summary is None ==> r.text2("reasoning"@, "summary"@)
                        == Some("auto"@)
                    &&& match model.thinking_level_map {
                        Some(words) if words.contains_key(effort) => said == Some(words[effort]),
                        _ => said == Some(
                            if effort == "off"@ {
                                "none"@
                            } else {
                                effort
                            },
                        ),
                    }
                },
            }
        }),
{
    keys::lemma_codex_keys();
}

/// Every tool is described in order: by its name, what it says of itself, and its schema or, for
/// a tool with a grammar, the grammar.
pub proof fn law_request_describes_every_tool(
    model: ModelView,
    ctx: ContextView,
    opts: CodexOptionsView,
    session: Option<Seq<char>>,
    properties: Map<Seq<char>, Seq<char>>,
    i: int,
)
    ensures
        ({
            let r = request::request_body(model, ctx, opts, session, properties);
            &&& ctx.tools.len() == 0 ==> r.get("tools"@) is None
            &&& ctx.tools.len() > 0 ==> r.field_items("tools"@) is Some && r.field_items(
                "tools"@,
            )->0.len() == ctx.tools.len()
            &&& 0 <= i < ctx.tools.len() ==> {
                let t = r.field_items("tools"@)->0[i];
                let tool = ctx.tools[i];
                &&& t.field_text("name"@) == Some(tool.name)
                &&& tool.description is Some ==> t.field_text("description"@) == tool.description
                &&& tool.description is None ==> t.field_text("description"@) == Some(
                    Seq::<char>::empty(),
                )
                &&& match grammar::grammar_of(tool) {
                    Some((syntax, definition)) => {
                        &&& t.field_text("type"@) == Some("custom"@)
                        &&& t.text2("format"@, "type"@) == Some("grammar"@)
                        &&& t.text2("format"@, "syntax"@) == Some(syntax)
                        &&& t.text2("format"@, "definition"@) == Some(definition)
                    },
                    None => {
                        &&& t.field_text("type"@) == Some("function"@)
                        &&& t.get("parameters"@) == Some(tool.parameters)
                        &&& t.get("strict"@) == Some(JsonView::Null)
                    },
                }
            }
        }),
{
    keys::lemma_codex_keys();
}

/// What the request says of the tools counts more than what the conversation says: use the
/// named one, some, none, or whichever the model likes.
pub proof fn law_request_says_which_tool(
    model: ModelView,
    ctx: ContextView,
    opts: CodexOptionsView,
    session: Option<Seq<char>>,
    properties: Map<Seq<char>, Seq<char>>,
    choice: Option<ToolChoiceView>,
)
    requires
        choice == if opts.tool_choice is Some {
            opts.tool_choice
        } else {
            ctx.tool_choice
        },
    ensures
        ({
            let r = request::request_body(model, ctx, opts, session, properties);
            match choice {
                Some(ToolChoiceView::Never) => r.field_text("tool_choice"@) == Some("none"@),
                Some(ToolChoiceView::Required) => r.field_text("tool_choice"@) == Some(
                    "required"@,
                ),
                Some(ToolChoiceView::Tool { name }) => r.text2("tool_choice"@, "type"@) == Some(
                    "function"@,
                ) && r.text2("tool_choice"@, "name"@) == Some(name),
                _ => r.field_text("tool_choice"@) == Some("auto"@),
            }
        }),
{
    keys::lemma_codex_keys();
}

/// Combined ids are sent to the four providers that made them up, and to no others.
pub proof fn law_combined_ids_are_for_few(provider: Seq<char>)
    ensures
        request::is_codex_provider(provider) <==> provider == "openai"@ || provider
            == "openai-codex"@ || provider == "opencode"@ || provider == "chatgpt-plus"@,
{
}

} // verus!
