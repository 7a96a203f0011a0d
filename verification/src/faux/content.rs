//! Building blocks of scripted responses.
use vstd::prelude::*;
use crate::json::Json;
use crate::random;
use crate::random::random_id;
use crate::types;
use crate::types::{AssistantMessage, AssistantView, BlockView, ContentBlock, Message, MessageView, Usage};
use crate::views;

verus! {

broadcast use crate::views::group_views;

pub const DEFAULT_API: &'static str = "faux";

pub const DEFAULT_PROVIDER: &'static str = "faux";

/// The model that a message names, until a model answers with it.
pub const DEFAULT_MODEL_ID: &'static str = "faux-1";

/// The model that a provider offers.
pub const DEFAULT_OFFERED_ID: &'static str = "faux-mini";

pub const DEFAULT_MODEL_NAME: &'static str = "Faux Model";

/// A text block.
pub fn faux_text(text: String) -> (r: ContentBlock)
    ensures
        r@ == (BlockView::Text { text: text@, text_signature: None }),
{
    ContentBlock::Text { text, text_signature: None }
}

/// A thinking block without a signature.
pub fn faux_thinking(thinking: String) -> (r: ContentBlock)
    ensures
        r@ == (BlockView::Thinking { thinking: thinking@, signature: None }),
{
    ContentBlock::Thinking { thinking, signature: None }
}

/// What a scripted tool call may fix.
pub struct FauxToolCallOptions {
    pub id: Option<String>,
}

impl Default for FauxToolCallOptions {
    fn default() -> (r: FauxToolCallOptions)
        ensures
            r.id is None,
    {
        FauxToolCallOptions { id: None }
    }
}

/// A tool call, under a random id made at `now_ms` where none is given.
pub fn faux_tool_call(
    name: String,
    arguments: Json,
    options: FauxToolCallOptions,
    now_ms: u64,
) -> (r: ContentBlock)
    ensures
        match r@ {
            BlockView::ToolCall { id, name: n, arguments: a } => {
                &&& n == name@
                &&& a == arguments@
                &&& match options.id {
                    Some(given) => id == given@,
                    None => exists|bytes: Seq<u8>|
                        bytes.len() == 8 && id == #[trigger] random::stamped_id(
                            "tool"@,
                            now_ms,
                            bytes,
                        ),
                }
            },
            _ => false,
        },
{
    let id: String = match options.id {
        Some(given) => given,
        None => random_id("tool", now_ms),
    };
    ContentBlock::ToolCall { id, name, arguments }
}

pub type FauxContentBlock = ContentBlock;

/// The content of a scripted message.
pub enum FauxContentInput {
    Text(String),
    Block(ContentBlock),
    Blocks(Vec<ContentBlock>),
}

/// The blocks of a content: a text is one text block.
pub open spec fn normalized(content: FauxContentInput) -> Seq<BlockView> {
    match content {
        FauxContentInput::Text(s) => seq![BlockView::Text { text: s@, text_signature: None }],
        FauxContentInput::Block(b) => seq![b@],
        FauxContentInput::Blocks(bs) => views::all(bs@),
    }
}

/// The blocks of a content.
pub fn normalize_content(content: FauxContentInput) -> (r: Vec<ContentBlock>)
    ensures
        views::all(r@) == normalized(content),
{
    match content {
        FauxContentInput::Text(s) => {
            let mut v: Vec<ContentBlock> = Vec::new();
            v.push(faux_text(s));
            assert(views::all(v@) =~= normalized(content));
            v
        },
        FauxContentInput::Block(b) => {
            let mut v: Vec<ContentBlock> = Vec::new();
            v.push(b);
            assert(views::all(v@) =~= normalized(content));
            v
        },
        FauxContentInput::Blocks(bs) => bs,
    }
}

/// What a scripted message may fix.
pub struct FauxAssistantMessageOptions {
    pub stop_reason: Option<String>,
    pub error_message: Option<String>,
    pub response_id: Option<String>,
    pub timestamp: Option<i64>,
}

impl Default for FauxAssistantMessageOptions {
    fn default() -> (r: FauxAssistantMessageOptions)
        ensures
            r.stop_reason is None,
            r.error_message is None,
            r.response_id is None,
            r.timestamp is None,
    {
        FauxAssistantMessageOptions {
            stop_reason: None,
            error_message: None,
            response_id: None,
            timestamp: None,
        }
    }
}

/// A scripted message, made at `now` where no time is given.
pub fn faux_assistant_message(
    content: FauxContentInput,
    options: FauxAssistantMessageOptions,
    now: i64,
) -> (r: AssistantMessage)
    ensures
        r@ == MessageView::Assistant(
            AssistantView {
                content: normalized(content),
                model: Some(DEFAULT_MODEL_ID@),
                stop_reason: Some(views::or(views::opt(options.stop_reason), "stop"@)),
                error_message: views::opt(options.error_message),
                response_id: views::opt(options.response_id),
                ..types::empty_assistant(
                    DEFAULT_API@,
                    DEFAULT_PROVIDER@,
                    views::or(options.timestamp, now),
                )
            },
        ),
{
    let timestamp: i64 = match options.timestamp {
        Some(t) => t,
        None => now,
    };
    let stop_reason: String = match options.stop_reason {
        Some(s) => s,
        None => "stop".to_owned(),
    };
    Message::Assistant {
        content: normalize_content(content),
        api: DEFAULT_API.to_owned(),
        provider: DEFAULT_PROVIDER.to_owned(),
        model: Some(DEFAULT_MODEL_ID.to_owned()),
        usage: Usage::default(),
        stop_reason: Some(stop_reason),
        error_message: options.error_message,
        response_id: options.response_id,
        end_turn: None,
        timestamp,
    }
}

/// A message that says what went wrong.
pub open spec fn error_message_of(
    err: Seq<char>,
    api: Seq<char>,
    provider: Seq<char>,
    model_id: Seq<char>,
    now: i64,
) -> AssistantView {
    AssistantView {
        model: Some(model_id),
        stop_reason: Some("error"@),
        error_message: Some(err),
        ..types::empty_assistant(api, provider, now)
    }
}

/// A message that says what went wrong.
pub fn create_error_message(
    err: String,
    api: &str,
    provider: &str,
    model_id: &str,
    now: i64,
) -> (r: AssistantMessage)
    ensures
        r@ == MessageView::Assistant(error_message_of(err@, api@, provider@, model_id@, now)),
{
    Message::Assistant {
        content: Vec::new(),
        api: api.to_owned(),
        provider: provider.to_owned(),
        model: Some(model_id.to_owned()),
        usage: Usage::default(),
        stop_reason: Some("error".to_owned()),
        error_message: Some(err),
        response_id: None,
        end_turn: None,
        timestamp: now,
    }
}

/// A message that was cut short.
pub open spec fn aborted(m: MessageView) -> MessageView {
    match m {
        MessageView::Assistant(a) => MessageView::Assistant(
            AssistantView {
                stop_reason: Some("aborted"@),
                error_message: Some("Request was aborted"@),
                ..a
            },
        ),
        _ => m,
    }
}

/// Marks a message as cut short.
pub fn create_aborted_message(partial: AssistantMessage) -> (r: AssistantMessage)
    ensures
        r@ == aborted(partial@),
{
    partial.with_stop_reason(Some("aborted".to_owned())).with_error_message(
        "Request was aborted".to_owned(),
    )
}

/// What an error event says of a message: its error, else its stop reason.
pub open spec fn error_text(m: MessageView) -> Seq<char> {
    match m {
        MessageView::Assistant(a) => match a.error_message {
            Some(e) => e,
            None => match a.stop_reason {
                Some(r) => r,
                None => "unknown error"@,
            },
        },
        _ => "unknown error"@,
    }
}

/// What an error event says of a message.
pub fn error_str(m: &Message) -> (r: String)
    ensures
        r@ == error_text(m@),
{
    match m {
        Message::Assistant { error_message, stop_reason, .. } => match error_message {
            Some(e) => e.clone(),
            None => match stop_reason {
                Some(s) => s.clone(),
                None => "unknown error".to_owned(),
            },
        },
        _ => "unknown error".to_owned(),
    }
}

/// A scripted message as one of the provider and model that it stands in for. A
/// message without a time gets one.
pub open spec fn adopted(
    m: MessageView,
    api: Seq<char>,
    provider: Seq<char>,
    model_id: Seq<char>,
    now: i64,
) -> MessageView {
    match m {
        MessageView::Assistant(a) => MessageView::Assistant(
            AssistantView {
                api,
                provider,
                model: Some(model_id),
                timestamp: if a.timestamp == 0 {
                    now
                } else {
                    a.timestamp
                },
                ..a
            },
        ),
        _ => m,
    }
}

/// A scripted message as one of the provider and model that it stands in for.
pub fn clone_message(
    m: AssistantMessage,
    api: &str,
    provider: &str,
    model_id: &str,
    now: i64,
) -> (r: AssistantMessage)
    ensures
        r@ == adopted(m@, api@, provider@, model_id@, now),
{
    match m {
        Message::Assistant {
            content,
            api: _,
            provider: _,
            model: _,
            usage,
            stop_reason,
            error_message,
            response_id,
            end_turn,
            timestamp,
        } => Message::Assistant {
            content,
            api: api.to_owned(),
            provider: provider.to_owned(),
            model: Some(model_id.to_owned()),
            usage,
            stop_reason,
            error_message,
            response_id,
            end_turn,
            timestamp: if timestamp == 0 {
                now
            } else {
                timestamp
            },
        },
        other => other,
    }
}

} // verus!
