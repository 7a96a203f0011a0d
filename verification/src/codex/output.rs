//! The assistant message that a response grows into.
use vstd::prelude::*;
use crate::codex::errors;
use crate::codex::errors::{CodexErrorView, CodexStreamError};
use crate::json;
use crate::json::{Json, JsonView};
use crate::text::same_text;
use crate::types;
use crate::types::{
    clone_block, clone_blocks, AssistantView, BlockView, ContentBlock, Message, MessageView, Model,
    Usage,
};
use crate::views;
use crate::views::clone_opt_text;

verus! {

broadcast use crate::views::group_views;

/// The parts of an assistant message.
pub struct AssistantOutput {
    pub content: Vec<ContentBlock>,
    pub api: String,
    pub provider: String,
    pub model: Option<String>,
    pub usage: Usage,
    pub stop_reason: Option<String>,
    pub error_message: Option<String>,
    pub response_id: Option<String>,
    pub end_turn: Option<bool>,
    pub timestamp: i64,
}

impl View for AssistantOutput {
    type V = AssistantView;

    open spec fn view(&self) -> AssistantView {
        AssistantView {
            content: views::all(self.content@),
            api: self.api@,
            provider: self.provider@,
            model: views::opt(self.model),
            usage: self.usage@,
            stop_reason: views::opt(self.stop_reason),
            error_message: views::opt(self.error_message),
            response_id: views::opt(self.response_id),
            end_turn: self.end_turn,
            timestamp: self.timestamp,
        }
    }
}

/// The message of a response that nothing is known of yet.
pub open spec fn pending_output(
    model_id: Seq<char>,
    provider: Seq<char>,
    timestamp: i64,
) -> AssistantView {
    AssistantView {
        model: Some(model_id),
        stop_reason: Some("pending"@),
        ..types::empty_assistant("openai-codex-responses"@, provider, timestamp)
    }
}

impl AssistantOutput {
    /// The message of a response of `model` that nothing is known of yet.
    pub fn pending(model: &Model, timestamp: i64) -> (r: AssistantOutput)
        ensures
            r@ == pending_output(model.id@, model.provider_id@, timestamp),
    {
        AssistantOutput {
            content: Vec::new(),
            api: "openai-codex-responses".to_owned(),
            provider: model.provider_id.clone(),
            model: Some(model.id.clone()),
            usage: Usage::default(),
            stop_reason: Some("pending".to_owned()),
            error_message: None,
            response_id: None,
            end_turn: None,
            timestamp,
        }
    }

    /// The message as it stands.
    pub fn to_message(&self) -> (r: Message)
        ensures
            r@ == MessageView::Assistant(self@),
    {
        Message::Assistant {
            content: clone_blocks(&self.content),
            api: self.api.clone(),
            provider: self.provider.clone(),
            model: clone_opt_text(&self.model),
            usage: self.usage.clone(),
            stop_reason: clone_opt_text(&self.stop_reason),
            error_message: clone_opt_text(&self.error_message),
            response_id: clone_opt_text(&self.response_id),
            end_turn: self.end_turn,
            timestamp: self.timestamp,
        }
    }
}

/// What is wrong with a message that a stream ended with, if anything is.
pub open spec fn output_error(output: AssistantView) -> Option<CodexErrorView> {
    if output.stop_reason == Some("pending"@) {
        Some(errors::other_error("Codex stream ended without a stop reason"@))
    } else if output.stop_reason == Some("error"@) || output.stop_reason == Some("aborted"@) {
        Some(errors::other_error(views::or(output.error_message, "An unknown error occurred"@)))
    } else {
        None
    }
}

/// Checks the message that a stream ended with.
pub fn assert_successful_output(output: &AssistantOutput) -> (r: Result<(), CodexStreamError>)
    ensures
        match output_error(output@) {
            Some(e) => r is Err && r->Err_0@ == e,
            None => r is Ok,
        },
{
    if let Some(reason) = &output.stop_reason {
        if same_text(reason.as_str(), "pending") {
            return Err(
                CodexStreamError::other("Codex stream ended without a stop reason".to_owned()),
            );
        }
        if same_text(reason.as_str(), "error") || same_text(reason.as_str(), "aborted") {
            let message: String = match &output.error_message {
                Some(m) => m.clone(),
                None => "An unknown error occurred".to_owned(),
            };
            return Err(CodexStreamError::other(message));
        }
    }
    Ok(())
}

/// The content with `delta` behind the thinking at `index`.
pub open spec fn thinking_appended(content: Seq<BlockView>, index: int, delta: Seq<char>) -> Seq<
    BlockView,
> {
    if 0 <= index < content.len() {
        match content[index] {
            BlockView::Thinking { thinking, signature } => content.update(
                index,
                BlockView::Thinking { thinking: thinking + delta, signature },
            ),
            _ => content,
        }
    } else {
        content
    }
}

pub fn append_thinking(content: &mut Vec<ContentBlock>, index: usize, delta: &str)
    ensures
        views::all(final(content)@) == thinking_appended(
            views::all(old(content)@),
            index as int,
            delta@,
        ),
{
    let ghost before = views::all(content@);
    if index < content.len() {
        match &mut content[index] {
            ContentBlock::Thinking { thinking, .. } => {
                thinking.append(delta);
            },
            _ => {},
        }
    }
    assert(views::all(content@) =~= thinking_appended(before, index as int, delta@));
}

/// The content with `delta` behind the text at `index`.
pub open spec fn text_appended(content: Seq<BlockView>, index: int, delta: Seq<char>) -> Seq<
    BlockView,
> {
    if 0 <= index < content.len() {
        match content[index] {
            BlockView::Text { text, text_signature } => content.update(
                index,
                BlockView::Text { text: text + delta, text_signature },
            ),
            _ => content,
        }
    } else {
        content
    }
}

pub fn append_text(content: &mut Vec<ContentBlock>, index: usize, delta: &str)
    ensures
        views::all(final(content)@) == text_appended(
            views::all(old(content)@),
            index as int,
            delta@,
        ),
{
    let ghost before = views::all(content@);
    if index < content.len() {
        match &mut content[index] {
            ContentBlock::Text { text, .. } => {
                text.append(delta);
            },
            _ => {},
        }
    }
    assert(views::all(content@) =~= text_appended(before, index as int, delta@));
}


/// The content with the arguments of the tool call at `index` replaced.
pub open spec fn arguments_set(content: Seq<BlockView>, index: int, arguments: JsonView) -> Seq<
    BlockView,
> {
    if 0 <= index < content.len() {
        match content[index] {
            BlockView::ToolCall { id, name, .. } => content.update(
                index,
                BlockView::ToolCall { id, name, arguments },
            ),
            _ => content,
        }
    } else {
        content
    }
}

pub fn set_tool_arguments(content: &mut Vec<ContentBlock>, index: usize, value: Json)
    ensures
        views::all(final(content)@) == arguments_set(
            views::all(old(content)@),
            index as int,
            value@,
        ),
{
    let ghost before = views::all(content@);
    if index < content.len() {
        match &mut content[index] {
            ContentBlock::ToolCall { arguments, .. } => {
                *arguments = value;
            },
            _ => {},
        }
    }
    assert(views::all(content@) =~= arguments_set(before, index as int, value@));
}

/// The property that the arguments of a call of a tool with a grammar keep
/// their text in: the first there is, else `input`.
pub open spec fn input_key(arguments: JsonView) -> Seq<char> {
    match arguments {
        JsonView::Object(m) => views::or(json::least_key(m), "input"@),
        _ => "input"@,
    }
}

/// The content with the input text of the tool call at `index` replaced.
pub open spec fn custom_input_set(content: Seq<BlockView>, index: int, input: Seq<char>) -> Seq<
    BlockView,
> {
    if 0 <= index < content.len() {
        match content[index] {
            BlockView::ToolCall { arguments, .. } => arguments_set(
                content,
                index,
                JsonView::object().with(input_key(arguments), json::jtext(input)),
            ),
            _ => content,
        }
    } else {
        content
    }
}

pub fn set_custom_tool_input(content: &mut Vec<ContentBlock>, index: usize, input: &str)
    ensures
        views::all(final(content)@) == custom_input_set(
            views::all(old(content)@),
            index as int,
            input@,
        ),
{
    let ghost before = views::all(content@);
    if index < content.len() {
        match &mut content[index] {
            ContentBlock::ToolCall { arguments, .. } => {
                let key: String = match arguments.first_key() {
                    Some(k) => k,
                    None => "input".to_owned(),
                };
                *arguments = Json::object().with(key.as_str(), Json::text(input));
            },
            _ => {},
        }
    }
    assert(views::all(content@) =~= custom_input_set(before, index as int, input@));
}

/// The block at `index`; an empty text where there is none.
pub open spec fn block_at(content: Seq<BlockView>, index: int) -> BlockView {
    if 0 <= index < content.len() {
        content[index]
    } else {
        BlockView::Text { text: Seq::empty(), text_signature: None }
    }
}

/// A copy of the block at `index`.
pub fn content_block(content: &Vec<ContentBlock>, index: usize) -> (r: ContentBlock)
    ensures
        r@ == block_at(views::all(content@), index as int),
{
    if index < content.len() {
        clone_block(&content[index])
    } else {
        ContentBlock::Text { text: String::new(), text_signature: None }
    }
}

/// The content with the thinking at `index` complete: its text replaced where
/// there is a new one, its signature set.
pub open spec fn thinking_finished(
    content: Seq<BlockView>,
    index: int,
    summary: Seq<char>,
    body: Seq<char>,
    sig: Seq<char>,
) -> Seq<BlockView> {
    if 0 <= index < content.len() {
        match content[index] {
            BlockView::Thinking { thinking, .. } => content.update(
                index,
                BlockView::Thinking {
                    thinking: if summary.len() > 0 {
                        summary
                    } else if body.len() > 0 {
                        body
                    } else {
                        thinking
                    },
                    signature: Some(sig),
                },
            ),
            _ => content,
        }
    } else {
        content
    }
}

pub fn finish_thinking(
    content: &mut Vec<ContentBlock>,
    index: usize,
    summary: String,
    body: String,
    sig: &str,
)
    ensures
        views::all(final(content)@) == thinking_finished(
            views::all(old(content)@),
            index as int,
            summary@,
            body@,
            sig@,
        ),
{
    let ghost before = views::all(content@);
    if index < content.len() {
        match &mut content[index] {
            ContentBlock::Thinking { thinking, signature } => {
                if !summary.as_str().is_empty() {
                    *thinking = summary;
                } else if !body.as_str().is_empty() {
                    *thinking = body;
                }
                *signature = Some(sig.to_owned());
            },
            _ => {},
        }
    }
    assert(views::all(content@) =~= thinking_finished(before, index as int, summary@, body@, sig@));
}

/// The content with the text at `index` complete: its text replaced, and its
/// signature where there is a new one.
pub open spec fn text_finished(
    content: Seq<BlockView>,
    index: int,
    full: Seq<char>,
    sig: Option<Seq<char>>,
) -> Seq<BlockView> {
    if 0 <= index < content.len() {
        match content[index] {
            BlockView::Text { text_signature, .. } => content.update(
                index,
                BlockView::Text {
                    text: full,
                    text_signature: views::first_of(sig, text_signature),
                },
            ),
            _ => content,
        }
    } else {
        content
    }
}

pub fn finish_text(
    content: &mut Vec<ContentBlock>,
    index: usize,
    full: String,
    sig: Option<String>,
)
    ensures
        views::all(final(content)@) == text_finished(
            views::all(old(content)@),
            index as int,
            full@,
            views::opt(sig),
        ),
{
    let ghost before = views::all(content@);
    if index < content.len() {
        match &mut content[index] {
            ContentBlock::Text { text, text_signature } => {
                *text = full;
                match sig {
                    Some(s) => {
                        *text_signature = Some(s);
                    },
                    None => {},
                }
            },
            _ => {},
        }
    }
    assert(views::all(content@) =~= text_finished(before, index as int, full@, views::opt(sig)));
}

/// A stream that ended with a stop reason of its own succeeded; one that failed or was aborted
/// says its message, and one that still has no reason says so.
pub proof fn law_failed_output_is_told(output: AssistantView)
    ensures
        output_error(output) is Some <==> output.stop_reason == Some("pending"@)
            || output.stop_reason == Some("error"@) || output.stop_reason == Some("aborted"@),
        (output.stop_reason == Some("error"@) || output.stop_reason == Some("aborted"@))
            && output.error_message is Some ==> output_error(output)->0.message
            == output.error_message->0,
        (output.stop_reason == Some("error"@) || output.stop_reason == Some("aborted"@))
            && output.error_message is None ==> output_error(output)->0.message
            == "An unknown error occurred"@,
{
    reveal_strlit("pending");
    reveal_strlit("error");
    reveal_strlit("aborted");
    assert("pending"@.len() == 7);
    assert("error"@.len() == 5);
    assert("aborted"@[0] == 'a' && "pending"@[0] == 'p');
}

/// A message that is pending is of its model and provider, empty, and as yet no success.
pub proof fn law_pending_message_is_empty(model_id: Seq<char>, provider: Seq<char>, timestamp: i64)
    ensures
        ({
            let m = pending_output(model_id, provider, timestamp);
            &&& m.model == Some(model_id)
            &&& m.provider == provider
            &&& m.api == "openai-codex-responses"@
            &&& m.timestamp == timestamp
            &&& m.content.len() == 0
            &&& m.error_message is None
            &&& m.response_id is None
            &&& m.usage.input == 0 && m.usage.output == 0
            &&& m.stop_reason == Some("pending"@)
            &&& output_error(m) is Some
        }),
{
}

/// The input of a call is kept under the first name of its arguments, or under `input` where
/// they have none, and everything else stays.
pub proof fn law_custom_input_is_kept(
    content: Seq<BlockView>,
    index: int,
    input: Seq<char>,
    first: Seq<char>,
)
    requires
        0 <= index < content.len(),
        content[index] is ToolCall,
    ensures
        ({
            let after = custom_input_set(content, index, input);
            let key = input_key(content[index]->arguments);
            &&& after.len() == content.len()
            &&& forall|i: int|
                0 <= i < content.len() && i != index ==> #[trigger] after[i] == content[i]
            &&& match (content[index], after[index]) {
                (
                    BlockView::ToolCall { id, name, arguments },
                    BlockView::ToolCall { id: id2, name: name2, arguments: now },
                ) => {
                    &&& id2 == id
                    &&& name2 == name
                    &&& now.field_text(key) == Some(input)
                    &&& now is Object
                    &&& forall|k: Seq<char>| k != key ==> #[trigger] now.get(k) is None
                    &&& arguments == JsonView::object() || !(arguments is Object) ==> key
                        == "input"@
                    &&& arguments is Object && json::is_least_key(arguments->Object_0, first)
                        ==> key == first
                },
                _ => false,
            }
        }),
{
    let arguments = content[index]->arguments;
    if arguments is Object && json::is_least_key(arguments->Object_0, first) {
        json::lemma_least_key(arguments->Object_0, first);
    }
}

} // verus!
