//! What a response that comes in one piece is reported as.
use vstd::prelude::*;
use crate::json::{clone_json, Json, JsonView};
use crate::json_text;
use crate::json_text::parse_json;
use crate::types;
use crate::types::{
    AssistantMessage, AssistantView, BlockView, ContentBlock, Message, MessageView, Model,
    ModelView, Usage, UsageView,
};
use crate::views;

verus! {

broadcast use crate::views::group_views;

/// What a response is reported as. A tool call is reported by the message that
/// holds it as far as it is known.
pub enum WireEvent {
    Start { model: String, partial: AssistantMessage },
    TextStart,
    TextDelta { delta: String },
    TextEnd,
    ThinkingStart,
    ThinkingDelta { delta: String },
    ThinkingEnd { signature: Option<String> },
    ToolcallStart { content_index: usize, partial: AssistantMessage },
    ToolcallDelta { content_index: usize, partial: AssistantMessage },
    ToolcallEnd { tool_call: ContentBlock },
    Usage { usage: Usage },
    Done { reason: String, message: AssistantMessage },
    Error { error: String },
}

#[verifier::ext_equal]
pub enum WireEventView {
    Start { model: Seq<char>, partial: MessageView },
    TextStart,
    TextDelta { delta: Seq<char> },
    TextEnd,
    ThinkingStart,
    ThinkingDelta { delta: Seq<char> },
    ThinkingEnd { signature: Option<Seq<char>> },
    ToolcallStart { content_index: int, partial: MessageView },
    ToolcallDelta { content_index: int, partial: MessageView },
    ToolcallEnd { tool_call: BlockView },
    Usage { usage: UsageView },
    Done { reason: Seq<char>, message: MessageView },
    Error { error: Seq<char> },
}

impl View for WireEvent {
    type V = WireEventView;

    open spec fn view(&self) -> WireEventView {
        match *self {
            WireEvent::Start { model, partial } => WireEventView::Start {
                model: model@,
                partial: partial@,
            },
            WireEvent::TextStart => WireEventView::TextStart,
            WireEvent::TextDelta { delta } => WireEventView::TextDelta { delta: delta@ },
            WireEvent::TextEnd => WireEventView::TextEnd,
            WireEvent::ThinkingStart => WireEventView::ThinkingStart,
            WireEvent::ThinkingDelta { delta } => WireEventView::ThinkingDelta { delta: delta@ },
            WireEvent::ThinkingEnd { signature } => WireEventView::ThinkingEnd {
                signature: views::opt(signature),
            },
            WireEvent::ToolcallStart { content_index, partial } => WireEventView::ToolcallStart {
                content_index: content_index as int,
                partial: partial@,
            },
            WireEvent::ToolcallDelta { content_index, partial } => WireEventView::ToolcallDelta {
                content_index: content_index as int,
                partial: partial@,
            },
            WireEvent::ToolcallEnd { tool_call } => WireEventView::ToolcallEnd {
                tool_call: tool_call@,
            },
            WireEvent::Usage { usage } => WireEventView::Usage { usage: usage@ },
            WireEvent::Done { reason, message } => WireEventView::Done {
                reason: reason@,
                message: message@,
            },
            WireEvent::Error { error } => WireEventView::Error { error: error@ },
        }
    }
}

/// A message of a model.
pub open spec fn message_of(
    model: ModelView,
    content: Seq<BlockView>,
    usage: UsageView,
    stop_reason: Option<Seq<char>>,
    now: i64,
) -> MessageView {
    MessageView::Assistant(
        AssistantView {
            content,
            model: Some(model.id),
            usage,
            stop_reason,
            ..types::empty_assistant(model.api, model.provider_id, now)
        },
    )
}

/// A message of a model.
pub fn model_message(
    model: &Model,
    content: Vec<ContentBlock>,
    usage: Usage,
    stop_reason: Option<String>,
    now: i64,
) -> (r: AssistantMessage)
    ensures
        r@ == message_of(
            model@,
            views::all(content@),
            usage@,
            views::opt(stop_reason),
            now,
        ),
{
    Message::Assistant {
        content,
        api: model.api.clone(),
        provider: model.provider_id.clone(),
        model: Some(model.id.clone()),
        usage,
        stop_reason,
        error_message: None,
        response_id: None,
        end_turn: None,
        timestamp: now,
    }
}

/// A message of a model as far as nothing but a part of its content is known.
pub open spec fn partial_of(model: ModelView, content: Seq<BlockView>, now: i64) -> MessageView {
    message_of(model, content, types::no_usage(), None, now)
}

/// The event that opens a response.
pub open spec fn start_of(model: ModelView, now: i64) -> WireEventView {
    WireEventView::Start { model: model.id, partial: partial_of(model, Seq::empty(), now) }
}

/// The event that opens a response.
pub fn start_event(model: &Model, now: i64) -> (r: WireEvent)
    ensures
        r@ == start_of(model@, now),
{
    let none: Vec<ContentBlock> = Vec::new();
    assert(views::all(none@) =~= Seq::<BlockView>::empty());
    WireEvent::Start {
        model: model.id.clone(),
        partial: model_message(model, none, Usage::default(), None, now),
    }
}

/// The events of a text.
pub open spec fn text_events(text: Seq<char>) -> Seq<WireEventView> {
    seq![
        WireEventView::TextStart,
        WireEventView::TextDelta { delta: text },
        WireEventView::TextEnd,
    ]
}

/// Adds the events of a text.
pub fn push_text_events(events: &mut Vec<WireEvent>, text: &str)
    ensures
        views::all(final(events)@) == views::all(old(events)@) + text_events(text@),
{
    let ghost before = views::all(events@);
    events.push(WireEvent::TextStart);
    events.push(WireEvent::TextDelta { delta: text.to_owned() });
    events.push(WireEvent::TextEnd);
    assert(views::all(events@) =~= before + text_events(text@));
}

/// A tool call of which nothing is known.
pub open spec fn unknown_call() -> BlockView {
    BlockView::ToolCall { id: Seq::empty(), name: Seq::empty(), arguments: JsonView::Null }
}

/// The events of a tool call, of which first nothing is known and then `known`.
pub open spec fn call_events(
    model: ModelView,
    index: int,
    known: BlockView,
    call: BlockView,
    now: i64,
) -> Seq<WireEventView> {
    seq![
        WireEventView::ToolcallStart {
            content_index: index,
            partial: partial_of(model, seq![unknown_call()], now),
        },
        WireEventView::ToolcallDelta {
            content_index: index,
            partial: partial_of(model, seq![known], now),
        },
        WireEventView::ToolcallEnd { tool_call: call },
    ]
}

fn partial_with(model: &Model, block: ContentBlock, now: i64) -> (r: AssistantMessage)
    ensures
        r@ == partial_of(model@, seq![block@], now),
{
    let mut content: Vec<ContentBlock> = Vec::new();
    content.push(block);
    assert(views::all(content@) =~= seq![block@]);
    model_message(model, content, Usage::default(), None, now)
}

/// Adds the events of a tool call, of which `known` is known before its end.
pub fn push_call_events(
    events: &mut Vec<WireEvent>,
    model: &Model,
    index: usize,
    id: &str,
    name: &str,
    known: &Json,
    arguments: &Json,
    now: i64,
)
    ensures
        views::all(final(events)@) == views::all(old(events)@) + call_events(
            model@,
            index as int,
            BlockView::ToolCall { id: id@, name: name@, arguments: known@ },
            BlockView::ToolCall { id: id@, name: name@, arguments: arguments@ },
            now,
        ),
{
    let ghost before = views::all(events@);
    let unknown: ContentBlock = ContentBlock::ToolCall {
        id: String::new(),
        name: String::new(),
        arguments: Json::Null,
    };
    assert(unknown@ == unknown_call());
    events.push(
        WireEvent::ToolcallStart {
            content_index: index,
            partial: partial_with(model, unknown, now),
        },
    );
    let so_far: ContentBlock = ContentBlock::ToolCall {
        id: id.to_owned(),
        name: name.to_owned(),
        arguments: clone_json(known),
    };
    events.push(
        WireEvent::ToolcallDelta {
            content_index: index,
            partial: partial_with(model, so_far, now),
        },
    );
    events.push(
        WireEvent::ToolcallEnd {
            tool_call: ContentBlock::ToolCall {
                id: id.to_owned(),
                name: name.to_owned(),
                arguments: clone_json(arguments),
            },
        },
    );
    assert(views::all(events@) =~= before + call_events(
        model@,
        index as int,
        BlockView::ToolCall { id: id@, name: name@, arguments: known@ },
        BlockView::ToolCall { id: id@, name: name@, arguments: arguments@ },
        now,
    ));
}

/// The message of the first event that says that the response is done.
pub open spec fn done_message(events: Seq<WireEventView>) -> Option<MessageView>
    decreases events.len(),
{
    if events.len() == 0 {
        None
    } else {
        match events[0] {
            WireEventView::Done { message, .. } => Some(message),
            _ => done_message(events.skip(1)),
        }
    }
}

/// What a whole request comes to, given the events of its response.
pub fn completed(events: &Vec<WireEvent>) -> (r: Result<AssistantMessage, String>)
    ensures
        match done_message(views::all(events@)) {
            Some(m) => r is Ok && r->Ok_0@ == m,
            None => r is Err && r->Err_0@ == "No done event received"@,
        },
{
    let ghost all = views::all(events@);
    let mut i: usize = 0;
    assert(all.skip(0) =~= all);
    while i < events.len()
        invariant
            i <= events@.len(),
            all == views::all(events@),
            done_message(all.skip(i as int)) == done_message(all),
        decreases events@.len() - i,
    {
        assert(all.skip(i as int)[0] == all[i as int]);
        assert(all.skip(i as int).skip(1) =~= all.skip(i + 1));
        if let WireEvent::Done { message, .. } = &events[i] {
            return Ok(message.clone());
        }
        i = i + 1;
    }
    Err("No done event received".to_owned())
}

/// What a response that is no success is reported as.
pub open spec fn http_failure(status: Seq<char>, body: Seq<char>) -> Seq<char> {
    "HTTP "@ + status + ": "@ + body
}

/// What a response that is no success is reported as.
pub fn http_error(status: &str, body: &str) -> (r: String)
    ensures
        r@ == http_failure(status@, body@),
{
    let mut m: String = crate::text::concat3("HTTP ", status, ": ");
    m.append(body);
    m
}

/// What a service answered: the value of its text, unless it reports a failure or its text
/// is no JSON.
pub open spec fn answered(success: bool, status: Seq<char>, text: Seq<char>) -> Result<
    JsonView,
    Seq<char>,
> {
    if success {
        json_text::json_of_text(text)
    } else {
        Err(http_failure(status, text))
    }
}

/// Reads what a service answered.
pub fn read_answer(success: bool, status: &str, text: &str) -> (r: Result<Json, String>)
    ensures
        match r {
            Ok(v) => answered(success, status@, text@) == Ok::<JsonView, Seq<char>>(v@),
            Err(e) => answered(success, status@, text@) == Err::<JsonView, Seq<char>>(e@),
        },
{
    if success {
        parse_json(text)
    } else {
        Err(http_error(status, text))
    }
}

/// The message that a request comes to is that of the first event that says it is done; events
/// without one come to none.
pub proof fn law_done_event_holds_the_message(
    before: Seq<WireEventView>,
    reason: Seq<char>,
    message: MessageView,
    behind: Seq<WireEventView>,
)
    requires
        forall|i: int| 0 <= i < before.len() ==> !(#[trigger] before[i] is Done),
    ensures
        done_message(before + seq![WireEventView::Done { reason, message }] + behind) == Some(
            message,
        ),
        done_message(before) is None,
    decreases before.len(),
{
    let all = before + seq![WireEventView::Done { reason, message }] + behind;
    if before.len() > 0 {
        let rest = before.skip(1);
        assert forall|i: int| 0 <= i < rest.len() implies !(#[trigger] rest[i] is Done) by {
            assert(rest[i] == before[i + 1]);
        }
        law_done_event_holds_the_message(rest, reason, message, behind);
        assert(all[0] == before[0]);
        assert(all.skip(1) =~= rest + seq![WireEventView::Done { reason, message }] + behind);
    } else {
        assert(all[0] == WireEventView::Done { reason, message });
    }
}

/// A message names its model, the service and the provider of it, the time, and what it was
/// made of.
pub proof fn law_message_is_of_its_model(
    model: ModelView,
    content: Seq<BlockView>,
    usage: UsageView,
    stop_reason: Option<Seq<char>>,
    now: i64,
)
    ensures
        match message_of(model, content, usage, stop_reason, now) {
            MessageView::Assistant(a) => {
                &&& a.content == content
                &&& a.model == Some(model.id)
                &&& a.api == model.api
                &&& a.provider == model.provider_id
                &&& a.usage == usage
                &&& a.stop_reason == stop_reason
                &&& a.timestamp == now
                &&& a.error_message is None
            },
            _ => false,
        },
{
}

/// A failure is told with its status and with what the service said.
pub proof fn law_failure_is_told_with_its_status(status: Seq<char>, body: Seq<char>)
    ensures
        answered(false, status, body) is Err,
        crate::text::begins(answered(false, status, body)->Err_0, "HTTP "@ + status),
        crate::text::ends(answered(false, status, body)->Err_0, body),
        answered(true, status, body) == json_text::json_of_text(body),
{
    let e = answered(false, status, body)->Err_0;
    let head = "HTTP "@ + status;
    assert(e.take(head.len() as int) =~= head);
    assert(e.skip(e.len() - body.len()) =~= body);
}

/// A text is opened, told whole and closed; a call is opened under its place before anything is
/// known of it, and closed with all of it.
pub proof fn law_blocks_are_opened_and_closed(
    text: Seq<char>,
    model: ModelView,
    index: int,
    known: BlockView,
    call: BlockView,
    now: i64,
)
    ensures
        text_events(text).len() == 3,
        text_events(text)[0] is TextStart,
        text_events(text)[1] == (WireEventView::TextDelta { delta: text }),
        text_events(text)[2] is TextEnd,
        ({
            let told = call_events(model, index, known, call, now);
            &&& told.len() == 3
            &&& told[0] matches WireEventView::ToolcallStart { content_index, partial }
                && content_index == index && (partial matches MessageView::Assistant(a)
                && a.content.len() == 1 && a.model == Some(model.id))
            &&& told[1] matches WireEventView::ToolcallDelta { content_index, partial }
                && content_index == index && (partial matches MessageView::Assistant(a) && a.content
                == seq![known] && a.model == Some(model.id))
            &&& told[2] == (WireEventView::ToolcallEnd { tool_call: call })
        }),
{
}

} // verus!
