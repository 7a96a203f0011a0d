//! One request over a websocket.
use vstd::prelude::*;
use crate::base64;
use crate::base64::base64_encode;
use crate::codex::errors;
use crate::codex::errors::{CodexErrorKind, CodexErrorView, CodexStreamError};
use crate::codex::events;
use crate::codex::ids;
use crate::codex::options::CodexTransport;
use crate::codex::output;
use crate::codex::output::{assert_successful_output, AssistantOutput};
use crate::codex::replay;
use crate::codex::replay::{convert_responses_messages, ReplayTarget};
use crate::codex::request;
use crate::codex::request::codex_tool_call_providers;
use crate::codex::sessions;
use crate::codex::sessions::{
    build_cached_request_body, record_request, release_keep, retire_entry, set_continuation,
    CodexSessions, ContinuationState, ContinuationView, EntryView, SessionsView,
};
use crate::codex::urls::clamp_prompt_cache_key;
use crate::dict;
use crate::dict::Dict;
use crate::json;
use crate::json::{clone_json, Json, JsonView};
use crate::json_text;
use crate::json_text::{parse_json, print_json};
use crate::text;
use crate::text::{concat, decimal, same_text, split_once_at, trim_beginnings};
use crate::types;
use crate::types::{AssistantView, Context, ContextView, Message, MessageView, Model};
use crate::views;

verus! {

broadcast use crate::views::group_views;

/// The code of a failure: the service takes no more connections.
pub const WEBSOCKET_CONNECTION_LIMIT_REACHED: &'static str = "websocket_connection_limit_reached";

/// The code of a failure: the service does not hold the response to continue.
pub const PREVIOUS_RESPONSE_NOT_FOUND: &'static str = "previous_response_not_found";

/// A failure of a request over a websocket.
pub struct WebSocketRunError {
    pub message: String,
    /// Whether the stream was opened before. A failure behind that point is never
    /// hidden by trying again.
    pub started: bool,
    pub kind: CodexErrorKind,
    pub code: Option<String>,
}

#[verifier::ext_equal]
pub struct RunErrorView {
    pub message: Seq<char>,
    pub started: bool,
    pub kind: CodexErrorKind,
    pub code: Option<Seq<char>>,
}

impl View for WebSocketRunError {
    type V = RunErrorView;

    open spec fn view(&self) -> RunErrorView {
        RunErrorView {
            message: self.message@,
            started: self.started,
            kind: self.kind,
            code: views::opt(self.code),
        }
    }
}

/// A failure before anything was sent.
pub open spec fn transport_error(message: Seq<char>) -> RunErrorView {
    RunErrorView { message, started: false, kind: CodexErrorKind::Other, code: None }
}

/// A failure before anything was sent.
pub fn transport_err(message: String) -> (r: WebSocketRunError)
    ensures
        r@ == transport_error(message@),
{
    WebSocketRunError { message, started: false, kind: CodexErrorKind::Other, code: None }
}

/// A failure of the stream as one of the request.
pub open spec fn run_error(e: CodexErrorView, started: bool) -> RunErrorView {
    RunErrorView { message: e.message, started, kind: e.kind, code: e.code }
}

fn run_err(e: CodexStreamError, started: bool) -> (r: WebSocketRunError)
    ensures
        r@ == run_error(e@, started),
{
    WebSocketRunError { message: e.message, started, kind: e.kind, code: e.code }
}

/// Whether a transport keeps conversations on the service's side.
pub fn uses_cached_context(transport: CodexTransport) -> (r: bool)
    ensures
        r == (transport == CodexTransport::Auto || transport == CodexTransport::WebsocketCached),
{
    transport == CodexTransport::Auto || transport == CodexTransport::WebsocketCached
}

/// The host that a websocket address names.
pub open spec fn authority(url: Seq<char>) -> Seq<char> {
    let rest = text::without_beginnings(text::without_beginnings(url, "wss://"@), "ws://"@);
    match text::split_once(rest, '/') {
        Some((host, _)) => host,
        None => rest,
    }
}

/// The host that a websocket address names.
pub fn url_authority(url: &str) -> (r: String)
    ensures
        r@ == authority(url@),
{
    proof {
        reveal_strlit("wss://");
        reveal_strlit("ws://");
    }
    let secure: String = trim_beginnings(url, "wss://");
    let rest: String = trim_beginnings(secure.as_str(), "ws://");
    match split_once_at(rest.as_str(), '/') {
        Some((host, _)) => host,
        None => rest,
    }
}

/// The key of a websocket handshake: sixteen bytes in padded base64.
pub fn sec_websocket_key(bytes: &[u8]) -> (r: String)
    requires
        bytes@.len() == 16,
    ensures
        r@ == base64::encoded_padded(bytes@),
{
    base64_encode(bytes)
}

/// The frame that asks for a response: the request body with its type. A type in
/// the body itself counts more.
pub open spec fn request_frame(body: JsonView) -> JsonView {
    let head = JsonView::object().with("type"@, json::jtext("response.create"@));
    match body {
        JsonView::Object(m) => JsonView::Object(head->Object_0.union_prefer_right(m)),
        _ => head,
    }
}

/// The text of the frame that asks for a response.
pub fn frame_text(body: &Json) -> (r: String)
    ensures
        r@ == json_text::text_of_json(request_frame(body@)),
{
    let frame: Json = match body {
        Json::Object(_) => {
            let copy: Json = clone_json(body);
            if copy.get("type").is_some() {
                assert(copy@->Object_0 =~= request_frame(body@)->Object_0);
                copy
            } else {
                let framed: Json = copy.with("type", Json::text("response.create"));
                assert(framed@->Object_0 =~= request_frame(body@)->Object_0);
                framed
            }
        },
        _ => Json::object().with("type", Json::text("response.create")),
    };
    print_json(&frame)
}

/// What the socket gave.
pub enum SocketRead {
    /// Nothing more will come.
    Ended,
    Text(String),
    /// The other side closes.
    Closed,
    /// Something that carries no event.
    Other,
    Failed(String),
    /// Nothing came for this many milliseconds.
    IdleFor(u64),
    /// The request could not be sent.
    SendFailed,
    Aborted,
}

pub enum SocketReadView {
    Ended,
    Text(Seq<char>),
    Closed,
    Other,
    Failed(Seq<char>),
    IdleFor(u64),
    SendFailed,
    Aborted,
}

impl View for SocketRead {
    type V = SocketReadView;

    open spec fn view(&self) -> SocketReadView {
        match *self {
            SocketRead::Ended => SocketReadView::Ended,
            SocketRead::Text(s) => SocketReadView::Text(s@),
            SocketRead::Closed => SocketReadView::Closed,
            SocketRead::Other => SocketReadView::Other,
            SocketRead::Failed(s) => SocketReadView::Failed(s@),
            SocketRead::IdleFor(ms) => SocketReadView::IdleFor(ms),
            SocketRead::SendFailed => SocketReadView::SendFailed,
            SocketRead::Aborted => SocketReadView::Aborted,
        }
    }
}

/// What a read comes to.
pub enum ReaderStep {
    /// Read on.
    Skip,
    /// Hand an event on. Behind a terminal one the socket goes home and reading
    /// ends.
    Forward { event: Json, terminal: bool },
    /// Hand a failure on and drop the socket.
    Fail(CodexStreamError),
}

pub enum ReaderStepView {
    Skip,
    Forward { event: JsonView, terminal: bool },
    Fail(CodexErrorView),
}

impl View for ReaderStep {
    type V = ReaderStepView;

    open spec fn view(&self) -> ReaderStepView {
        match *self {
            ReaderStep::Skip => ReaderStepView::Skip,
            ReaderStep::Forward { event, terminal } => ReaderStepView::Forward {
                event: event@,
                terminal,
            },
            ReaderStep::Fail(e) => ReaderStepView::Fail(e@),
        }
    }
}

/// Whether an event ends a response.
pub open spec fn is_terminal(event: JsonView) -> bool {
    match event.field_text("type"@) {
        Some(kind) => events::is_terminal_type(kind),
        None => false,
    }
}

/// Whether an event ends a response.
pub fn is_terminal_event(event: &Json) -> (r: bool)
    ensures
        r == is_terminal(event@),
{
    match event.field_str("type") {
        Some(kind) => same_text(kind, "response.done") || same_text(kind, "response.completed")
            || same_text(kind, "response.incomplete"),
        None => false,
    }
}

/// What a text frame comes to, given what reading it as JSON came to.
pub open spec fn text_step(json: Result<JsonView, Seq<char>>) -> ReaderStepView {
    match json {
        Ok(event) => ReaderStepView::Forward { event, terminal: is_terminal(event) },
        Err(e) => ReaderStepView::Fail(
            errors::protocol_error("Invalid Codex WebSocket JSON: "@ + e),
        ),
    }
}

/// What a read comes to.
pub open spec fn reader_step(read: SocketReadView) -> ReaderStepView {
    match read {
        SocketReadView::Text(s) => text_step(json_text::json_of_text(s)),
        SocketReadView::Other => ReaderStepView::Skip,
        SocketReadView::Ended => ReaderStepView::Fail(
            errors::other_error("WebSocket stream closed before response.completed"@),
        ),
        SocketReadView::Closed => ReaderStepView::Fail(
            errors::other_error("WebSocket stream closed before response.completed"@),
        ),
        SocketReadView::Failed(e) => ReaderStepView::Fail(
            errors::other_error("WebSocket error: "@ + e),
        ),
        SocketReadView::IdleFor(ms) => ReaderStepView::Fail(
            errors::other_error(
                "WebSocket idle timeout after "@ + text::decimal_text(ms as nat) + "ms"@,
            ),
        ),
        SocketReadView::SendFailed => ReaderStepView::Fail(
            errors::other_error("WebSocket send failed"@),
        ),
        SocketReadView::Aborted => ReaderStepView::Fail(
            errors::other_error("Request was aborted"@),
        ),
    }
}

/// What a text frame comes to, given what reading it as JSON came to.
pub fn text_frame_step(parsed: Result<Json, String>) -> (r: ReaderStep)
    ensures
        r@ == text_step(
            match parsed {
                Ok(v) => Ok(v@),
                Err(e) => Err(e@),
            },
        ),
{
    match parsed {
        Ok(event) => {
            let terminal: bool = is_terminal_event(&event);
            ReaderStep::Forward { event, terminal }
        },
        Err(e) => ReaderStep::Fail(
            CodexStreamError::protocol(concat("Invalid Codex WebSocket JSON: ", e.as_str())),
        ),
    }
}

/// Decides what a read comes to.
pub fn read_step(read: SocketRead) -> (r: ReaderStep)
    ensures
        r@ == reader_step(read@),
{
    match read {
        SocketRead::Text(s) => text_frame_step(parse_json(s.as_str())),
        SocketRead::Other => ReaderStep::Skip,
        SocketRead::Ended => ReaderStep::Fail(
            CodexStreamError::other(
                "WebSocket stream closed before response.completed".to_owned(),
            ),
        ),
        SocketRead::Closed => ReaderStep::Fail(
            CodexStreamError::other(
                "WebSocket stream closed before response.completed".to_owned(),
            ),
        ),
        SocketRead::Failed(e) => ReaderStep::Fail(
            CodexStreamError::other(concat("WebSocket error: ", e.as_str())),
        ),
        SocketRead::IdleFor(ms) => {
            let mut m: String = concat("WebSocket idle timeout after ", decimal(ms).as_str());
            m.append("ms");
            ReaderStep::Fail(CodexStreamError::other(m))
        },
        SocketRead::SendFailed => ReaderStep::Fail(
            CodexStreamError::other("WebSocket send failed".to_owned()),
        ),
        SocketRead::Aborted => ReaderStep::Fail(
            CodexStreamError::other("Request was aborted".to_owned()),
        ),
    }
}

/// A connection that a request runs on: kept, with its session, account and id,
/// or not.
pub struct Acquired {
    pub entry: Option<(String, String, u64)>,
    pub reused: bool,
}

/// Where the connection of a request is kept.
pub open spec fn acquired_key(a: Acquired) -> Option<((Seq<char>, Seq<char>), u64)> {
    match a.entry {
        Some((s, acc, id)) => Some(((s@, acc@), id)),
        None => None,
    }
}

/// The sessions and the body that goes out, before a request is counted.
pub open spec fn prepared(
    v: SessionsView,
    key: Option<((Seq<char>, Seq<char>), u64)>,
    use_cached_context: bool,
    body: JsonView,
) -> (SessionsView, JsonView) {
    match key {
        Some((k, id)) => if use_cached_context && sessions::is_current(v, k, id) {
            let cont = v.entries[k].continuation;
            (
                if cont is Some && sessions::input_delta(body, cont->0) is None {
                    SessionsView {
                        entries: v.entries.insert(
                            k,
                            EntryView { continuation: None, ..v.entries[k] },
                        ),
                        ..v
                    }
                } else {
                    v
                },
                sessions::sent_body(body, cont),
            )
        } else {
            (v, body)
        },
        None => (v, body),
    }
}

/// Makes a request ready to go out on a connection, and counts it: the text of its
/// frame is returned.
pub fn prepare_request(
    sessions: &mut CodexSessions,
    session: Option<&str>,
    acquired: &Acquired,
    transport: CodexTransport,
    body: &Json,
) -> (r: String)
    ensures
        ({
            let cached = transport == CodexTransport::Auto || transport
                == CodexTransport::WebsocketCached;
            let (v, sent) = prepared(old(sessions)@, acquired_key(*acquired), cached, body@);
            &&& r@ == json_text::text_of_json(request_frame(sent))
            &&& final(sessions)@ == (match session {
                Some(sid) => sessions::with_stats(
                    v,
                    sid@,
                    sessions::request_counted(
                        sessions::stats_of(v, sid@),
                        sent,
                        acquired.reused,
                        cached,
                    ),
                ),
                None => v,
            })
        }),
{
    let cached: bool = uses_cached_context(transport);
    let sent: Json = match &acquired.entry {
        Some((s, a, id)) => if cached {
            build_cached_request_body(sessions, s.as_str(), a.as_str(), *id, body)
        } else {
            clone_json(body)
        },
        None => clone_json(body),
    };
    record_request(sessions, session, &sent, acquired.reused, cached);
    frame_text(&sent)
}

/// Whether an item is the output of a tool.
pub open spec fn is_tool_output(item: JsonView) -> bool {
    item.field_text("type"@) == Some("function_call_output"@) || item.field_text("type"@) == Some(
        "custom_tool_call_output"@,
    )
}

/// The items that are not the output of a tool.
pub open spec fn without_tool_outputs(items: Seq<JsonView>) -> Seq<JsonView>
    decreases items.len(),
{
    if items.len() == 0 {
        Seq::empty()
    } else {
        let before = without_tool_outputs(items.drop_last());
        if is_tool_output(items.last()) {
            before
        } else {
            before.push(items.last())
        }
    }
}

fn is_tool_output_exec(item: &Json) -> (r: bool)
    ensures
        r == is_tool_output(item@),
{
    match item.field_str("type") {
        Some(t) => same_text(t, "function_call_output") || same_text(t, "custom_tool_call_output"),
        None => false,
    }
}

fn without_tool_outputs_exec(items: &Vec<Json>) -> (r: Vec<Json>)
    ensures
        views::all(r@) == without_tool_outputs(views::all(items@)),
{
    let ghost all = views::all(items@);
    let mut out: Vec<Json> = Vec::new();
    let mut i: usize = 0;
    while i < items.len()
        invariant
            i <= items@.len(),
            all == views::all(items@),
            views::all(out@) == without_tool_outputs(all.take(i as int)),
        decreases items@.len() - i,
    {
        proof {
            views::lemma_take_step(all, i as int);
        }
        if !is_tool_output_exec(&items[i]) {
            let copy: Json = clone_json(&items[i]);
            out.push(copy);
        }
        i = i + 1;
    }
    proof {
        views::lemma_take_all(all);
    }
    out
}

/// The exchange that a complete response leaves behind, where it has an id.
pub open spec fn exchange(
    body: JsonView,
    output: AssistantView,
    model_provider: Seq<char>,
    properties: Map<Seq<char>, Seq<char>>,
) -> Option<ContinuationView> {
    match output.response_id {
        Some(id) => Some(
            ContinuationView {
                last_request_body: body,
                last_response_id: id,
                last_response_items: without_tool_outputs(
                    replay::input_items(
                        ContextView {
                            messages: seq![MessageView::Assistant(output)],
                            ..types::empty_context()
                        },
                        false,
                        ReplayTarget {
                            provider: model_provider,
                            allowed: request::is_codex_provider(model_provider),
                            properties,
                        },
                    ),
                ),
            },
        ),
        None => None,
    }
}

/// The exchange that a complete response leaves behind.
pub fn continuation_after(
    body: &Json,
    output: &AssistantOutput,
    model: &Model,
    properties: &Dict<String>,
) -> (r: Option<ContinuationState>)
    ensures
        views::opt(r) == exchange(
            body@,
            output@,
            model.provider_id@,
            dict::texts(properties@),
        ),
{
    match &output.response_id {
        Some(id) => {
            let mut messages: Vec<Message> = Vec::new();
            messages.push(output.to_message());
            let mut context: Context = Context::default();
            context.messages = messages;
            assert(context@ =~= (ContextView {
                messages: seq![MessageView::Assistant(output@)],
                ..types::empty_context()
            }));
            let providers: Vec<&'static str> = codex_tool_call_providers();
            let items: Vec<Json> = convert_responses_messages(
                model,
                &context,
                providers.as_slice(),
                false,
                properties,
            );
            Some(
                ContinuationState {
                    last_request_body: clone_json(body),
                    last_response_id: id.clone(),
                    last_response_items: without_tool_outputs_exec(&items),
                },
            )
        },
        None => None,
    }
}

/// The connections behind a request that ran to its end: unless it was cancelled,
/// the connection is kept, with its exchange where that is to be continued.
pub open spec fn after_success(
    v: SessionsView,
    key: Option<((Seq<char>, Seq<char>), u64)>,
    cancelled: bool,
    noted: Option<ContinuationView>,
) -> SessionsView {
    match key {
        Some((k, id)) => if !sessions::is_current(v, k, id) {
            v
        } else if cancelled {
            SessionsView { entries: v.entries.remove(k), ..v }
        } else {
            SessionsView {
                entries: v.entries.insert(
                    k,
                    EntryView {
                        socket_home: true,
                        continuation: views::first_of(noted, v.entries[k].continuation),
                        ..v.entries[k]
                    },
                ),
                ..v
            }
        },
        None => v,
    }
}

/// Puts the connection of a request that ran to its end away, and says whether its
/// message is a success.
pub fn finish_request(
    sessions: &mut CodexSessions,
    acquired: &Acquired,
    transport: CodexTransport,
    cancelled: bool,
    started: bool,
    body: &Json,
    output: &AssistantOutput,
    model: &Model,
    properties: &Dict<String>,
) -> (r: Result<(), WebSocketRunError>)
    ensures
        ({
            let cached = transport == CodexTransport::Auto || transport
                == CodexTransport::WebsocketCached;
            let noted = if cached {
                exchange(body@, output@, model.provider_id@, dict::texts(properties@))
            } else {
                None
            };
            &&& final(sessions)@ == after_success(
                old(sessions)@,
                acquired_key(*acquired),
                cancelled,
                noted,
            )
            &&& match output::output_error(output@) {
                Some(e) => r is Err && r->Err_0@ == run_error(e, started),
                None => r is Ok,
            }
        }),
{
    if let Some((s, a, id)) = &acquired.entry {
        let ghost v = sessions@;
        let ghost k = (s@, a@);
        if cancelled {
            retire_entry(sessions, s.as_str(), a.as_str(), *id);
        } else {
            if uses_cached_context(transport) {
                let noted: Option<ContinuationState> = continuation_after(
                    body,
                    output,
                    model,
                    properties,
                );
                if noted.is_some() {
                    set_continuation(sessions, s.as_str(), a.as_str(), *id, noted);
                }
            }
            let _ = release_keep(sessions, s.as_str(), a.as_str(), *id);
            proof {
                if sessions::is_current(v, k, *id) {
                    let cached = transport == CodexTransport::Auto || transport
                        == CodexTransport::WebsocketCached;
                    let noted = if cached {
                        exchange(body@, output@, model.provider_id@, dict::texts(properties@))
                    } else {
                        None
                    };
                    assert(sessions@.entries =~= after_success(
                        v,
                        Some((k, *id)),
                        false,
                        noted,
                    ).entries);
                }
            }
        }
    }
    match assert_successful_output(output) {
        Ok(()) => Ok(()),
        Err(e) => Err(run_err(e, started)),
    }
}

/// Drops the connection of a request that failed.
pub fn fail_request(
    sessions: &mut CodexSessions,
    acquired: &Acquired,
    error: CodexStreamError,
    started: bool,
) -> (r: WebSocketRunError)
    ensures
        r@ == run_error(error@, started),
        final(sessions)@ == (match acquired_key(*acquired) {
            Some((k, id)) => if sessions::is_current(old(sessions)@, k, id) {
                SessionsView { entries: old(sessions)@.entries.remove(k), ..old(sessions)@ }
            } else {
                old(sessions)@
            },
            None => old(sessions)@,
        }),
{
    if let Some((s, a, id)) = &acquired.entry {
        retire_entry(sessions, s.as_str(), a.as_str(), *id);
    }
    run_err(error, started)
}

/// The id of a request: its session, cut to the length that the service takes, or
/// the fresh id given.
pub fn request_id(session: Option<&str>, fresh: String) -> (r: String)
    ensures
        r@ == (match session {
            Some(sid) => ids::clamped(sid@),
            None => fresh@,
        }),
{
    match session {
        Some(sid) => clamp_prompt_cache_key(sid),
        None => fresh,
    }
}

/// A connection that a failed request ran on is never used again, and neither is
/// its exchange.
pub proof fn law_failed_connection_is_gone(v: SessionsView, k: (Seq<char>, Seq<char>), id: u64)
    requires
        sessions::is_current(v, k, id),
    ensures
        !(SessionsView { entries: v.entries.remove(k), ..v }).entries.contains_key(k),
{
}

/// The frame of a request says everything that the request says, and that a response is asked
/// for.
pub proof fn law_frame_holds_the_request(body: JsonView, name: Seq<char>)
    requires
        body is Object,
    ensures
        body.get(name) is Some ==> request_frame(body).get(name) == body.get(name),
        body.get("type"@) is None ==> request_frame(body).field_text("type"@) == Some(
            "response.create"@,
        ),
        name != "type"@ && body.get(name) is None ==> request_frame(body).get(name) is None,
{
}

/// What comes as JSON text is handed on as it is, and reading ends behind an event that ends a
/// response and behind no other; what is no JSON, and a connection that breaks off, fails.
pub proof fn law_reads_are_handed_on(s: Seq<char>, event: JsonView, e: Seq<char>, ms: u64)
    ensures
        json_text::json_of_text(s) == Ok::<JsonView, Seq<char>>(event) ==> {
            let step = reader_step(SocketReadView::Text(s));
            let kind = event.field_text("type"@);
            &&& step is Forward
            &&& step->event == event
            &&& step->terminal == (kind == Some("response.done"@) || kind == Some(
                "response.completed"@,
            ) || kind == Some("response.incomplete"@))
        },
        json_text::json_of_text(s) is Err ==> {
            let step = reader_step(SocketReadView::Text(s));
            step is Fail && step->Fail_0.kind == CodexErrorKind::Protocol
        },
        reader_step(SocketReadView::Ended) is Fail,
        reader_step(SocketReadView::Closed) is Fail,
        reader_step(SocketReadView::SendFailed) is Fail,
        reader_step(SocketReadView::Aborted) is Fail,
        reader_step(SocketReadView::IdleFor(ms)) is Fail,
        reader_step(SocketReadView::Failed(e)) is Fail,
        reader_step(SocketReadView::Failed(e))->Fail_0.kind == CodexErrorKind::Other,
        text::ends(reader_step(SocketReadView::Failed(e))->Fail_0.message, e),
        reader_step(SocketReadView::Other) is Skip,
        reader_step(SocketReadView::Ended)->Fail_0.message
            == "WebSocket stream closed before response.completed"@,
        reader_step(SocketReadView::Closed) == reader_step(SocketReadView::Ended),
        reader_step(SocketReadView::SendFailed)->Fail_0.message == "WebSocket send failed"@,
        reader_step(SocketReadView::Aborted)->Fail_0.message == "Request was aborted"@,
        reader_step(SocketReadView::IdleFor(ms))->Fail_0.message == "WebSocket idle timeout after "@
            + text::decimal_text(ms as nat) + "ms"@,
{
    let m = "WebSocket error: "@ + e;
    assert(m.skip(m.len() - e.len()) =~= e);
}

/// The host of a websocket address stands between its scheme and its path.
pub proof fn law_authority_is_the_host(host: Seq<char>, path: Seq<char>)
    requires
        !host.contains('/'),
        host.len() > 0,
        !text::begins(host + seq!['/'] + path, "wss://"@),
        !text::begins(host + seq!['/'] + path, "ws://"@),
    ensures
        authority("wss://"@ + (host + seq!['/'] + path)) == host,
        authority("ws://"@ + (host + seq!['/'] + path)) == host,
{
    reveal_strlit("wss://");
    reveal_strlit("ws://");
    reveal_with_fuel(text::without_beginnings, 3);
    let rest = host + seq!['/'] + path;
    let a = "wss://"@ + rest;
    let b = "ws://"@ + rest;
    text::law_text_is_parted_at_the_first(host, '/', path);
    assert(a.take(6) =~= "wss://"@ && a.skip(6) =~= rest);
    assert(b.take(5) =~= "ws://"@ && b.skip(5) =~= rest);
    assert("wss://"@[2] == 's');
    assert("ws://"@[2] == ':');
    assert(b[2] == ':');
    assert(!text::begins(b, "wss://"@)) by {
        assert(b.len() >= 6 ==> b.take(6)[2] == b[2]);
    }
}

proof fn lemma_without_tool_outputs_add(a: Seq<JsonView>, b: Seq<JsonView>)
    ensures
        without_tool_outputs(a + b) == without_tool_outputs(a) + without_tool_outputs(b),
    decreases b.len(),
{
    if b.len() == 0 {
        assert(a + b =~= a);
    } else {
        lemma_without_tool_outputs_add(a, b.drop_last());
        assert((a + b).drop_last() =~= a + b.drop_last());
    }
    assert(without_tool_outputs(a + b) =~= without_tool_outputs(a) + without_tool_outputs(b));
}

/// Of items everything but the output of tools stays, in order.
pub proof fn law_tool_outputs_are_left_out(
    before: Seq<JsonView>,
    item: JsonView,
    behind: Seq<JsonView>,
)
    ensures
        ({
            let left = without_tool_outputs(before + seq![item] + behind);
            let kind = item.field_text("type"@);
            if kind == Some("function_call_output"@) || kind == Some("custom_tool_call_output"@) {
                left == without_tool_outputs(before) + without_tool_outputs(behind)
            } else {
                left == without_tool_outputs(before).push(item) + without_tool_outputs(behind)
            }
        }),
        without_tool_outputs(Seq::empty()).len() == 0,
{
    reveal_with_fuel(without_tool_outputs, 2);
    lemma_without_tool_outputs_add(before + seq![item], behind);
    lemma_without_tool_outputs_add(before, seq![item]);
    assert(seq![item].drop_last() =~= Seq::<JsonView>::empty());
    let (a, b) = (without_tool_outputs(before), without_tool_outputs(behind));
    let left = without_tool_outputs(before + seq![item] + behind);
    if is_tool_output(item) {
        assert(left =~= a + b);
    } else {
        assert(left =~= a.push(item) + b);
    }
}

/// A request that ran to its end leaves its exchange behind, by the id of its response; a response
/// without an id leaves none.
pub proof fn law_exchange_is_noted(
    body: JsonView,
    output: AssistantView,
    provider: Seq<char>,
    properties: Map<Seq<char>, Seq<char>>,
)
    ensures
        output.response_id is None ==> exchange(body, output, provider, properties) is None,
        output.response_id is Some ==> {
            let noted = exchange(body, output, provider, properties);
            let target = ReplayTarget {
                provider,
                allowed: request::is_codex_provider(provider),
                properties,
            };
            &&& noted is Some
            &&& noted->0.last_request_body == body
            &&& noted->0.last_response_id == output.response_id->0
            &&& noted->0.last_response_items == without_tool_outputs(
                replay::assistant_items(output.content, output.provider, 0, target),
            )
        },
{
    let target = ReplayTarget {
        provider,
        allowed: request::is_codex_provider(provider),
        properties,
    };
    let m = MessageView::Assistant(output);
    reveal_with_fuel(replay::messages_items, 2);
    assert(seq![m].drop_last() =~= Seq::<MessageView>::empty());
    let ctx = ContextView { messages: seq![m], ..types::empty_context() };
    assert(replay::input_items(ctx, false, target) =~= replay::assistant_items(
        output.content,
        output.provider,
        0,
        target,
    ));
}

/// The connection of a request that ran to its end is home again and can be used, with the
/// exchange that was noted; that of a request that was cancelled is gone. No other connection
/// changes.
pub proof fn law_connection_comes_home(
    v: SessionsView,
    k: (Seq<char>, Seq<char>),
    id: u64,
    stale: u64,
    noted: Option<ContinuationView>,
    other: (Seq<char>, Seq<char>),
)
    requires
        sessions::is_current(v, k, id),
        other != k,
    ensures
        ({
            let after = after_success(v, Some((k, id)), false, noted);
            let gone = after_success(v, Some((k, id)), true, noted);
            &&& after.entries.contains_key(k)
            &&& after.entries[k].socket_home
            &&& after.entries[k].id == id
            &&& after.entries[k].created_at_ms == v.entries[k].created_at_ms
            &&& noted is Some ==> after.entries[k].continuation == noted
            &&& noted is None ==> after.entries[k].continuation == v.entries[k].continuation
            &&& !gone.entries.contains_key(k)
            &&& after.entries.contains_key(other) == v.entries.contains_key(other)
            &&& gone.entries.contains_key(other) == v.entries.contains_key(other)
            &&& v.entries.contains_key(other) ==> after.entries[other] == v.entries[other]
                && gone.entries[other] == v.entries[other]
        }),
        after_success(v, None, false, noted) == v,
        stale != id ==> after_success(v, Some((k, stale)), false, noted) == v,
{
}

/// What goes out on a kept connection is the whole request, unless the conversation is kept on the
/// side of the service; then it is what the last exchange leaves to say.
pub proof fn law_prepared_request(
    v: SessionsView,
    k: (Seq<char>, Seq<char>),
    id: u64,
    body: JsonView,
)
    ensures
        prepared(v, None, true, body) == (v, body),
        prepared(v, Some((k, id)), false, body) == (v, body),
        !sessions::is_current(v, k, id) ==> prepared(v, Some((k, id)), true, body) == (v, body),
        sessions::is_current(v, k, id) ==> prepared(v, Some((k, id)), true, body).1
            == sessions::sent_body(body, v.entries[k].continuation),
        sessions::is_current(v, k, id) && v.entries[k].continuation is None ==> prepared(
            v,
            Some((k, id)),
            true,
            body,
        ) == (v, body),
{
}

/// A failure of a run keeps the message, the kind and the code of the failure behind it, and says
/// whether anything had come; one of the connection came before anything.
pub proof fn law_run_failure_keeps_the_failure(e: CodexErrorView, started: bool, m: Seq<char>)
    ensures
        run_error(e, started).message == e.message,
        run_error(e, started).kind == e.kind,
        run_error(e, started).code == e.code,
        run_error(e, started).started == started,
        transport_error(m).message == m,
        !transport_error(m).started,
        transport_error(m).code is None,
        transport_error(m).kind == CodexErrorKind::Other,
{
}

} // verus!
