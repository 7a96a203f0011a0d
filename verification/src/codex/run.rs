//! The course of a request: websocket first, then server-sent events.
use vstd::prelude::*;
use crate::codex::errors::CodexErrorKind;
use crate::codex::ids;
use crate::codex::options::{CodexStreamOptions, CodexTransport};
use crate::codex::output::AssistantOutput;
use crate::codex::sessions;
use crate::codex::sessions::{
    is_sse_fallback_active, record_sse_fallback, record_websocket_failure, CodexSessions,
    SessionsView, StatsView,
};
use crate::codex::token;
use crate::codex::token::extract_account_id;
use crate::codex::urls::clamp_prompt_cache_key;
use crate::codex::websocket;
use crate::codex::websocket::{RunErrorView, WebSocketRunError};
use crate::text::{concat, same_text};
use crate::types::{
    AssistantMessageEvent, AssistantView, CacheRetention, EventView, Message, MessageView,
};
use crate::views;

verus! {

/// The session under which a request is cached: none where caching is off.
pub open spec fn codex_session_id(retention: CacheRetention, session_id: Option<Seq<char>>) -> Option<
    Seq<char>,
> {
    match retention {
        CacheRetention::Off => None,
        _ => match session_id {
            Some(s) => Some(ids::clamped(s)),
            None => None,
        },
    }
}

/// The session under which a request is cached.
pub fn resolve_codex_session_id(opts: &CodexStreamOptions) -> (r: Option<String>)
    ensures
        views::opt(r) == codex_session_id(opts.cache_retention, views::opt(opts.session_id)),
{
    match opts.cache_retention {
        CacheRetention::Off => None,
        _ => match &opts.session_id {
            Some(s) => Some(clamp_prompt_cache_key(s.as_str())),
            None => None,
        },
    }
}

/// The account that a request is made for, or why it cannot be made.
pub open spec fn request_account(api_key: Seq<char>, provider: Seq<char>) -> Result<
    Seq<char>,
    Seq<char>,
> {
    if api_key.len() == 0 {
        Err("No API key for provider: "@ + provider)
    } else {
        token::token_account_id(api_key)
    }
}

/// The account that a request is made for.
pub fn resolve_request_account(api_key: &str, provider: &str) -> (r: Result<String, String>)
    ensures
        match r {
            Ok(id) => request_account(api_key@, provider@) == Ok::<Seq<char>, Seq<char>>(id@),
            Err(e) => request_account(api_key@, provider@) == Err::<Seq<char>, Seq<char>>(e@),
        },
{
    if api_key.is_empty() {
        return Err(concat("No API key for provider: ", provider));
    }
    extract_account_id(api_key)
}

/// The first way that a request goes.
#[derive(Debug, Clone, Copy, PartialEq, Eq, Structural)]
pub enum FirstTransport {
    Websocket,
    Sse,
}

/// Decides the first way that a request goes. A session for which websockets were
/// given up goes by server-sent events, and that is counted.
pub fn choose_transport(
    sessions: &mut CodexSessions,
    transport: CodexTransport,
    session: Option<&str>,
) -> (r: FirstTransport)
    ensures
        ({
            let v = old(sessions)@;
            let given_up = session is Some && v.fallbacks.contains(session->0@);
            if transport == CodexTransport::Sse {
                r == FirstTransport::Sse && final(sessions)@ == v
            } else if given_up {
                let s = sessions::stats_of(v, session->0@);
                r == FirstTransport::Sse && final(sessions)@ == sessions::with_stats(
                    v,
                    session->0@,
                    StatsView {
                        sse_fallbacks: sessions::counted(s.sse_fallbacks),
                        websocket_fallback_active: Some(true),
                        ..s
                    },
                )
            } else {
                r == FirstTransport::Websocket && final(sessions)@ == v
            }
        }),
{
    if transport == CodexTransport::Sse {
        return FirstTransport::Sse;
    }
    if is_sse_fallback_active(sessions, session) {
        record_sse_fallback(sessions, session);
        return FirstTransport::Sse;
    }
    FirstTransport::Websocket
}

/// Which of the two second tries were used up.
#[derive(Debug, Clone, Copy, PartialEq, Eq, Structural)]
pub struct LadderState {
    pub retried_connection_limit: bool,
    pub retried_missing_continuation: bool,
}

/// What to do after a websocket request failed.
#[derive(Debug, Clone, Copy, PartialEq, Eq, Structural)]
pub enum LadderAction {
    /// Try the websocket once more.
    Retry,
    /// Return the failure.
    Fail,
    /// Give websockets up for the session, and return the failure.
    FailAndGiveUp,
    /// Give websockets up for the session, and go by server-sent events.
    FallBack,
}

/// The ladder behind a failure: a response that the service does not hold any more
/// is tried once more, and so is a connection limit before anything came; what was
/// cancelled, reported by the service or malformed on the wire fails; what failed
/// after the stream was opened fails too; anything else falls back.
pub open spec fn ladder(st: LadderState, e: RunErrorView, aborted: bool) -> (
    LadderState,
    LadderAction,
) {
    let limit = !e.started && e.code == Some(websocket::WEBSOCKET_CONNECTION_LIMIT_REACHED@);
    let missing = e.code == Some(websocket::PREVIOUS_RESPONSE_NOT_FOUND@);
    if !aborted && missing && !st.retried_missing_continuation {
        (LadderState { retried_missing_continuation: true, ..st }, LadderAction::Retry)
    } else if !aborted && limit && !st.retried_connection_limit {
        (LadderState { retried_connection_limit: true, ..st }, LadderAction::Retry)
    } else if aborted || (e.kind != CodexErrorKind::Other && !limit) {
        (st, LadderAction::Fail)
    } else if e.started {
        (st, LadderAction::FailAndGiveUp)
    } else {
        (st, LadderAction::FallBack)
    }
}

/// The sessions behind that action.
pub open spec fn after_ladder(
    v: SessionsView,
    session: Option<Seq<char>>,
    message: Seq<char>,
    action: LadderAction,
) -> SessionsView {
    match session {
        None => v,
        Some(sid) => {
            let s = sessions::stats_of(v, sid);
            let failed = StatsView {
                websocket_failures: sessions::counted(s.websocket_failures),
                last_websocket_error: Some(message),
                websocket_fallback_active: Some(true),
                ..s
            };
            let given_up = SessionsView { fallbacks: v.fallbacks.insert(sid), ..v };
            match action {
                LadderAction::Retry => v,
                LadderAction::Fail => v,
                LadderAction::FailAndGiveUp => sessions::with_stats(given_up, sid, failed),
                LadderAction::FallBack => sessions::with_stats(
                    given_up,
                    sid,
                    StatsView { sse_fallbacks: sessions::counted(failed.sse_fallbacks), ..failed },
                ),
            }
        },
    }
}

impl LadderState {
    /// Nothing was tried yet.
    pub fn new() -> (r: LadderState)
        ensures
            r == (LadderState {
                retried_connection_limit: false,
                retried_missing_continuation: false,
            }),
    {
        LadderState { retried_connection_limit: false, retried_missing_continuation: false }
    }
}

/// Decides after a websocket request failed, and takes note of it.
pub fn after_websocket_error(
    sessions: &mut CodexSessions,
    st: LadderState,
    session: Option<&str>,
    error: &WebSocketRunError,
    aborted: bool,
) -> (r: (LadderState, LadderAction))
    ensures
        r == ladder(st, error@, aborted),
        final(sessions)@ == after_ladder(
            old(sessions)@,
            views::opt(session),
            error.message@,
            ladder(st, error@, aborted).1,
        ),
{
    let limit: bool = match &error.code {
        Some(c) => !error.started && same_text(
            c.as_str(),
            websocket::WEBSOCKET_CONNECTION_LIMIT_REACHED,
        ),
        None => false,
    };
    let missing: bool = match &error.code {
        Some(c) => same_text(c.as_str(), websocket::PREVIOUS_RESPONSE_NOT_FOUND),
        None => false,
    };
    if !aborted && missing && !st.retried_missing_continuation {
        return (
            LadderState {
                retried_connection_limit: st.retried_connection_limit,
                retried_missing_continuation: true,
            },
            LadderAction::Retry,
        );
    }
    if !aborted && limit && !st.retried_connection_limit {
        return (
            LadderState {
                retried_connection_limit: true,
                retried_missing_continuation: st.retried_missing_continuation,
            },
            LadderAction::Retry,
        );
    }
    if aborted || (error.kind != CodexErrorKind::Other && !limit) {
        return (st, LadderAction::Fail);
    }
    let ghost v = sessions@;
    record_websocket_failure(sessions, session, error.message.as_str());
    if error.started {
        return (st, LadderAction::FailAndGiveUp);
    }
    record_sse_fallback(sessions, session);
    proof {
        if let Some(sid) = session {
            let want = after_ladder(v, Some(sid@), error.message@, LadderAction::FallBack);
            assert(sessions@.stats =~= want.stats);
        }
    }
    (st, LadderAction::FallBack)
}

/// How many second tries are left.
pub open spec fn tries_left(st: LadderState) -> nat {
    (if st.retried_connection_limit {
        0nat
    } else {
        1nat
    }) + (if st.retried_missing_continuation {
        0nat
    } else {
        1nat
    })
}

/// Every second try uses one up, so that a request goes over the websocket three
/// times at most.
pub proof fn law_ladder_ends(st: LadderState, e: RunErrorView, aborted: bool)
    ensures
        ladder(st, e, aborted).1 == LadderAction::Retry ==> tries_left(ladder(st, e, aborted).0)
            + 1 == tries_left(st),
        tries_left(st) <= 2,
{
}

/// A failure behind the point where the stream was opened, unless it says that the
/// service lost the response to continue, is never hidden by another try.
pub proof fn law_no_retry_once_started(st: LadderState, e: RunErrorView, aborted: bool)
    requires
        e.started,
        e.code != Some(websocket::PREVIOUS_RESPONSE_NOT_FOUND@),
    ensures
        ladder(st, e, aborted).1 == LadderAction::Fail || ladder(st, e, aborted).1
            == LadderAction::FailAndGiveUp,
{
}

/// What was cancelled is neither tried again nor sent another way.
pub proof fn law_aborted_request_fails(st: LadderState, e: RunErrorView)
    ensures
        ladder(st, e, true) == (st, LadderAction::Fail),
{
}

/// What the service reported, but for its connection limit, and what was malformed
/// on the wire never falls back.
pub proof fn law_reported_failure_never_falls_back(
    st: LadderState,
    e: RunErrorView,
    aborted: bool,
)
    requires
        e.kind != CodexErrorKind::Other,
        e.code != Some(websocket::WEBSOCKET_CONNECTION_LIMIT_REACHED@),
    ensures
        ladder(st, e, aborted).1 == LadderAction::Retry || ladder(st, e, aborted).1
            == LadderAction::Fail,
{
}

/// A session whose websocket failed goes by server-sent events from then on, until
/// it is reset.
pub proof fn law_failed_session_falls_back(
    v: SessionsView,
    session: Seq<char>,
    message: Seq<char>,
    action: LadderAction,
)
    requires
        action == LadderAction::FailAndGiveUp || action == LadderAction::FallBack,
    ensures
        after_ladder(v, Some(session), message, action).fallbacks.contains(session),
        !(SessionsView {
            fallbacks: v.fallbacks.remove(session),
            ..v
        }).fallbacks.contains(session),
{
}

/// The last event of a stream, and the message behind it.
pub struct StreamEnd {
    pub event: AssistantMessageEvent,
    /// The message that the stream ends with, where it failed.
    pub result: Option<Message>,
}

/// The last event of a stream that ran to its end.
pub fn finish_stream(output: AssistantOutput) -> (r: StreamEnd)
    ensures
        r.event@ == (EventView::Done {
            reason: views::or(output@.stop_reason, "stop"@),
            message: MessageView::Assistant(output@),
        }),
        r.result is None,
{
    let reason: String = match &output.stop_reason {
        Some(s) => s.clone(),
        None => "stop".to_owned(),
    };
    let message: Message = output.to_message();
    StreamEnd { event: AssistantMessageEvent::Done { reason, message }, result: None }
}

/// The last event of a stream that failed, and the message that says so.
pub fn fail_stream(output: AssistantOutput, error: String, aborted: bool) -> (r: StreamEnd)
    ensures
        ({
            let reason = if aborted {
                "aborted"@
            } else {
                "error"@
            };
            let said = if aborted {
                "Request was aborted"@
            } else {
                error@
            };
            &&& r.event@ == (EventView::Error { reason, error: said })
            &&& r.result is Some
            &&& r.result->0@ == MessageView::Assistant(
                AssistantView {
                    stop_reason: Some(reason),
                    error_message: Some(said),
                    ..output@
                },
            )
        }),
{
    let reason: String = if aborted {
        "aborted".to_owned()
    } else {
        "error".to_owned()
    };
    let said: String = if aborted {
        "Request was aborted".to_owned()
    } else {
        error
    };
    let mut out: AssistantOutput = output;
    out.stop_reason = Some(reason.clone());
    out.error_message = Some(said.clone());
    let message: Message = out.to_message();
    StreamEnd {
        event: AssistantMessageEvent::Error { reason, error: said },
        result: Some(message),
    }
}

/// A request without caching has no session, and one with caching has its own, as far as the
/// service takes it.
pub proof fn law_session_is_kept(retention: CacheRetention, session: Seq<char>)
    ensures
        codex_session_id(CacheRetention::Off, Some(session)) is None,
        codex_session_id(retention, None) is None,
        retention != CacheRetention::Off && session.len() <= 64 ==> codex_session_id(
            retention,
            Some(session),
        ) == Some(session),
        retention != CacheRetention::Off && session.len() > 64 ==> codex_session_id(
            retention,
            Some(session),
        ) == Some(session.take(64)),
{
}

/// A request without a key is refused, and one with a key is made for the account of the key.
pub proof fn law_request_needs_a_key(api_key: Seq<char>, provider: Seq<char>)
    ensures
        request_account(Seq::empty(), provider) is Err,
        crate::text::ends(request_account(Seq::empty(), provider)->Err_0, provider),
        api_key.len() > 0 ==> request_account(api_key, provider) == token::token_account_id(
            api_key,
        ),
{
    let m = "No API key for provider: "@ + provider;
    assert(m.skip(m.len() - provider.len()) =~= provider);
}

/// The first time that the service does not know the response to go on from, or has too many
/// connections before anything came, the websocket is tried once more, and the second time it
/// is not; a connection that fails before anything came goes by server-sent events.
pub proof fn law_ladder_goes_down(st: LadderState, e: RunErrorView)
    ensures
        e.code == Some("previous_response_not_found"@) && !st.retried_missing_continuation ==> {
            let (next, action) = ladder(st, e, false);
            &&& action == LadderAction::Retry
            &&& next.retried_missing_continuation
            &&& next.retried_connection_limit == st.retried_connection_limit
            &&& ladder(
                LadderState { retried_connection_limit: true, ..next },
                e,
                false,
            ).1 != LadderAction::Retry
        },
        e.code == Some("websocket_connection_limit_reached"@) && !e.started
            && !st.retried_connection_limit ==> {
            let (next, action) = ladder(st, e, false);
            &&& action == LadderAction::Retry
            &&& next.retried_connection_limit
        },
        e.code == Some("websocket_connection_limit_reached"@) && !e.started
            && st.retried_connection_limit ==> ladder(st, e, false).1 == LadderAction::FallBack,
        e.kind == CodexErrorKind::Other && e.code is None && !e.started ==> ladder(
            st,
            e,
            false,
        ).1 == LadderAction::FallBack,
        e.kind == CodexErrorKind::Other && e.code is None && e.started ==> ladder(
            st,
            e,
            false,
        ).1 == LadderAction::FailAndGiveUp,
        e.kind != CodexErrorKind::Other && e.code is None ==> ladder(st, e, false).1
            == LadderAction::Fail,
{
    reveal_strlit("previous_response_not_found");
    reveal_strlit("websocket_connection_limit_reached");
    assert("previous_response_not_found"@.len() != "websocket_connection_limit_reached"@.len());
}

/// Giving websockets up for a session is counted and remembered with what went wrong, for that
/// session and no other.
pub proof fn law_giving_up_is_counted(
    v: SessionsView,
    session: Seq<char>,
    message: Seq<char>,
    other: Seq<char>,
)
    requires
        other != session,
        v.stats.contains_key(session),
        v.stats[session].websocket_failures < u64::MAX,
        v.stats[session].sse_fallbacks < u64::MAX,
    ensures
        ({
            let fell = after_ladder(v, Some(session), message, LadderAction::FallBack);
            let failed = after_ladder(v, Some(session), message, LadderAction::FailAndGiveUp);
            let (was, a, b) = (v.stats[session], fell.stats[session], failed.stats[session]);
            &&& a.websocket_failures == was.websocket_failures + 1
            &&& b.websocket_failures == was.websocket_failures + 1
            &&& a.sse_fallbacks == was.sse_fallbacks + 1
            &&& b.sse_fallbacks == was.sse_fallbacks
            &&& a.last_websocket_error == Some(message)
            &&& b.last_websocket_error == Some(message)
            &&& fell.fallbacks.contains(other) == v.fallbacks.contains(other)
            &&& fell.stats.contains_key(other) == v.stats.contains_key(other)
            &&& v.stats.contains_key(other) ==> fell.stats[other] == v.stats[other]
        }),
        after_ladder(v, Some(session), message, LadderAction::Retry) == v,
        after_ladder(v, Some(session), message, LadderAction::Fail) == v,
{
}

/// A stream that ran to its end gives its message as it stands, and the reason that is told is
/// the one in the message.
pub proof fn law_finished_stream_gives_its_message(output: AssistantOutput, r: StreamEnd)
    requires
        call_ensures(finish_stream, (output,), r),
    ensures
        r.event@ is Done,
        r.event@->Done_message == MessageView::Assistant(output@),
        output@.stop_reason is Some ==> r.event@->Done_reason == output@.stop_reason->0,
        r.result is None,
{
}

/// A stream that failed keeps what came before and says what went wrong, and one that was
/// cancelled says that.
pub proof fn law_failed_stream_keeps_what_came(
    output: AssistantOutput,
    error: String,
    aborted: bool,
    r: StreamEnd,
)
    requires
        call_ensures(fail_stream, (output, error, aborted), r),
    ensures
        r.event@ is Error,
        r.result is Some,
        r.result->0@ is Assistant,
        ({
            let m = r.result->0@->Assistant_0;
            &&& m.content == output@.content
            &&& m.usage == output@.usage
            &&& m.model == output@.model
            &&& m.provider == output@.provider
            &&& m.api == output@.api
            &&& m.stop_reason == Some(r.event@->Error_reason)
            &&& m.error_message == Some(r.event@->Error_error)
            &&& !aborted ==> r.event@->Error_error == error@ && r.event@->Error_reason
                == "error"@
            &&& aborted ==> r.event@->Error_reason == "aborted"@
        }),
{
}

} // verus!
