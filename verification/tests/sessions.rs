//! Kept connections, the ways of a request that failed, and its end.
use otter_ai::codex::errors::{CodexErrorKind, CodexStreamError};
use otter_ai::codex::options::{CodexStreamOptions, CodexTransport};
use otter_ai::codex::output::AssistantOutput;
use otter_ai::codex::run::{
    after_websocket_error, choose_transport, fail_stream, finish_stream, resolve_codex_session_id,
    resolve_request_account, FirstTransport, LadderAction, LadderState,
};
use otter_ai::codex::sessions::{
    acquire, build_cached_request_body, close_codex_ws_sessions, get_cached_input_delta,
    get_codex_ws_debug_stats, is_sse_fallback_active, record_request, record_sse_fallback,
    record_websocket_failure, register, release_keep, request_bodies_match_except_input,
    reset_codex_ws_debug_stats, retire_entry, set_continuation, CacheDecision, CodexSessions,
    ContinuationState,
};
use otter_ai::codex::websocket::{
    fail_request, finish_request, frame_text, prepare_request, read_step, request_id,
    sec_websocket_key, transport_err, url_authority, Acquired, ReaderStep, SocketRead,
    WebSocketRunError,
};
use otter_ai::dict::Dict;
use otter_ai::json::Json;
use otter_ai::json_text::{parse_json, print_json};
use otter_ai::providers::listing::new_chat_model;
use otter_ai::types::{AssistantMessageEvent, CacheRetention, Model};

fn json(text: &str) -> Json {
    parse_json(text).ok().unwrap()
}

fn model() -> Model {
    new_chat_model("chatgpt-plus", "openai-codex-responses", "gpt-5", "GPT-5", 1000, 100, 1000)
}

fn error(code: Option<&str>, started: bool, kind: CodexErrorKind) -> WebSocketRunError {
    WebSocketRunError { message: "m".into(), started, kind, code: code.map(|c| c.into()) }
}

#[test]
fn connection_is_kept_and_used_again() {
    let mut s = CodexSessions::new();
    assert_eq!(acquire(&mut s, None, "a", 0, None), CacheDecision::OneShot);
    assert_eq!(acquire(&mut s, Some("x"), "a", 0, None), CacheDecision::Fresh);
    register(&mut s, "x", "a", 1, 0);
    assert_eq!(acquire(&mut s, Some("x"), "a", 5, None), CacheDecision::OneShot);
    assert!(release_keep(&mut s, "x", "a", 1));
    assert_eq!(acquire(&mut s, Some("x"), "a", 5, None), CacheDecision::Reuse(1));
    assert!(release_keep(&mut s, "x", "a", 1));
    assert_eq!(acquire(&mut s, Some("x"), "other", 5, None), CacheDecision::Fresh);
    assert_eq!(acquire(&mut s, Some("x"), "a", 1000, Some(1000)), CacheDecision::Fresh);
    assert!(!release_keep(&mut s, "x", "a", 1));
}

#[test]
fn retired_connection_is_gone() {
    let mut s = CodexSessions::new();
    register(&mut s, "x", "a", 1, 0);
    retire_entry(&mut s, "x", "a", 2);
    assert!(release_keep(&mut s, "x", "a", 1));
    retire_entry(&mut s, "x", "a", 1);
    assert!(!release_keep(&mut s, "x", "a", 1));
    register(&mut s, "x", "a", 3, 0);
    register(&mut s, "y", "a", 4, 0);
    close_codex_ws_sessions(&mut s, Some("x"));
    assert!(!release_keep(&mut s, "x", "a", 3));
    assert!(release_keep(&mut s, "y", "a", 4));
    close_codex_ws_sessions(&mut s, None);
    assert!(!release_keep(&mut s, "y", "a", 4));
}

#[test]
fn only_new_input_is_sent_on() {
    let cont = ContinuationState {
        last_request_body: json("{\"model\":\"m\",\"input\":[1]}"),
        last_response_id: "r1".into(),
        last_response_items: vec![json("2")],
    };
    let next = json("{\"model\":\"m\",\"input\":[1,2,3]}");
    let delta = get_cached_input_delta(&next, &cont).unwrap();
    assert_eq!(print_json(&Json::array(delta)), "[3]");
    assert!(get_cached_input_delta(&json("{\"model\":\"n\",\"input\":[1,2,3]}"), &cont).is_none());
    assert!(get_cached_input_delta(&json("{\"model\":\"m\",\"input\":[1,4,3]}"), &cont).is_none());
    assert!(request_bodies_match_except_input(
        &json("{\"a\":1,\"input\":[],\"previous_response_id\":\"x\"}"),
        &json("{\"a\":1,\"input\":[5]}")
    ));
    let zero = ContinuationState {
        last_request_body: json("{\"t\":-0.0,\"input\":[0.0]}"),
        last_response_id: "r0".into(),
        last_response_items: vec![],
    };
    let again = json("{\"t\":0.0,\"input\":[-0.0,4]}");
    let delta = get_cached_input_delta(&again, &zero).unwrap();
    assert_eq!(print_json(&Json::array(delta)), "[4]");
    let mut s = CodexSessions::new();
    register(&mut s, "x", "a", 1, 0);
    set_continuation(&mut s, "x", "a", 1, Some(cont));
    assert_eq!(
        print_json(&build_cached_request_body(&mut s, "x", "a", 1, &next)),
        "{\"input\":[3],\"model\":\"m\",\"previous_response_id\":\"r1\"}"
    );
    let other = json("{\"model\":\"n\",\"input\":[1]}");
    assert_eq!(print_json(&build_cached_request_body(&mut s, "x", "a", 1, &other)), print_json(&other));
    assert_eq!(print_json(&build_cached_request_body(&mut s, "x", "a", 1, &next)), print_json(&next));
}

#[test]
fn requests_are_counted() {
    let mut s = CodexSessions::new();
    assert!(get_codex_ws_debug_stats(&s, "x").is_none());
    record_request(&mut s, Some("x"), &json("{\"input\":[1,2],\"store\":true}"), false, true);
    record_request(&mut s, Some("x"), &json("{\"input\":[1],\"previous_response_id\":\"p\"}"), true, false);
    let st = get_codex_ws_debug_stats(&s, "x").unwrap();
    assert_eq!(st.requests, 2);
    assert_eq!(st.connections_created, 1);
    assert_eq!(st.connections_reused, 1);
    assert_eq!(st.cached_context_requests, 1);
    assert_eq!(st.store_true_requests, 1);
    assert_eq!(st.full_context_requests, 1);
    assert_eq!(st.delta_requests, 1);
    assert_eq!(st.last_input_items, 1);
    assert_eq!(st.last_delta_input_items, Some(1));
    assert_eq!(st.last_previous_response_id.as_deref(), Some("p"));
    reset_codex_ws_debug_stats(&mut s, Some("x"));
    assert!(get_codex_ws_debug_stats(&s, "x").is_none());
}

#[test]
fn failed_session_stays_with_server_sent_events() {
    let mut s = CodexSessions::new();
    assert_eq!(choose_transport(&mut s, CodexTransport::Auto, Some("x")), FirstTransport::Websocket);
    record_websocket_failure(&mut s, Some("x"), "broken");
    assert!(is_sse_fallback_active(&s, Some("x")));
    assert!(!is_sse_fallback_active(&s, Some("y")));
    assert_eq!(choose_transport(&mut s, CodexTransport::Auto, Some("x")), FirstTransport::Sse);
    record_sse_fallback(&mut s, Some("x"));
    let st = get_codex_ws_debug_stats(&s, "x").unwrap();
    assert_eq!(st.websocket_failures, 1);
    assert_eq!(st.last_websocket_error.as_deref(), Some("broken"));
    assert_eq!(st.websocket_fallback_active, Some(true));
    assert_eq!(choose_transport(&mut s, CodexTransport::Sse, Some("y")), FirstTransport::Sse);
}

#[test]
fn failures_go_down_the_ladder() {
    let mut s = CodexSessions::new();
    let start = LadderState::new();
    let missing = error(Some("previous_response_not_found"), false, CodexErrorKind::Api);
    let (st, a) = after_websocket_error(&mut s, start, Some("x"), &missing, false);
    assert_eq!(a, LadderAction::Retry);
    let (_, a) = after_websocket_error(&mut s, st, Some("x"), &missing, false);
    assert_eq!(a, LadderAction::Fail);
    let limit = error(Some("websocket_connection_limit_reached"), false, CodexErrorKind::Api);
    let (st, a) = after_websocket_error(&mut s, start, Some("x"), &limit, false);
    assert_eq!(a, LadderAction::Retry);
    let (_, a) = after_websocket_error(&mut s, st, Some("x"), &limit, false);
    assert_eq!(a, LadderAction::FallBack);
    let (_, a) = after_websocket_error(&mut s, start, Some("x"), &transport_err("t".into()), true);
    assert_eq!(a, LadderAction::Fail);
    let started = error(None, true, CodexErrorKind::Other);
    let (_, a) = after_websocket_error(&mut s, start, Some("z"), &started, false);
    assert_eq!(a, LadderAction::FailAndGiveUp);
    assert!(is_sse_fallback_active(&s, Some("z")));
}

#[test]
fn reads_of_a_socket_are_told_apart() {
    match read_step(SocketRead::Text("{\"type\":\"response.completed\"}".into())) {
        ReaderStep::Forward { terminal, .. } => assert!(terminal),
        _ => panic!("expected an event"),
    }
    match read_step(SocketRead::Text("{\"type\":\"x\"}".into())) {
        ReaderStep::Forward { terminal, .. } => assert!(!terminal),
        _ => panic!("expected an event"),
    }
    match read_step(SocketRead::Text("{".into())) {
        ReaderStep::Fail(e) => {
            assert!(e.message.starts_with("Invalid Codex WebSocket JSON: "));
            assert_eq!(e.kind, CodexErrorKind::Protocol);
        }
        _ => panic!("expected a failure"),
    }
    assert!(matches!(read_step(SocketRead::Other), ReaderStep::Skip));
    for read in [SocketRead::Ended, SocketRead::Closed] {
        match read_step(read) {
            ReaderStep::Fail(e) => assert_eq!(e.message, "WebSocket stream closed before response.completed"),
            _ => panic!("expected a failure"),
        }
    }
    match read_step(SocketRead::Failed("x".into())) {
        ReaderStep::Fail(e) => assert_eq!(e.message, "WebSocket error: x"),
        _ => panic!("expected a failure"),
    }
}

#[test]
fn frames_and_keys() {
    assert_eq!(frame_text(&json("{\"model\":\"m\"}")), "{\"model\":\"m\",\"type\":\"response.create\"}");
    assert_eq!(url_authority("wss://h:1/p/q"), "h:1");
    assert_eq!(url_authority("ws://h"), "h");
    assert_eq!(url_authority("wss://wss://x/y"), "x");
    assert_eq!(url_authority("wss://ws://ws://x/y"), "x");
    assert_eq!(url_authority("ws://wss://x/y"), "wss:");
    assert_eq!(sec_websocket_key(b"0123456789abcdef"), "MDEyMzQ1Njc4OWFiY2RlZg==");
    assert_eq!(request_id(Some("s"), "f".into()), "s");
    assert_eq!(request_id(None, "f".into()), "f");
}

#[test]
fn request_over_a_kept_connection_is_noted() {
    let mut s = CodexSessions::new();
    register(&mut s, "x", "a", 1, 0);
    let held = Acquired { entry: Some(("x".into(), "a".into(), 1)), reused: false };
    let body = json("{\"input\":[{\"role\":\"user\"}],\"model\":\"m\"}");
    let sent = prepare_request(&mut s, Some("x"), &held, CodexTransport::WebsocketCached, &body);
    assert_eq!(sent, "{\"input\":[{\"role\":\"user\"}],\"model\":\"m\",\"type\":\"response.create\"}");
    let mut out = AssistantOutput::pending(&model(), 0);
    out.response_id = Some("r1".into());
    out.stop_reason = Some("stop".into());
    let r = finish_request(
        &mut s, &held, CodexTransport::WebsocketCached, false, true, &body, &out, &model(), &Dict::new(),
    );
    assert!(r.is_ok());
    assert_eq!(acquire(&mut s, Some("x"), "a", 1, None), CacheDecision::Reuse(1));
    let next = json("{\"input\":[{\"role\":\"user\"},{\"role\":\"user\",\"n\":2}],\"model\":\"m\"}");
    let sent = prepare_request(&mut s, Some("x"), &held, CodexTransport::WebsocketCached, &next);
    assert_eq!(
        sent,
        "{\"input\":[{\"n\":2,\"role\":\"user\"}],\"model\":\"m\",\"previous_response_id\":\"r1\",\"type\":\"response.create\"}"
    );
    let e = fail_request(&mut s, &held, CodexStreamError::api("bad".into(), None), false);
    assert_eq!(e.message, "bad");
    assert_eq!(acquire(&mut s, Some("x"), "a", 1, None), CacheDecision::Fresh);
}

#[test]
fn streams_end_with_their_message() {
    let mut out = AssistantOutput::pending(&model(), 3);
    out.stop_reason = Some("stop".into());
    let end = finish_stream(out);
    match end.event {
        AssistantMessageEvent::Done { reason, .. } => assert_eq!(reason, "stop"),
        _ => panic!("expected the end"),
    }
    let out = AssistantOutput::pending(&model(), 3);
    let end = fail_stream(out, "boom".into(), false);
    match end.event {
        AssistantMessageEvent::Error { reason, error } => {
            assert_eq!(reason, "error");
            assert_eq!(error, "boom");
        }
        _ => panic!("expected a failure"),
    }
    let end = fail_stream(AssistantOutput::pending(&model(), 3), "boom".into(), true);
    match end.event {
        AssistantMessageEvent::Error { reason, .. } => assert_eq!(reason, "aborted"),
        _ => panic!("expected a failure"),
    }
}

#[test]
fn sessions_and_accounts_of_requests() {
    let mut opts = CodexStreamOptions::default();
    opts.session_id = Some("s".repeat(80));
    opts.cache_retention = CacheRetention::Short;
    assert_eq!(resolve_codex_session_id(&opts).unwrap().len(), 64);
    opts.cache_retention = CacheRetention::Off;
    assert!(resolve_codex_session_id(&opts).is_none());
    assert_eq!(resolve_request_account("", "p"), Err("No API key for provider: p".to_string()));
}
