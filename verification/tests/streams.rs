//! Streams of events, repetition, and costs.
use otter_ai::cost::{calculate_cost, resolve_codex_service_tier, service_tier_cost_multiplier};
use otter_ai::event_stream::{create_assistant_message_event_stream, EventStream, NextEvent};
use otter_ai::providers::listing::{add_tier, cache_prices, new_chat_model};
use otter_ai::retry::{AfterFailure, RetryConfig, RetryState};
use otter_ai::types::{AssistantMessageEvent, CostScale, Message, Usage};

#[test]
fn stream_gives_events_in_order_and_closes() {
    let mut s = create_assistant_message_event_stream();
    assert!(matches!(s.poll_next(), NextEvent::Pending));
    s.push(AssistantMessageEvent::TextStart, 0);
    let m = Message::assistant_default("a".into(), "p".into(), 5);
    s.push(AssistantMessageEvent::Done { reason: "stop".into(), message: m }, 0);
    s.push(AssistantMessageEvent::TextEnd, 0);
    assert!(matches!(s.poll_next(), NextEvent::Ready(AssistantMessageEvent::TextStart)));
    assert!(matches!(s.poll_next(), NextEvent::Ready(AssistantMessageEvent::Done { .. })));
    assert!(matches!(s.poll_next(), NextEvent::Finished));
    assert!(matches!(s.result(), Some(Message::Assistant { timestamp: 5, .. })));
}

#[test]
fn error_ends_a_stream_with_a_message() {
    let mut s = create_assistant_message_event_stream();
    s.push(AssistantMessageEvent::Error { reason: "aborted".into(), error: "e".into() }, 9);
    match s.result() {
        Some(Message::Assistant { stop_reason, error_message, api, timestamp, .. }) => {
            assert_eq!(stop_reason.as_deref(), Some("aborted"));
            assert_eq!(error_message.as_deref(), Some("e"));
            assert_eq!(api, "unknown");
            assert_eq!(*timestamp, 9);
        }
        _ => panic!("expected a message"),
    }
    let mut t = create_assistant_message_event_stream();
    t.end(None);
    assert!(t.result().is_none());
    assert!(matches!(t.poll_next(), NextEvent::Finished));
}

#[test]
fn stream_of_other_events_closes_with_what_comes_out() {
    let mut s: EventStream<String, String> = EventStream::new();
    s.push_with("a".into(), None);
    assert!(s.result().is_none());
    s.push_with("b".into(), Some("end".into()));
    s.push_with("c".into(), Some("late".into()));
    assert!(matches!(s.poll_next(), NextEvent::Ready(e) if e == "a"));
    assert!(matches!(s.poll_next(), NextEvent::Ready(e) if e == "b"));
    assert!(matches!(s.poll_next(), NextEvent::Finished));
    assert_eq!(s.result().map(|r| r.as_str()), Some("end"));
    let mut t: EventStream<String, String> = EventStream::new();
    t.push_with("a".into(), None);
    t.end(Some("given".into()));
    assert!(matches!(t.poll_next(), NextEvent::Ready(e) if e == "a"));
    assert!(matches!(t.poll_next(), NextEvent::Finished));
    assert_eq!(t.result().map(|r| r.as_str()), Some("given"));
}

#[test]
fn tries_are_bounded() {
    let config = RetryConfig::default();
    let st = RetryState::start(&config);
    assert!(st.has_tries_left(&config));
    let (st, a) = st.after_failure(&config, true, 1000, 0);
    assert_eq!(a, AfterFailure::WaitMs(500));
    let (st, a) = st.after_failure(&config, true, 9000, 300);
    assert_eq!(a, AfterFailure::WaitMs(700));
    assert_eq!(st.delay_ms, 5000);
    assert!(!st.has_tries_left(&config));
    let (_, a) = st.after_failure(&config, true, 1, 0);
    assert_eq!(a, AfterFailure::GiveUp);
    let (_, a) = RetryState::start(&config).after_failure(&config, false, 1, 0);
    assert_eq!(a, AfterFailure::GiveUp);
}

#[test]
fn waits_vary_between_half_and_all_of_the_delay() {
    let config = RetryConfig::default();
    let st = RetryState::start(&config);
    let mut drawn: Vec<u64> = Vec::new();
    for _ in 0..64 {
        drawn.push(st.draw());
    }
    assert!(drawn.iter().all(|d| *d <= 250));
    assert!(drawn.iter().any(|d| *d != drawn[0]));
    for d in drawn {
        let (next, a) = st.after_failure(&config, true, 1000, d);
        assert_eq!(a, AfterFailure::WaitMs(500 - d));
        assert_eq!(next.delay_ms, 1000);
    }
}

#[test]
fn tiers_take_the_place_of_prices() {
    let mut m = new_chat_model("p", "a", "m", "M", 1, 1, 1);
    m.cost_rates = cache_prices("1.0", "2.0", "0.1", "0.2");
    add_tier(&mut m.cost_rates, 200, "3.0", "4.0", "0.3", "0.4");
    add_tier(&mut m.cost_rates, 100, "5.0", "6.0", "0.5", "0.6");
    let mut u = Usage { input: 100, output: 7, ..Default::default() };
    assert_eq!(calculate_cost(&m, &u).input.per_million.as_deref(), Some("1.0"));
    u.input = 101;
    assert_eq!(calculate_cost(&m, &u).input.per_million.as_deref(), Some("5.0"));
    u.cache_read = 100;
    let c = calculate_cost(&m, &u);
    assert_eq!(c.output.per_million.as_deref(), Some("4.0"));
    assert_eq!(c.output.tokens, 7);
    assert_eq!(c.cache_read.per_million.as_deref(), Some("0.3"));
}

#[test]
fn service_tiers_scale() {
    assert_eq!(service_tier_cost_multiplier("gpt-5", Some("flex")), CostScale::Half);
    assert_eq!(service_tier_cost_multiplier("gpt-5", Some("priority")), CostScale::Two);
    assert_eq!(service_tier_cost_multiplier("gpt-5", None), CostScale::One);
    assert_eq!(resolve_codex_service_tier(Some("default"), Some("priority")).as_deref(), Some("priority"));
    assert_eq!(resolve_codex_service_tier(Some("flex"), Some("priority")).as_deref(), Some("flex"));
}
