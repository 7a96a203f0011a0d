//! The provider that answers from a script.
use otter_ai::auth::types::{ApiKeyAuth, AuthContext, AuthEvent, AuthInteraction, AuthPrompt};
use otter_ai::dict::Dict;
use otter_ai::faux::content::{
    create_error_message, error_str, faux_assistant_message, faux_text, faux_thinking,
    faux_tool_call, normalize_content, FauxAssistantMessageOptions, FauxContentInput,
    FauxToolCallOptions,
};
use otter_ai::faux::deltas::{stream_at_sizes, stream_with_deltas, DeltaStream};
use otter_ai::faux::estimate::{
    common_prefix_len, content_to_text, estimate_tokens, estimate_usage, serialize_context,
    with_usage_estimate,
};
use otter_ai::faux::script::{
    complete, faux_provider, register_faux_provider, step_from_message, step_from_string,
    FauxModelDefinition, FauxResponseStep, RegisterFauxProviderOptions,
};
use otter_ai::faux::split::{draw_sizes, split_at_sizes, split_by_token_size};
use otter_ai::json::Json;
use otter_ai::models::create_models;
use otter_ai::types::{
    AssistantMessageEvent, CacheRetention, CancellationToken, ContentBlock, Context, ImageContent,
    Message, SimpleStreamOptions,
};

fn message(text: &str) -> Message {
    faux_assistant_message(
        FauxContentInput::Text(text.into()),
        FauxAssistantMessageOptions::default(),
        0,
    )
}

fn run(mut s: DeltaStream, cancel_after: usize) -> Vec<AssistantMessageEvent> {
    let mut all = vec![];
    let mut steps = 0;
    loop {
        let step = s.step(steps >= cancel_after, 0);
        steps += 1;
        all.extend(step.events);
        if step.ended {
            return all;
        }
    }
}

#[test]
fn texts_are_split_and_put_together() {
    let text = "The quick brown fox jumps over the lazy dog";
    let parts = split_by_token_size(text, 3, 5).unwrap();
    assert_eq!(parts.concat(), text);
    for p in &parts[..parts.len() - 1] {
        assert!(p.len() >= 12 && p.len() <= 20);
    }
    assert_eq!(split_by_token_size("", 3, 5).unwrap(), vec!["".to_string()]);
    assert_eq!(
        split_by_token_size("abcdefgh", 1, 1).unwrap(),
        vec!["abcd".to_string(), "efgh".to_string()]
    );
    assert!(split_by_token_size("abcé", 1, 1).is_none());
    assert_eq!(split_by_token_size("abcé", 2, 2).unwrap(), vec!["abcé".to_string()]);
    for size in draw_sizes(text, 3, 5) {
        assert!((3..=5).contains(&size));
    }
}

#[test]
fn only_a_drawn_cut_inside_a_character_fails() {
    // the third byte of the character at six is where two tokens end
    let text = "abcdef\u{20ac}gh";
    assert!(split_at_sizes(text, &vec![2, 2]).is_none());
    assert_eq!(
        split_at_sizes(text, &vec![1, 2, 1]).unwrap(),
        vec!["abcd".to_string(), "ef\u{20ac}gh".to_string()]
    );
    assert_eq!(split_at_sizes(text, &vec![3]).unwrap(), vec![text.to_string()]);
    assert_eq!(
        split_at_sizes("abcdefgh", &vec![1]).unwrap(),
        vec!["abcd".to_string(), "efgh".to_string()]
    );
    assert!(stream_at_sizes(message(text), &vec![vec![2, 2]]).is_none());
    let s = stream_at_sizes(message(text), &vec![vec![1, 2, 1]]).unwrap();
    assert_eq!(s.pieces, vec![vec!["abcd".to_string(), "ef\u{20ac}gh".to_string()]]);
}

#[test]
fn response_is_streamed_in_pieces() {
    let events = run(stream_with_deltas(message("Hello there, friend"), 1, 1).unwrap(), usize::MAX);
    assert!(matches!(events[0], AssistantMessageEvent::Start { .. }));
    assert!(matches!(events[1], AssistantMessageEvent::TextStart));
    let text: String = events
        .iter()
        .filter_map(|e| match e {
            AssistantMessageEvent::TextDelta { delta } => Some(delta.as_str()),
            _ => None,
        })
        .collect();
    assert_eq!(text, "Hello there, friend");
    match events.last() {
        Some(AssistantMessageEvent::Done { reason, .. }) => assert_eq!(reason, "stop"),
        _ => panic!("expected the end"),
    }
    assert!(matches!(events[events.len() - 2], AssistantMessageEvent::Usage { .. }));
}

#[test]
fn cancelled_stream_is_cut_short() {
    let events = run(stream_with_deltas(message("Hello there, friend"), 1, 1).unwrap(), 3);
    match events.last() {
        Some(AssistantMessageEvent::Error { reason, error }) => {
            assert_eq!(reason, "aborted");
            assert_eq!(error, "Request was aborted");
        }
        _ => panic!("expected a failure"),
    }
}

#[test]
fn failed_message_ends_with_its_error() {
    let m = create_error_message("boom".into(), "a", "p", "m", 0);
    assert_eq!(error_str(&m), "boom");
    let events = run(stream_with_deltas(m, 1, 1).unwrap(), usize::MAX);
    match events.last() {
        Some(AssistantMessageEvent::Error { reason, error }) => {
            assert_eq!(reason, "error");
            assert_eq!(error, "boom");
        }
        _ => panic!("expected a failure"),
    }
}

#[test]
fn tool_calls_are_streamed() {
    let call = faux_tool_call(
        "f".into(),
        Json::object().with("a", Json::unsigned(1)),
        FauxToolCallOptions { id: Some("c1".into()) },
        0,
    );
    let m = faux_assistant_message(
        FauxContentInput::Blocks(vec![faux_thinking("hm".into()), call]),
        FauxAssistantMessageOptions { stop_reason: Some("toolUse".into()), ..Default::default() },
        0,
    );
    let events = run(stream_with_deltas(m, 1, 1).unwrap(), usize::MAX);
    assert!(events.iter().any(|e| matches!(e, AssistantMessageEvent::ThinkingStart)));
    assert!(events.iter().any(|e| matches!(e, AssistantMessageEvent::ThinkingEnd { .. })));
    let json: String = events
        .iter()
        .filter_map(|e| match e {
            AssistantMessageEvent::ToolcallDelta { delta, .. } => Some(delta.as_str()),
            _ => None,
        })
        .collect();
    assert_eq!(json, "{\"a\":1}");
    let anon = faux_tool_call("f".into(), Json::object(), FauxToolCallOptions::default(), 5);
    match anon {
        ContentBlock::ToolCall { id, .. } => assert!(id.starts_with("tool:5:")),
        _ => panic!("expected a call"),
    }
    assert_eq!(normalize_content(FauxContentInput::Block(faux_text("x".into()))).len(), 1);
}

#[test]
fn prompts_are_counted_and_remembered() {
    assert_eq!(estimate_tokens(""), 0);
    assert_eq!(estimate_tokens("a"), 1);
    assert_eq!(estimate_tokens("abcde"), 2);
    assert_eq!(common_prefix_len("abcd", "abxy"), 2);
    let image = ContentBlock::Image(ImageContent {
        content_type: "image".into(),
        data: "abc".into(),
        mime_type: None,
    });
    assert_eq!(content_to_text(&vec![faux_text("t".into()), image]), "t\n[image:application/octet-stream:3]");
    let ctx = Context {
        system_prompt: Some("sys".into()),
        messages: vec![Message::user_from_string("hi".to_string(), 0)],
        ..Default::default()
    };
    assert_eq!(serialize_context(&ctx), "system:sys\n\nuser:hi");
    let u = estimate_usage("abcdefgh", "abcd", true, Some("abcdxxxx"));
    assert_eq!((u.input, u.cache_read, u.cache_write, u.output), (1, 1, 1, 1));
    assert_eq!(u.total_tokens, 4);
    let mut cache: Dict<String> = Dict::new();
    let options = SimpleStreamOptions {
        session_id: Some("s".into()),
        cache_retention: Some(CacheRetention::Short),
        ..Default::default()
    };
    let first = with_usage_estimate(message("ok"), &ctx, Some(&options), &mut cache).unwrap();
    let again = with_usage_estimate(message("ok"), &ctx, Some(&options), &mut cache).unwrap();
    match (first, again) {
        (Message::Assistant { usage: a, .. }, Message::Assistant { usage: b, .. }) => {
            assert_eq!(a.cache_read, 0);
            assert!(a.cache_write > 0);
            assert_eq!(b.cache_read, a.cache_write);
            assert_eq!(b.cache_write, 0);
        }
        _ => panic!("expected messages"),
    }
}

#[test]
fn prompts_are_cached_where_that_is_asked_for() {
    let ctx = Context {
        messages: vec![Message::user_from_string("hi".to_string(), 0)],
        ..Default::default()
    };
    for retention in [None, Some(CacheRetention::Off)] {
        let mut cache: Dict<String> = Dict::new();
        let options = SimpleStreamOptions {
            session_id: Some("s".into()),
            cache_retention: retention,
            ..Default::default()
        };
        match with_usage_estimate(message("ok"), &ctx, Some(&options), &mut cache) {
            Some(Message::Assistant { usage, .. }) => {
                assert_eq!((usage.cache_read, usage.cache_write), (0, 0))
            }
            _ => panic!("expected a message"),
        }
        assert!(cache.get_text("s").is_none());
    }
    let mut cache: Dict<String> = Dict::new();
    let options = SimpleStreamOptions {
        session_id: Some("s".into()),
        cache_retention: Some(CacheRetention::Long),
        ..Default::default()
    };
    assert!(with_usage_estimate(message("ok"), &ctx, Some(&options), &mut cache).is_some());
    assert_eq!(cache.get_text("s"), Some("user:hi"));
}

#[test]
fn registered_provider_offers_a_model() {
    let reg = register_faux_provider(None);
    let mut models = create_models();
    models.set_provider(&reg.provider_id, &reg.provider_id);
    assert_eq!(models.refresh_all(vec![(reg.provider_id.clone(), Ok(reg.models))]).ok(), Some(1));
    let model = models.get_model("faux", "faux-mini").unwrap();
    assert_eq!(model.provider_id, "faux");
    assert_eq!(model.name, "Faux Model");
}

#[test]
fn script_is_followed_in_order() {
    let mut h = faux_provider(None);
    assert_eq!(h.api, "faux");
    assert_eq!(h.get_model(None).unwrap().id, "faux-mini");
    assert!(h.get_model(Some("nope")).is_none());
    h.set_responses(vec![step_from_string("one".into(), 0), step_from_message(message("two"))]);
    h.append_responses(vec![FauxResponseStep::Factory(3)]);
    assert_eq!(h.get_pending_response_count(), 3);
    assert!(matches!(h.core.take_request(), Some(FauxResponseStep::Message(_))));
    assert!(matches!(h.core.take_request(), Some(FauxResponseStep::Message(_))));
    assert!(matches!(h.core.take_request(), Some(FauxResponseStep::Factory(3))));
    assert!(h.core.take_request().is_none());
    assert_eq!(h.state().call_count, 4);
    let model = h.get_model(None).unwrap();
    let end = h.core.exhausted(&Context::default(), &model, 0);
    match &end.events[0] {
        AssistantMessageEvent::Error { error, .. } => assert_eq!(error, "No more faux responses queued"),
        _ => panic!("expected a failure"),
    }
    let s = h.core.resolve_response(message("hi"), &Context::default(), None, &model, 9).unwrap();
    assert!(run(s, usize::MAX).len() > 3);
    let p = h.provider();
    assert_eq!(p.id(), "faux");
    assert_eq!(p.get_models().len(), 1);
}

#[test]
fn registration_takes_options() {
    let mut r = register_faux_provider(Some(RegisterFauxProviderOptions {
        api: Some("api-x".into()),
        provider: Some("prov".into()),
        models: vec![FauxModelDefinition { id: "m1".into(), name: None, ..Default::default() }],
        tokens_per_second: None,
        token_size: Some((9, 2)),
    }));
    assert_eq!(r.provider_id, "prov");
    assert_eq!(r.models[0].name, "m1");
    assert_eq!(r.core.min_token_size, 2);
    r.set_responses(vec![step_from_string("x".into(), 0)]);
    assert_eq!(r.get_pending_response_count(), 1);
    r.unregister();
    assert_eq!(r.get_pending_response_count(), 0);
    assert!(complete(message("x"), None).is_ok());
    assert!(complete(create_error_message("boom".into(), "a", "p", "m", 0), Some("boom".into())).is_ok());
    assert_eq!(complete(message("x"), Some("cut".into())).err().unwrap(), "cut");
}

struct Nobody;

impl AuthInteraction for Nobody {
    fn signal(&self) -> Option<CancellationToken> {
        None
    }
    fn prompt(&self, _prompt: AuthPrompt) -> Result<String, String> {
        Err("nobody".into())
    }
    fn notify(&self, _event: AuthEvent) {}
}

struct Nowhere;

impl AuthContext for Nowhere {
    fn env(&self, _name: &str) -> Option<String> {
        None
    }
    fn file_exists(&self, _path: &str) -> bool {
        false
    }
}

#[test]
fn key_is_given_without_asking() {
    let auth = faux_provider(None).provider().auth();
    assert_eq!(auth.name(), "Faux");
    assert_eq!(auth.login(&Nobody).ok().unwrap().key.as_deref(), Some("faux-api-key"));
    assert!(auth.check(&Nowhere, None, &CancellationToken::new()).is_none());
    assert!(auth.resolve(&Nowhere, None, &CancellationToken::new()).is_none());
}
