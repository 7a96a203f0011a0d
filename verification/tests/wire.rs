//! Requests to and responses of services that answer in one piece.
use otter_ai::json::Json;
use otter_ai::json_text::{parse_json, print_json};
use otter_ai::providers::listing::new_chat_model;
use otter_ai::types::{
    ContentBlock, Context, ImageContent, Message, Model, Usage,
};
use otter_ai::validation::tool_from_schema;
use otter_ai::wire::anthropic::{
    build_anthropic_request, from_anthropic_response_json,
    from_anthropic_response_text,
};
use otter_ai::wire::blocks::{endpoint_url, image_base64, image_media_type, image_url};
use otter_ai::wire::events::{completed, http_error, WireEvent};
use otter_ai::wire::openai::{
    arguments_or_null, build_openai_request, from_openai_response_json, from_openai_response_text,
};
use otter_ai::wire::scripted::{faux_provider, message_with_ids, FauxResponseConfig};

fn json(text: &str) -> Json {
    parse_json(text).ok().unwrap()
}

fn model() -> Model {
    new_chat_model("p", "api", "m1", "M", 1000, 100, 1000)
}

fn text(t: &str) -> ContentBlock {
    ContentBlock::Text { text: t.into(), text_signature: None }
}

fn conversation() -> Context {
    Context {
        system_prompt: Some("sys".into()),
        messages: vec![
            Message::user_from_string("hi".to_string(), 0),
            Message::Assistant {
                content: vec![
                    text("ok"),
                    ContentBlock::ToolCall { id: "c1".into(), name: "f".into(), arguments: json("{\"a\":1}") },
                ],
                api: "api".into(),
                provider: "p".into(),
                model: None,
                usage: Usage::default(),
                stop_reason: None,
                error_message: None,
                response_id: None,
                end_turn: None,
                timestamp: 0,
            },
            Message::ToolResult {
                tool_call_id: "c1".into(),
                tool_name: "f".into(),
                content: vec![text("done")],
                is_error: false,
                timestamp: 0,
            },
        ],
        tools: vec![tool_from_schema("f", Some("does".into()), json("{\"type\":\"object\"}"))],
        temperature: Some("0.5".into()),
        max_tokens: Some(9),
        ..Default::default()
    }
}

#[test]
fn anthropic_request_is_built() {
    let r = build_anthropic_request(&model(), &conversation());
    assert_eq!(r.field_str("model"), Some("m1"));
    assert_eq!(r.field_u64("max_tokens"), Some(9));
    assert!(print_json(&r).contains("\"temperature\":0.5"));
    let messages = r.field_array("messages").unwrap();
    assert_eq!(messages[0].field_str("role"), Some("user"));
    assert_eq!(messages[1].field_str("role"), Some("assistant"));
    let all = print_json(&r);
    assert!(all.contains("\"type\":\"tool_use\""));
    assert!(all.contains("\"tool_use_id\":\"c1\""));
    assert!(all.contains("\"input_schema\":{\"type\":\"object\"}"));
}

#[test]
fn anthropic_response_is_read() {
    let body = json(
        "{\"content\":[{\"type\":\"text\",\"text\":\"Hi\"},{\"type\":\"tool_use\",\"id\":\"t\",\"name\":\"f\",\"input\":{\"a\":1}}],\
         \"stop_reason\":\"tool_use\",\"usage\":{\"input_tokens\":3,\"output_tokens\":2}}",
    );
    let events = from_anthropic_response_json(&model(), &body, 0);
    assert!(matches!(events[0], WireEvent::Start { .. }));
    match completed(&events) {
        Ok(Message::Assistant { content, usage, stop_reason, .. }) => {
            assert_eq!(content.len(), 2);
            assert_eq!(usage.input, 3);
            assert_eq!(usage.output, 2);
            assert_eq!(stop_reason.as_deref(), Some("tool_use"));
        }
        _ => panic!("expected a message"),
    }
}

#[test]
fn texts_of_answers_are_read() {
    let said = |events: Vec<WireEvent>| match completed(&events) {
        Ok(Message::Assistant { content, .. }) => match &content[0] {
            ContentBlock::Text { text, .. } => text.clone(),
            _ => panic!("expected a text"),
        },
        _ => panic!("expected a message"),
    };
    let one = "{\"content\":[{\"type\":\"text\",\"text\":\"Hi\"}]}";
    let events = from_anthropic_response_text(&model(), true, "200 OK", one, 0).ok().unwrap();
    assert_eq!(said(events), "Hi");
    let two = "{\"choices\":[{\"message\":{\"content\":\"Ho\"}}]}";
    let events = from_openai_response_text(&model(), true, "200 OK", two, 0).ok().unwrap();
    assert_eq!(said(events), "Ho");
    let refused = http_error("500 Internal Server Error", one);
    let r = from_anthropic_response_text(&model(), false, "500 Internal Server Error", one, 0);
    assert_eq!(r.err().unwrap(), refused);
    let r = from_openai_response_text(&model(), false, "500 Internal Server Error", one, 0);
    assert_eq!(r.err().unwrap(), refused);
    let reason = parse_json("no").err().unwrap();
    let r = from_anthropic_response_text(&model(), true, "200 OK", "no", 0);
    assert_eq!(r.err().unwrap(), reason);
    let r = from_openai_response_text(&model(), true, "200 OK", "no", 0);
    assert_eq!(r.err().unwrap(), reason);
}

#[test]
fn openai_request_is_built() {
    let r = build_openai_request(&model(), &conversation(), true);
    assert_eq!(r.field_bool("stream"), Some(true));
    let messages = r.field_array("messages").unwrap();
    let roles: Vec<&str> = messages.iter().filter_map(|m| m.field_str("role")).collect();
    assert_eq!(roles, ["system", "user", "assistant", "tool"]);
    assert_eq!(messages[3].field_str("tool_call_id"), Some("c1"));
    assert!(print_json(&messages[2]).contains("\"arguments\":\"{\\\"a\\\":1}\""));
}

#[test]
fn openai_response_is_read() {
    let body = json(
        "{\"choices\":[{\"message\":{\"content\":\"Hi\",\"tool_calls\":[{\"id\":\"t\",\"function\":{\"name\":\"f\",\"arguments\":\"{\\\"a\\\":1}\"}}]},\
         \"finish_reason\":\"tool_calls\"}],\"usage\":{\"prompt_tokens\":3,\"completion_tokens\":2}}",
    );
    let events = from_openai_response_json(&model(), &body, 0);
    match completed(&events) {
        Ok(Message::Assistant { content, usage, stop_reason, .. }) => {
            assert_eq!(content.len(), 2);
            match &content[1] {
                ContentBlock::ToolCall { id, arguments, .. } => {
                    assert_eq!(id, "t");
                    assert_eq!(print_json(arguments), "{\"a\":1}");
                }
                _ => panic!("expected a call"),
            }
            assert_eq!((usage.input, usage.output), (3, 2));
            assert_eq!(stop_reason.as_deref(), Some("tool_calls"));
        }
        _ => panic!("expected a message"),
    }
    assert!(matches!(arguments_or_null(Err("e".into())), Json::Null));
}

#[test]
fn images_and_addresses() {
    let raw = ImageContent { content_type: "image".into(), data: "QUJD".into(), mime_type: Some("image/gif".into()) };
    assert_eq!(image_media_type(&raw), "image/gif");
    assert_eq!(image_base64("data:image/png;base64,QUJD"), "QUJD");
    assert!(image_url(&raw).ends_with("QUJD"));
    assert_eq!(endpoint_url("https://h/v1", "/x"), "https://h/v1/x");
    assert!(http_error("500", "b").contains("b"));
}

#[test]
fn told_responses_leave_in_order() {
    let mut p = faux_provider();
    for t in ["a", "b"] {
        p.enqueue_response(FauxResponseConfig { text: t.into(), ..Default::default() });
    }
    assert_eq!(p.next_response().text, "a");
    assert_eq!(p.next_response().text, "b");
    let auth = p.auth();
    assert_eq!(auth.name(), "Faux API key");
    assert_eq!(auth.login().key.as_deref(), Some("faux-test-key"));
    let r = auth.resolve(Some(&auth.login()));
    assert_eq!(r.auth.api_key.as_deref(), Some("faux-test-key"));
    assert_eq!(r.source.as_deref(), Some("faux-in-memory"));
    let config = FauxResponseConfig {
        text: "t".into(),
        tool_calls: vec![("f".into(), Json::object())],
        ..Default::default()
    };
    match message_with_ids(&model(), &config, &vec!["id1".to_string()], 4) {
        Message::Assistant { content, timestamp, .. } => {
            assert_eq!(content.len(), 2);
            assert_eq!(timestamp, 4);
            assert!(matches!(&content[1], ContentBlock::ToolCall { id, .. } if id == "id1"));
        }
        _ => panic!("expected a message"),
    }
}
