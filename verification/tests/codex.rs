//! Requests to the Codex service: what is sent, and what is made of the answer.
use otter_ai::base64::{base64_encode, base64url_encode, decode_base64url};
use otter_ai::codex::errors::{CodexErrorKind, CodexStreamError};
use otter_ai::codex::events::{process_codex_events, Projector, StepOutcome, WireItem};
use otter_ai::codex::grammar::{
    create_grammar_tool_input_properties, infer_grammar_input_property, resolve_grammar_sampling,
};
use otter_ai::codex::headers::{build_sse_headers, build_websocket_headers, set_header};
use otter_ai::codex::ids::{normalize_id_part, radix36, short_hash, split_normalized_tool_call_id, split_tool_call_id};
use otter_ai::codex::options::{
    codex_options_from_api, thinking_level_to_effort, CodexStreamOptions, CodexTransport,
};
use otter_ai::codex::output::{assert_successful_output, AssistantOutput};
use otter_ai::codex::replay::convert_responses_messages;
use otter_ai::codex::request::{build_request_body, serialize_tool_choice};
use otter_ai::codex::retry::{
    after_error_status, after_network_error, get_retry_after_delay_ms, is_retryable_error,
    is_terminal_rate_limit_error, parse_error_response_body, plan_after_error_status,
    retry_after_delay,
    validate_retry_delay_ms, wire_body, wire_body_with, AfterSseFailure,
};
use otter_ai::codex::signature::{encode_text_signature_v1, parse_text_signature};
use otter_ai::codex::sse::SseReader;
use otter_ai::codex::token::extract_account_id;
use otter_ai::codex::urls::{clamp_prompt_cache_key, resolve_codex_url, resolve_codex_websocket_url};
use otter_ai::dict::Dict;
use otter_ai::json::Json;
use otter_ai::json_text::{parse_json, print_json};
use otter_ai::oauth::config::OAuthProviderConfig;
use otter_ai::providers::listing::new_chat_model;
use otter_ai::types::{
    ApiStreamOptions, AssistantMessageEvent, CacheRetention, ContentBlock, Context, CostScale,
    Message, Model, ModelThinkingLevel, Tool, ToolChoice, ToolConstrainedSampling,
    ToolGrammarVariants, Usage,
};
use otter_ai::utf8::valid_utf8_prefix_len;
use otter_ai::validation::tool_from_schema;

fn json(text: &str) -> Json {
    parse_json(text).ok().unwrap()
}

fn model() -> Model {
    new_chat_model("chatgpt-plus", "openai-codex-responses", "gpt-5", "GPT-5", 1000, 100, 1000)
}

fn project(events: &[&str]) -> (Projector, Result<(), CodexStreamError>) {
    let m = model();
    let mut p = Projector::new(AssistantOutput::pending(&m, 0), false);
    let items: Vec<WireItem> = events.iter().map(|e| WireItem::Event(json(e))).collect();
    let r = process_codex_events(&mut p, items, &m, None, &Dict::new());
    (p, r)
}

fn kinds(p: &Projector) -> Vec<String> {
    p.emitted
        .iter()
        .map(|e| match e {
            AssistantMessageEvent::Start { .. } => "start".to_string(),
            AssistantMessageEvent::TextStart => "text_start".to_string(),
            AssistantMessageEvent::TextDelta { delta } => format!("text {}", delta),
            AssistantMessageEvent::TextEnd => "text_end".to_string(),
            AssistantMessageEvent::ThinkingStart => "thinking_start".to_string(),
            AssistantMessageEvent::ThinkingDelta { delta } => format!("thinking {}", delta),
            AssistantMessageEvent::ThinkingEnd { .. } => "thinking_end".to_string(),
            AssistantMessageEvent::ToolcallStart { .. } => "call_start".to_string(),
            AssistantMessageEvent::ToolcallDelta { delta, .. } => format!("call {}", delta),
            AssistantMessageEvent::ToolcallEnd { .. } => "call_end".to_string(),
            AssistantMessageEvent::Usage { .. } => "usage".to_string(),
            AssistantMessageEvent::Done { .. } => "done".to_string(),
            AssistantMessageEvent::Error { .. } => "error".to_string(),
        })
        .collect()
}

#[test]
fn text_of_a_response_is_gathered() {
    let (p, r) = project(&[
        "{\"type\":\"response.created\",\"response\":{\"id\":\"resp_1\"}}",
        "{\"type\":\"response.output_item.added\",\"output_index\":0,\"item\":{\"type\":\"message\",\"id\":\"msg_1\"}}",
        "{\"type\":\"response.output_text.delta\",\"output_index\":0,\"delta\":\"Hel\"}",
        "{\"type\":\"response.output_text.delta\",\"output_index\":0,\"delta\":\"lo\"}",
        "{\"type\":\"response.output_item.done\",\"output_index\":0,\"item\":{\"type\":\"message\",\"id\":\"msg_1\",\"phase\":\"final_answer\",\"content\":[{\"text\":\"Hello\"}]}}",
        "{\"type\":\"response.completed\",\"response\":{\"id\":\"resp_1\",\"status\":\"completed\",\"end_turn\":true,\"usage\":{\"input_tokens\":10,\"output_tokens\":4,\"total_tokens\":14,\"input_tokens_details\":{\"cached_tokens\":3}}}}",
    ]);
    assert!(r.is_ok());
    assert_eq!(kinds(&p), ["start", "text_start", "text Hel", "text lo", "text_end", "usage"]);
    let out = &p.output;
    assert_eq!(out.response_id.as_deref(), Some("resp_1"));
    assert_eq!(out.stop_reason.as_deref(), Some("stop"));
    assert_eq!(out.end_turn, Some(true));
    assert_eq!(out.usage.input, 7);
    assert_eq!(out.usage.cache_read, 3);
    assert_eq!(out.usage.output, 4);
    assert_eq!(out.usage.total_tokens, 14);
    match &out.content[0] {
        ContentBlock::Text { text, text_signature } => {
            assert_eq!(text, "Hello");
            let sig = parse_text_signature(text_signature.as_deref()).unwrap();
            assert_eq!(sig.0, "msg_1");
            assert_eq!(sig.1.as_deref(), Some("final_answer"));
        }
        _ => panic!("expected text"),
    }
}

#[test]
fn tool_call_is_gathered_and_ends_with_a_tool_use() {
    let (p, r) = project(&[
        "{\"type\":\"response.output_item.added\",\"output_index\":1,\"item\":{\"type\":\"function_call\",\"id\":\"fc_1\",\"call_id\":\"c1\",\"name\":\"f\"}}",
        "{\"type\":\"response.function_call_arguments.delta\",\"output_index\":1,\"delta\":\"{\\\"a\\\":\"}",
        "{\"type\":\"response.function_call_arguments.done\",\"output_index\":1,\"arguments\":\"{\\\"a\\\":1}\"}",
        "{\"type\":\"response.output_item.done\",\"output_index\":1,\"item\":{\"type\":\"function_call\",\"arguments\":\"{\\\"a\\\":1}\"}}",
        "{\"type\":\"response.completed\",\"response\":{\"status\":\"completed\"}}",
    ]);
    assert!(r.is_ok());
    assert_eq!(kinds(&p), ["start", "call_start", "call {\"a\":", "call 1}", "call_end", "usage"]);
    assert_eq!(p.output.stop_reason.as_deref(), Some("toolUse"));
    match &p.output.content[0] {
        ContentBlock::ToolCall { id, name, arguments } => {
            assert_eq!(id, "c1|fc_1");
            assert_eq!(name, "f");
            assert_eq!(print_json(arguments), "{\"a\":1}");
        }
        _ => panic!("expected a tool call"),
    }
}

#[test]
fn reasoning_is_replaced_by_its_summary() {
    let (p, r) = project(&[
        "{\"type\":\"response.output_item.added\",\"output_index\":0,\"item\":{\"type\":\"reasoning\"}}",
        "{\"type\":\"response.reasoning_summary_text.delta\",\"output_index\":0,\"delta\":\"hm\"}",
        "{\"type\":\"response.reasoning_summary_part.done\",\"output_index\":0}",
        "{\"type\":\"response.output_item.done\",\"output_index\":0,\"item\":{\"type\":\"reasoning\",\"summary\":[{\"text\":\"a\"},{\"text\":\"b\"}]}}",
        "{\"type\":\"response.incomplete\",\"response\":{\"status\":\"incomplete\",\"incomplete_details\":{\"reason\":\"max_output_tokens\"}}}",
    ]);
    assert!(r.is_ok());
    assert_eq!(kinds(&p), ["start", "thinking_start", "thinking hm", "thinking \n\n", "thinking_end", "usage"]);
    assert_eq!(p.output.stop_reason.as_deref(), Some("length"));
    match &p.output.content[0] {
        ContentBlock::Thinking { thinking, signature } => {
            assert_eq!(thinking, "a\n\nb");
            assert!(signature.as_deref().unwrap().contains("\"summary\""));
        }
        _ => panic!("expected thinking"),
    }
}

#[test]
fn failures_of_the_service_are_told_before_the_start() {
    let (p, r) = project(&["{\"type\":\"error\",\"code\":\"c\",\"message\":\"m\"}"]);
    let e = r.err().unwrap();
    assert_eq!(e.message, "Codex error: m");
    assert_eq!(e.code.as_deref(), Some("c"));
    assert_eq!(e.kind, CodexErrorKind::Api);
    assert!(!p.has_started());
    assert!(p.emitted.is_empty());

    let (_, r) = project(&["{\"type\":\"response.failed\",\"response\":{\"error\":{\"code\":\"x\"}}}"]);
    assert_eq!(r.err().unwrap().message, "x");
    let (_, r) = project(&["{\"type\":\"response.failed\"}"]);
    assert_eq!(r.err().unwrap().message, "Codex response failed");
    let (_, r) = project(&["{\"type\":\"response.created\"}"]);
    let e = r.err().unwrap();
    assert_eq!(e.message, "OpenAI Responses stream ended before a terminal response event");
    assert_eq!(e.kind, CodexErrorKind::Other);
}

#[test]
fn unsuccessful_output_is_an_error() {
    let (p, r) = project(&[
        "{\"type\":\"response.completed\",\"response\":{\"status\":\"incomplete\",\"incomplete_details\":{\"reason\":\"filter\"}}}",
    ]);
    assert!(r.is_ok());
    assert_eq!(p.output.stop_reason.as_deref(), Some("error"));
    assert_eq!(p.output.error_message.as_deref(), Some("Response incomplete: filter"));
    assert_eq!(assert_successful_output(&p.output).err().unwrap().message, "Response incomplete: filter");
}

#[test]
fn service_tier_scales_the_cost() {
    let m = model();
    let mut p = Projector::new(AssistantOutput::pending(&m, 0), true);
    let done = json("{\"type\":\"response.completed\",\"response\":{\"status\":\"completed\",\"service_tier\":\"flex\"}}");
    assert!(matches!(p.step(&done, &m, None, &Dict::new()), StepOutcome::Finished));
    assert_eq!(p.output.usage.cost.scale, CostScale::Half);
    let mut p = Projector::new(AssistantOutput::pending(&m, 0), true);
    let done = json("{\"type\":\"response.completed\",\"response\":{\"status\":\"completed\",\"service_tier\":\"priority\"}}");
    assert!(matches!(p.step(&done, &m, None, &Dict::new()), StepOutcome::Finished));
    assert_eq!(p.output.usage.cost.scale, CostScale::Two);
}

#[test]
fn event_stream_is_cut_into_events() {
    let mut reader = SseReader::new();
    assert!(reader.feed(b"data: {\"type\":\"a\"}").is_empty());
    let items = reader.feed(b"\n\ndata: [DONE]\n\nevent: x\ndata: {\"type\":\ndata: \"b\"}\n\n");
    let got: Vec<String> = items
        .iter()
        .map(|i| match i {
            WireItem::Event(v) => print_json(v),
            WireItem::Failure(e) => e.message.clone(),
        })
        .collect();
    assert_eq!(got, ["{\"type\":\"a\"}", "{\"type\":\"b\"}"]);
    let mut split = SseReader::new();
    let bytes = "data: {\"t\":\"é\"}\n\n".as_bytes();
    let mut all = vec![];
    for b in bytes {
        all.extend(split.feed(&[*b]));
    }
    assert_eq!(all.len(), 1);
    match &all[0] {
        WireItem::Event(v) => assert_eq!(v.field_str("t"), Some("é")),
        WireItem::Failure(_) => panic!("expected an event"),
    }
    let mut bad = SseReader::new();
    match &bad.feed(b"data: {\n\n")[0] {
        WireItem::Failure(e) => assert_eq!(e.kind, CodexErrorKind::Protocol),
        WireItem::Event(_) => panic!("expected a failure"),
    }
    assert!(bad.feed(b"data: {\"type\":\"a\"}\n\n").is_empty());
    let mut whole = SseReader::new();
    assert_eq!(whole.feed(b"data: {\n\ndata: {\"type\":\"a\"}\n\n").len(), 1);
}

#[test]
fn bytes_of_broken_characters_wait() {
    assert_eq!(valid_utf8_prefix_len("aé".as_bytes()), 3);
    assert_eq!(valid_utf8_prefix_len(&"aé".as_bytes()[..2]), 1);
    assert_eq!(valid_utf8_prefix_len(b""), 0);
}

#[test]
fn base64_follows_the_standard() {
    assert_eq!(base64_encode(b""), "");
    assert_eq!(base64_encode(b"f"), "Zg==");
    assert_eq!(base64_encode(b"foobar"), "Zm9vYmFy");
    assert_eq!(base64_encode(&[0xfb, 0xff]), "+/8=");
    assert_eq!(base64url_encode(&[0xfb, 0xff]), "-_8");
    assert_eq!(decode_base64url("-_8").unwrap(), vec![0xfb, 0xff]);
    assert_eq!(decode_base64url("Zm9vYmFy").unwrap(), b"foobar".to_vec());
    assert!(decode_base64url("!").is_err());
}

#[test]
fn account_is_read_out_of_a_token() {
    let claims = base64url_encode(b"{\"https://api.openai.com/auth\":{\"chatgpt_account_id\":\"acc\"}}");
    assert_eq!(extract_account_id(&format!("h.{}.s", claims)), Ok("acc".to_string()));
    assert_eq!(extract_account_id("a.b"), Err("invalid token".to_string()));
    let none = base64url_encode(b"{}");
    assert_eq!(extract_account_id(&format!("h.{}.s", none)), Err("no account ID in token".to_string()));
    let broken = base64url_encode(b"{");
    assert!(extract_account_id(&format!("h.{}.s", broken)).err().unwrap().starts_with("invalid payload JSON: "));
    assert!(extract_account_id("h.!.s").err().unwrap().starts_with("invalid base64: "));
}

#[test]
fn ids_are_made_acceptable() {
    assert_eq!(radix36(0), "0");
    assert_eq!(radix36(36), "10");
    assert_eq!(radix36(u32::MAX), "1z141z3");
    assert_eq!(short_hash("hello"), "1h6qa0qrowduu");
    assert_eq!(short_hash(""), "k4n83c7h0j2b");
    assert_eq!(normalize_id_part("a b/c__"), "a_b_c");
    assert_eq!(split_tool_call_id("c|i"), ("c".to_string(), Some("i".to_string())));
    assert_eq!(split_tool_call_id("c"), ("c".to_string(), None));
    assert_eq!(split_normalized_tool_call_id("c|item_1", true, false).1.as_deref(), Some("fc_1k4htsumzev3m"));
    assert_eq!(split_normalized_tool_call_id("c|x", true, true).1.as_deref(), Some("fc_x"));
    assert_eq!(split_normalized_tool_call_id("c|x", false, true), ("c_x".to_string(), None));
}

#[test]
fn addresses_end_with_the_path() {
    assert_eq!(resolve_codex_url(None), "https://chatgpt.com/backend-api/codex/responses");
    assert_eq!(resolve_codex_url(Some(" ")), "https://chatgpt.com/backend-api/codex/responses");
    assert_eq!(resolve_codex_url(Some("http://x/codex/")), "http://x/codex/responses");
    assert_eq!(resolve_codex_url(Some("http://x/codex/responses")), "http://x/codex/responses");
    assert_eq!(resolve_codex_websocket_url(Some("http://x")), "ws://x/codex/responses");
    assert_eq!(resolve_codex_websocket_url(None), "wss://chatgpt.com/backend-api/codex/responses");
    assert_eq!(clamp_prompt_cache_key(&"k".repeat(70)).len(), 64);
}

#[test]
fn signatures_are_read_back() {
    let s = encode_text_signature_v1("m", Some("commentary"));
    assert_eq!(s, "{\"v\":1,\"id\":\"m\",\"phase\":\"commentary\"}");
    assert_eq!(parse_text_signature(Some(&s)), Some(("m".to_string(), Some("commentary".to_string()))));
    assert_eq!(parse_text_signature(Some("plain")), Some(("plain".to_string(), None)));
    assert_eq!(parse_text_signature(None), None);
    let odd = encode_text_signature_v1("m", Some("other"));
    assert_eq!(parse_text_signature(Some(&odd)), Some(("m".to_string(), None)));
}

#[test]
fn headers_are_those_of_the_service() {
    let mut extra: Dict<String> = Dict::new();
    extra.insert("X-One", "1".to_string());
    extra.insert("bad name", "1".to_string());
    extra.insert("accept", "other".to_string());
    let h = build_sse_headers(&extra, "acc", "tok", Some("sid"));
    assert_eq!(h.get_text("authorization"), Some("Bearer tok"));
    assert_eq!(h.get_text("chatgpt-account-id"), Some("acc"));
    assert_eq!(h.get_text("openai-beta"), Some("responses=experimental"));
    assert_eq!(h.get_text("accept"), Some("text/event-stream"));
    assert_eq!(h.get_text("content-type"), Some("application/json"));
    assert_eq!(h.get_text("session-id"), Some("sid"));
    assert_eq!(h.get_text("x-client-request-id"), Some("sid"));
    assert_eq!(h.get_text("x-one"), Some("1"));
    assert_eq!(h.len(), 8);
    let w = build_websocket_headers(&extra, "acc", "tok", "rid");
    assert_eq!(w.get_text("x-client-request-id"), Some("rid"));
    assert_eq!(w.get_text("authorization"), Some("Bearer tok"));
    let mut one: Dict<String> = Dict::new();
    set_header(&mut one, "A", "bad\nvalue");
    assert_eq!(one.len(), 0);
    set_header(&mut one, "A", "tab\tvalue");
    assert_eq!(one.get_text("a"), Some("tab\tvalue"));
}

#[test]
fn passing_failures_are_repeated() {
    assert!(is_retryable_error(503, ""));
    assert!(is_retryable_error(400, "Service Unavailable"));
    assert!(!is_retryable_error(400, "bad"));
    assert!(is_retryable_error(429, "slow down"));
    assert!(!is_retryable_error(429, "Quota exceeded"));
    assert!(is_terminal_rate_limit_error("BILLING problem"));
    assert!(matches!(after_error_status(0, Some(3), 500, "x", None, None, 0), AfterSseFailure::RetryAfterMs(1000)));
    assert!(matches!(after_error_status(2, Some(3), 500, "x", None, None, 0), AfterSseFailure::RetryAfterMs(4000)));
    assert!(matches!(after_error_status(0, Some(3), 500, "x", Some(7), None, 0), AfterSseFailure::RetryAfterMs(7)));
    match after_error_status(0, Some(3), 500, "x", Some(61_000), None, 0) {
        AfterSseFailure::GiveUp(e) => assert_eq!(e, "Server requested 61s retry delay (max: 60s)"),
        AfterSseFailure::RetryAfterMs(_) => panic!("expected to give up"),
    }
    match after_error_status(3, Some(3), 500, "x", None, None, 0) {
        AfterSseFailure::GiveUp(e) => assert_eq!(e, "x"),
        AfterSseFailure::RetryAfterMs(_) => panic!("expected to give up"),
    }
    let plan = |attempt: u32, tries: u32, asked: Option<u64>| {
        plan_after_error_status(attempt, Some(tries), 500, "x", asked, None, 0)
    };
    assert!(matches!(plan(2, 3, None), Some(AfterSseFailure::RetryAfterMs(4000))));
    assert!(matches!(plan(60, 100, Some(7)), Some(AfterSseFailure::RetryAfterMs(7))));
    assert!(plan(60, 100, None).is_none());
    assert!(matches!(plan(60, 60, None), Some(AfterSseFailure::GiveUp(e)) if e == "x"));
    assert!(matches!(after_network_error(1, Some(2), "reset"), AfterSseFailure::RetryAfterMs(2000)));
    assert!(matches!(after_network_error(0, Some(2), "usage limit"), AfterSseFailure::GiveUp(_)));
    assert_eq!(validate_retry_delay_ms(70_000, Some(0)), Ok(70_000));
}

#[test]
fn delays_come_from_headers() {
    assert_eq!(retry_after_delay(Some(5), Some(6), Some(7), 0), Some(5));
    assert_eq!(retry_after_delay(None, None, Some(7), 9), Some(0));
    let at = "Wed, 21 Oct 2015 07:28:00 GMT";
    assert_eq!(get_retry_after_delay_ms(None, None, Some(at), 1_445_412_470_000), Some(10_000));
    assert_eq!(get_retry_after_delay_ms(None, None, Some("soon"), 0), None);
    assert_eq!(get_retry_after_delay_ms(None, Some(3000), Some(at), 0), Some(3000));
}

#[test]
fn error_bodies_are_told() {
    assert_eq!(parse_error_response_body(500, "", 0), "Request failed");
    assert_eq!(parse_error_response_body(500, "oops", 0), "oops");
    assert_eq!(parse_error_response_body(400, "{\"error\":{\"message\":\"m\"}}", 0), "m");
    assert_eq!(
        parse_error_response_body(429, "{\"error\":{\"plan_type\":\"PLUS\",\"resets_at\":150}}", 0),
        "You have hit your ChatGPT usage limit (plus plan). Try again in ~3 min."
    );
}

#[test]
fn body_is_compressed_for_the_wire() {
    let body = Json::object().with("a", Json::text(&"x".repeat(500)));
    let wire = wire_body(&body);
    assert!(wire.compressed);
    assert!(wire.bytes.len() < 200);
    let back = zstd::bulk::decompress(&wire.bytes, 10_000).unwrap();
    assert_eq!(String::from_utf8(back).unwrap(), print_json(&body));
    let plain = wire_body_with("{}", None);
    assert!(!plain.compressed);
    assert_eq!(plain.bytes, b"{}");
    let framed = wire_body_with("{}", Some(vec![1, 2]));
    assert!(framed.compressed);
    assert_eq!(framed.bytes, [1, 2]);
}

#[test]
fn request_body_has_what_the_service_wants() {
    let mut m = model();
    let mut levels: Dict<String> = Dict::new();
    levels.insert("high", "xhigh".to_string());
    m.thinking_level_map = Some(levels);
    let ctx = Context {
        system_prompt: Some("Be brief.".into()),
        messages: vec![Message::user_from_string("hi".to_string(), 0)],
        tools: vec![tool_from_schema("f", None, json("{\"type\":\"object\"}"))],
        ..Default::default()
    };
    let opts = CodexStreamOptions {
        reasoning_effort: Some("high".into()),
        temperature: Some("0.5".into()),
        service_tier: Some("flex".into()),
        ..Default::default()
    };
    let body = build_request_body(&m, &ctx, &opts, Some("sid")).unwrap_or(Json::Null);
    assert_eq!(
        print_json(&body),
        "{\"include\":[\"reasoning.encrypted_content\"],\
         \"input\":[{\"content\":[{\"text\":\"hi\",\"type\":\"input_text\"}],\"role\":\"user\"}],\
         \"instructions\":\"Be brief.\",\"model\":\"gpt-5\",\"parallel_tool_calls\":true,\
         \"prompt_cache_key\":\"sid\",\"reasoning\":{\"effort\":\"xhigh\",\"summary\":\"auto\"},\
         \"service_tier\":\"flex\",\"store\":false,\"stream\":true,\"temperature\":0.5,\
         \"text\":{\"verbosity\":\"low\"},\"tool_choice\":\"auto\",\
         \"tools\":[{\"description\":\"\",\"name\":\"f\",\"parameters\":{\"type\":\"object\"},\"strict\":null,\"type\":\"function\"}]}"
    );
    assert_eq!(print_json(&serialize_tool_choice(&Some(ToolChoice::Never), &None)), "\"none\"");
    assert_eq!(
        print_json(&serialize_tool_choice(&None, &Some(ToolChoice::Tool { name: "f".into() }))),
        "{\"name\":\"f\",\"type\":\"function\"}"
    );
    assert_eq!(thinking_level_to_effort(&m, ModelThinkingLevel::High).as_deref(), Some("high"));
    assert_eq!(thinking_level_to_effort(&m, ModelThinkingLevel::Medium).as_deref(), Some("medium"));
    assert_eq!(thinking_level_to_effort(&m, ModelThinkingLevel::Low).as_deref(), Some("low"));
    assert!(thinking_level_to_effort(&m, ModelThinkingLevel::Off).is_none());
}

fn grammar_tool(lark: Option<&str>, schema: &str) -> Tool {
    Tool {
        name: "g".into(),
        description: None,
        parameters: json(schema),
        constrained_sampling: Some(ToolConstrainedSampling {
            sampling_type: "grammar".into(),
            variants: Some(ToolGrammarVariants { openai_lark: lark.map(|s| s.into()), openai_regex: None }),
        }),
    }
}

#[test]
fn grammars_are_found() {
    let one = "{\"type\":\"object\",\"properties\":{\"input\":{\"type\":\"string\"}},\"required\":[\"input\"]}";
    let t = grammar_tool(Some("start: x"), one);
    assert_eq!(resolve_grammar_sampling(&t), Some(("lark".to_string(), "start: x".to_string())));
    assert_eq!(infer_grammar_input_property(&t).as_deref(), Some("input"));
    let all = create_grammar_tool_input_properties(&vec![t]).ok().unwrap();
    assert_eq!(all.get_text("g"), Some("input"));
    let blank = grammar_tool(Some("  "), one);
    assert!(resolve_grammar_sampling(&blank).is_none());
    let two = grammar_tool(Some("start: x"), "{\"type\":\"object\",\"properties\":{}}");
    assert!(create_grammar_tool_input_properties(&vec![two]).is_err());
}

#[test]
fn conversation_is_replayed() {
    let m = model();
    let ctx = Context {
        messages: vec![
            Message::Assistant {
                content: vec![ContentBlock::ToolCall {
                    id: "c1|fc_1".into(),
                    name: "f".into(),
                    arguments: json("{\"a\":1}"),
                }],
                api: "openai-codex-responses".into(),
                provider: "chatgpt-plus".into(),
                model: Some("gpt-5".into()),
                usage: Usage::default(),
                stop_reason: Some("toolUse".into()),
                error_message: None,
                response_id: None,
                end_turn: None,
                timestamp: 0,
            },
            Message::ToolResult {
                tool_call_id: "c1|fc_1".into(),
                tool_name: "f".into(),
                content: vec![ContentBlock::Text { text: "done".into(), text_signature: None }],
                is_error: false,
                timestamp: 0,
            },
        ],
        ..Default::default()
    };
    let items = convert_responses_messages(&m, &ctx, &["chatgpt-plus"], false, &Dict::new());
    let got: Vec<String> = items.iter().map(|i| print_json(i)).collect();
    assert_eq!(
        got,
        [
            "{\"arguments\":\"{\\\"a\\\":1}\",\"call_id\":\"c1\",\"id\":\"fc_1\",\"name\":\"f\",\"type\":\"function_call\"}",
            "{\"call_id\":\"c1\",\"output\":\"done\",\"type\":\"function_call_output\"}",
        ]
    );
}

#[test]
fn options_are_read_from_a_request() {
    let config = OAuthProviderConfig {
        base_url: "https://b".into(),
        client_id: "c".into(),
        scopes: vec![],
        auth_url: None,
        token_url: None,
        device_auth_url: None,
        redirect_uri: None,
        display_name: "D".into(),
        is_subscription: true,
        login_label: None,
        api_label: "a".into(),
        extra_headers: None,
        default_models: vec![],
    };
    let mut options = ApiStreamOptions::default();
    options.request_options.headers.insert("Authorization", "Bearer tok".to_string());
    options.request_options.headers.insert("x-other", "1".to_string());
    options.request_options.extra_body = Some(json(
        "{\"session_id\":\"s\",\"cache_retention\":\"long\",\"temperature\":1,\"transport\":\"sse\",\"tool_choice\":\"none\"}",
    ));
    let o = codex_options_from_api(&config, &options);
    assert_eq!(o.api_key, "tok");
    assert_eq!(o.base_url.as_deref(), Some("https://b"));
    assert_eq!(o.extra_headers.get_text("x-other"), Some("1"));
    assert!(o.extra_headers.get("Authorization").is_none());
    assert_eq!(o.session_id.as_deref(), Some("s"));
    assert_eq!(o.cache_retention, CacheRetention::Long);
    assert_eq!(o.temperature.as_deref(), Some("1.0"));
    assert_eq!(o.transport, CodexTransport::Sse);
    assert!(matches!(o.tool_choice, Some(ToolChoice::Never)));
}
