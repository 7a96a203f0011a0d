//! The library as its users see it: providers, models, tools and credentials.
use otter_ai::auth::store::InMemoryCredentialStore;
use otter_ai::auth::types::Credential;
use otter_ai::cost::calculate_usage_cost;
use otter_ai::json::Json;
use otter_ai::json_text::parse_json;
use otter_ai::models::{create_models, merge_options, Models};
use otter_ai::random::uuidv7;
use otter_ai::types::{
    content_text, CancellationToken, Charge, ContentBlock, Context, Message, Model,
    ModelCostRates, ModelThinkingLevel, SimpleStreamOptions, UsageCost,
};
use otter_ai::validation::{string_enum_schema, tool_from_schema};
use otter_ai::wire::events::{completed, WireEvent};
use otter_ai::wire::scripted::{
    complete_response, faux_provider, response_events, FauxProvider, FauxResponseConfig,
};
use schemars::JsonSchema;

fn price(charge: &Charge) -> f64 {
    let rate: f64 = match &charge.per_million {
        Some(text) => text.parse().unwrap(),
        None => 0.0,
    };
    charge.tokens as f64 * rate / 1_000_000.0
}

fn total(cost: &UsageCost) -> f64 {
    price(&cost.input) + price(&cost.output) + price(&cost.cache_read) + price(&cost.cache_write)
}

fn registry_of(faux: &FauxProvider) -> Models {
    let mut models = create_models();
    models.set_provider(faux.id(), faux.name());
    let fetched = vec![(faux.id().to_string(), Ok(faux.refresh_models()))];
    assert!(models.refresh_all(fetched).is_ok());
    models
}

#[test]
fn test_faux_provider_refresh_and_lookup() {
    let mut models = create_models();
    let faux = faux_provider();
    models.set_provider(faux.id(), faux.name());

    let count = models
        .refresh_all(vec![("faux".to_string(), Ok(faux.refresh_models()))])
        .expect("refresh failed");
    assert!(count > 0, "should have refreshed at least 1 model");

    let mini = models.get_model("faux", "faux-mini");
    assert!(mini.is_some(), "faux-mini should exist");
    let mini = mini.unwrap();
    assert_eq!(mini.id, "faux-mini");
    assert_eq!(mini.provider_id, "faux");
    assert!(mini.supports_tool_calling);

    let providers = models.list_providers();
    assert_eq!(providers.len(), 1);
    assert_eq!(providers[0].0, "faux");

    let all_models = models.list_models(None);
    assert!(all_models.len() >= 2);

    let faux_only = models.list_models(Some("faux"));
    assert_eq!(faux_only.len(), all_models.len());
}

#[test]
fn test_faux_complete_text_response() {
    let mut faux = faux_provider();
    faux.enqueue_response(FauxResponseConfig {
        text: "Hello, test!".into(),
        input_tokens: 10,
        output_tokens: 3,
        ..Default::default()
    });
    let models = registry_of(&faux);
    let model = models.get_model("faux", "faux-mini").unwrap();

    let ctx = Context {
        system_prompt: Some("Be helpful.".into()),
        messages: vec![Message::User {
            content: vec![ContentBlock::Text { text: "Hi!".into(), text_signature: None }],
            timestamp: 0,
        }],
        ..Default::default()
    };
    assert!(models.prepare(&model, ctx, &SimpleStreamOptions::default()).is_ok());

    let config = faux.next_response();
    let response = complete_response(&model, &config, 0);
    assert!(response.is_ok(), "complete should succeed");
    match response {
        Ok(Message::Assistant { content, usage, model: mid, stop_reason, .. }) => {
            assert_eq!(mid.as_deref(), Some("faux-mini"));
            assert_eq!(stop_reason.as_deref(), Some("end_turn"));
            assert_eq!(usage.input, 10);
            assert_eq!(usage.output, 3);
            assert!(total(&usage.cost) > 0.0);
            let text = content_text(&content);
            assert_eq!(text, "Hello, test!");
        }
        _ => panic!("expected assistant message"),
    }
}

#[test]
fn test_faux_stream_collects_events() {
    let mut faux = faux_provider();
    faux.enqueue_response(FauxResponseConfig {
        text: "Hi!".into(),
        thinking: Some("let me think...".into()),
        tool_calls: vec![("get_weather".into(), Json::object().with("city", Json::text("SF")))],
        input_tokens: 5,
        output_tokens: 5,
        ..Default::default()
    });
    let models = registry_of(&faux);
    let model = models.get_model("faux", "faux-pro").unwrap();

    let ctx = Context {
        messages: vec![Message::User {
            content: vec![ContentBlock::Text { text: "weather?".into(), text_signature: None }],
            timestamp: 0,
        }],
        ..Default::default()
    };
    assert!(models.prepare(&model, ctx, &SimpleStreamOptions::default()).is_ok());

    let config = faux.next_response();
    let events = response_events(&model, &config, 0);
    assert!(!events.is_empty(), "should have produced events");

    let types: Vec<&str> = events
        .iter()
        .map(|e| match e {
            WireEvent::Start { .. } => "start",
            WireEvent::ThinkingStart => "thinking_start",
            WireEvent::ThinkingDelta { .. } => "thinking_delta",
            WireEvent::ThinkingEnd { .. } => "thinking_end",
            WireEvent::TextStart => "text_start",
            WireEvent::TextDelta { .. } => "text_delta",
            WireEvent::TextEnd => "text_end",
            WireEvent::ToolcallStart { .. } => "toolcall_start",
            WireEvent::ToolcallDelta { .. } => "toolcall_delta",
            WireEvent::ToolcallEnd { .. } => "toolcall_end",
            WireEvent::Usage { .. } => "usage",
            WireEvent::Done { .. } => "done",
            WireEvent::Error { .. } => "error",
        })
        .collect();

    assert!(types.contains(&"start"));
    assert!(types.contains(&"thinking_start"));
    assert!(types.contains(&"thinking_end"));
    assert!(types.contains(&"text_start"));
    assert!(types.contains(&"text_end"));
    assert!(types.contains(&"toolcall_start"));
    assert!(types.contains(&"toolcall_end"));
    assert!(types.contains(&"usage"));
    assert!(matches!(events.last().unwrap(), WireEvent::Done { .. }));
}

#[test]
fn test_faux_error_response() {
    let mut faux = faux_provider();
    faux.enqueue_response(FauxResponseConfig {
        error: Some("intentional failure".into()),
        ..Default::default()
    });
    let models = registry_of(&faux);
    let model = models.get_model("faux", "faux-mini").unwrap();

    let ctx = Context::default();
    assert!(models.prepare(&model, ctx, &SimpleStreamOptions::default()).is_ok());
    let config = faux.next_response();
    let result = complete_response(&model, &config, 0);
    assert!(result.is_err());
    assert!(result.err().unwrap().contains("intentional failure"));
}

fn bare_model(cost_rates: ModelCostRates) -> Model {
    Model {
        id: "test".into(),
        provider_id: "test".into(),
        name: "Test".into(),
        api: "test".into(),
        max_input_tokens: None,
        max_output_tokens: None,
        supports_images: false,
        supports_audio: false,
        supports_video: false,
        supports_pdf: false,
        supports_tool_calling: false,
        supports_structured_output: false,
        supports_system_prompt: false,
        thinking: ModelThinkingLevel::Off,
        reasoning: false,
        cost_rates,
        context_window: None,
        default_temperature: None,
        thinking_level_map: None,
    }
}

#[test]
fn test_calculate_usage_cost_applies_rates() {
    let model = bare_model(ModelCostRates {
        input_per_million: Some("1.0".into()),
        output_per_million: Some("2.0".into()),
        input_cache_read_per_million: Some("0.5".into()),
        input_cache_write_per_million: Some("0.25".into()),
        tiers: vec![],
    });

    // 1M input, 1M output, 1M cache_read, 1M cache_write: 1.0 + 2.0 + 0.5 + 0.25 = 3.75
    let cost = calculate_usage_cost(1_000_000, 1_000_000, 1_000_000, 1_000_000, &model);
    assert!((price(&cost.input) - 1.0).abs() < 1e-9);
    assert!((price(&cost.output) - 2.0).abs() < 1e-9);
    assert!((price(&cost.cache_read) - 0.5).abs() < 1e-9);
    assert!((price(&cost.cache_write) - 0.25).abs() < 1e-9);
    assert!((total(&cost) - 3.75).abs() < 1e-9);
}

#[test]
fn test_calculate_usage_cost_missing_rates_are_zero() {
    let model = bare_model(ModelCostRates::default());
    let cost = calculate_usage_cost(1_000_000, 1_000_000, 1_000_000, 1_000_000, &model);
    assert_eq!(total(&cost), 0.0);
}

struct GetWeatherArgs;

impl JsonSchema for GetWeatherArgs {
    fn schema_name() -> String {
        "GetWeatherArgs".to_string()
    }

    fn json_schema(gen: &mut schemars::gen::SchemaGenerator) -> schemars::schema::Schema {
        let city = gen.subschema_for::<String>();
        let unit = gen.subschema_for::<Option<String>>();
        let mut object = schemars::schema::SchemaObject {
            instance_type: Some(schemars::schema::InstanceType::Object.into()),
            ..Default::default()
        };
        object.object().properties.insert("city".to_string(), city);
        object.object().properties.insert("unit".to_string(), unit);
        object.object().required.insert("city".to_string());
        object.into()
    }
}

#[test]
fn test_tool_from_schema_generates_valid_json_schema() {
    let root = schemars::gen::SchemaGenerator::default().into_root_schema_for::<GetWeatherArgs>();
    let schema = parse_json(&serde_json::to_string(&root.schema).unwrap());
    assert!(schema.is_ok());
    let tool = tool_from_schema(
        "get_weather",
        Some("Fetch the current weather".to_string()),
        schema.ok().unwrap(),
    );
    assert_eq!(tool.name, "get_weather");
    assert_eq!(tool.description.as_deref(), Some("Fetch the current weather"));

    let params = &tool.parameters;
    assert_eq!(params.get("type").and_then(|v| v.as_str()), Some("object"));
    let props = params.get("properties");
    assert!(props.is_some_and(|p| p.is_object()), "should have properties");
    let props = props.unwrap();
    assert!(props.get("city").is_some());
    assert!(props.get("unit").is_some());
    let required: Vec<&str> = match params.field_array("required") {
        Some(items) => items.iter().filter_map(|v| v.as_str()).collect(),
        None => vec![],
    };
    assert!(required.iter().any(|s| *s == "city"));
    assert!(!required.iter().any(|s| *s == "unit"));
}

#[test]
fn test_string_enum_schema() {
    let schema = string_enum_schema(
        &["low", "medium", "high"],
        Some("Difficulty level"),
        Some("medium"),
    );
    assert_eq!(schema.get("type").and_then(|v| v.as_str()), Some("string"));
    let enum_vals = schema.get("enum").and_then(|e| e.as_array());
    assert!(enum_vals.is_some(), "enum should be array");
    assert_eq!(enum_vals.unwrap().len(), 3);
    assert_eq!(schema.get("description").and_then(|v| v.as_str()), Some("Difficulty level"));
    assert_eq!(schema.get("default").and_then(|v| v.as_str()), Some("medium"));
}

#[test]
fn test_content_text_extracts_only_text_blocks() {
    let blocks = vec![
        ContentBlock::Text { text: "hello".into(), text_signature: None },
        ContentBlock::ToolCall { id: "tc1".into(), name: "f".into(), arguments: Json::object() },
        ContentBlock::Text { text: "world".into(), text_signature: None },
    ];
    assert_eq!(content_text(&blocks), "hello\nworld");
}

#[test]
fn test_cancellation_token_basic() {
    let token = CancellationToken::new();
    assert!(!token.is_cancelled());
    token.cancel();
    assert!(token.is_cancelled());

    let child = CancellationToken::new();
    let copy = child.child_token();
    child.cancel();
    assert!(copy.is_cancelled());
}

#[test]
fn test_uuidv7_is_valid_uuid() {
    let id = uuidv7();
    // The 13th hex digit, hyphens left out, is the version.
    let stripped: String = id.chars().filter(|c| *c != '-').collect();
    assert_eq!(stripped.len(), 32);
    assert_eq!(stripped.chars().nth(12), Some('7'));
}

#[test]
fn test_in_memory_credential_store_crud() {
    let mut store = InMemoryCredentialStore::new();

    assert!(store.read("openai").is_none());

    let result = store.commit("openai", Some(Credential::api_key("sk-test".to_string())));
    assert!(result.is_some());

    let read_back = store.read("openai");
    assert!(read_back.is_some());

    let list = store.list();
    assert_eq!(list.len(), 1);
    assert_eq!(list[0].provider_id, "openai");
    assert_eq!(list[0].kind, "api_key");

    store.delete("openai");
    assert!(store.read("openai").is_none());
}

#[test]
fn fresh_ids_differ() {
    assert_ne!(uuidv7(), uuidv7());
}

#[test]
fn response_that_was_not_told_is_the_default_one() {
    let mut faux = faux_provider();
    let config = faux.next_response();
    assert_eq!(config.text, "Hello from Faux provider!");
    assert_eq!(config.stop_reason, "end_turn");
    assert_eq!(config.stream_delay_ms, 2);
    let model = faux.refresh_models().remove(0);
    let events = response_events(&model, &config, 7);
    match completed(&events) {
        Ok(m) => assert_eq!(m.stop_reason(), Some("end_turn")),
        Err(e) => panic!("{}", e),
    }
    assert_eq!(completed(&vec![WireEvent::TextStart]).err().unwrap(), "No done event received");
}

#[test]
fn options_count_more_than_the_conversation() {
    let ctx = Context { temperature: Some("0.2".into()), max_tokens: Some(5), ..Default::default() };
    let options = SimpleStreamOptions { max_tokens: Some(9), ..Default::default() };
    let merged = merge_options(ctx, &options);
    assert_eq!(merged.max_tokens, Some(9));
    assert_eq!(merged.temperature.as_deref(), Some("0.2"));
}
