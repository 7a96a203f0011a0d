//! Providers, their catalogues, and the registry of models.
use otter_ai::auth::types::{
    ApiKeyAuth, ApiKeyCredential, AuthContext, AuthEvent, AuthInteraction, AuthPrompt,
};
use otter_ai::json_text::print_json;
use otter_ai::models::{complete, create_models};
use otter_ai::models_store::{
    InMemoryModelsStore, ModelsPublication, ModelsStoreEntry, RefreshCtxState,
};
use otter_ai::oauth::provider::GenericOAuthProvider;
use otter_ai::providers::anthropic::anthropic_provider;
use otter_ai::providers::azure::azure_openai_provider;
use otter_ai::providers::bedrock::bedrock_provider;
use otter_ai::providers::chatgpt_plus::chatgpt_plus_provider;
use otter_ai::providers::github_copilot::github_copilot_provider;
use otter_ai::providers::groq::groq_provider;
use otter_ai::providers::listing::{new_chat_model, MakerName};
use otter_ai::providers::moonshot::moonshot_provider;
use otter_ai::providers::openai::openai_provider;
use otter_ai::providers::openrouter::openrouter_provider;
use otter_ai::types::{
    ApiStreamOptions, AssistantMessageEvent, CancellationToken, Context, Message, Model, ModelThinkingLevel,
    SimpleStreamOptions, ToolChoice,
};

fn model(provider: &str, id: &str, name: &str) -> Model {
    new_chat_model(provider, "api", id, name, 1, 1, 1)
}

fn maker() -> MakerName {
    MakerName { word: "fam".into(), title: "Fam".into() }
}

#[test]
fn refreshed_models_are_found() {
    let mut r = create_models();
    assert!(r.get_provider("p").is_none());
    assert_eq!(
        r.refresh_provider_models("p", Ok(vec![])).err().unwrap(),
        "Provider p not found"
    );
    r.set_provider("p", "P");
    r.set_provider("q", "Q");
    assert_eq!(r.get_provider("p").as_deref(), Some("P"));
    let two = vec![model("p", "a", "old"), model("p", "a", "new"), model("p", "b", "B")];
    assert_eq!(r.refresh_provider_models("p", Ok(two)).ok().unwrap().len(), 3);
    assert_eq!(r.get_model("p", "a").unwrap().name, "new");
    assert!(r.get_model("q", "a").is_none());
    assert_eq!(r.refresh_provider_models("p", Err("down".into())).err().unwrap(), "down");
    assert_eq!(r.list_models(Some("p")).len(), 3);
    assert!(r.refresh_provider_models("p", Ok(vec![model("p", "c", "C")])).is_ok());
    assert_eq!(r.list_models(Some("p")).len(), 1);
    assert_eq!(r.get_model("p", "b").unwrap().name, "B");
    assert_eq!(r.list_providers().len(), 2);
}

#[test]
fn refreshing_all_ends_at_a_failure() {
    let mut r = create_models();
    r.set_provider("p", "P");
    r.set_provider("q", "Q");
    let n = r.refresh_all(vec![
        ("p".to_string(), Ok(vec![model("p", "a", "A")])),
        ("q".to_string(), Ok(vec![model("q", "b", "B"), model("q", "c", "C")])),
    ]);
    assert_eq!(n, Ok(3));
    assert_eq!(r.list_models(None).len(), 3);
    let n = r.refresh_all(vec![
        ("p".to_string(), Err("down".to_string())),
        ("q".to_string(), Ok(vec![])),
    ]);
    assert_eq!(n, Err("down".to_string()));
    assert_eq!(r.list_models(Some("q")).len(), 2);
}

#[test]
fn unknown_provider_is_told() {
    let r = create_models();
    let m = model("gone", "a", "A");
    let e = r.prepare(&m, Context::default(), &SimpleStreamOptions::default()).err().unwrap();
    assert_eq!(e, "Provider gone not found");
}

#[test]
fn last_end_of_a_response_counts() {
    let done = |reason: &str| AssistantMessageEvent::Done {
        reason: reason.into(),
        message: Message::assistant_default("a".into(), "p".into(), 0).with_stop_reason(Some(reason.into())),
    };
    let failed = |e: &str| AssistantMessageEvent::Error { reason: "error".into(), error: e.into() };
    let m = complete(&vec![done("one"), failed("x"), done("two")]).ok().unwrap();
    assert_eq!(m.stop_reason(), Some("two"));
    assert_eq!(complete(&vec![failed("x"), failed("y")]).err().unwrap(), "y");
    assert_eq!(
        complete(&vec![AssistantMessageEvent::TextStart]).err().unwrap(),
        "Stream completed without Done or Error event"
    );
}

#[test]
fn publications_are_read_back() {
    let mut store = InMemoryModelsStore::new();
    let cx = RefreshCtxState::new("p", None, None, true, false);
    let entry = ModelsStoreEntry {
        models: vec![model("p", "a", "A")],
        fetched_at: Some(5),
        etag: Some("e".into()),
    };
    cx.publish(&mut store, ModelsPublication { persist: Some(Some(entry)) });
    let back = store.read("p").unwrap();
    assert_eq!(back.models.len(), 1);
    assert_eq!(back.fetched_at, Some(5));
    assert_eq!(back.etag.as_deref(), Some("e"));
    cx.publish(&mut store, ModelsPublication { persist: None });
    assert!(store.read("p").is_some());
    cx.publish(&mut store, ModelsPublication { persist: Some(None) });
    assert!(store.read("p").is_none());
    store.write("q", &ModelsStoreEntry::default());
    assert!(store.read("q").unwrap().models.is_empty());
}

#[test]
fn catalogues_hold_their_models() {
    let g = groq_provider();
    assert_eq!(g.id, "groq");
    assert_eq!(g.get_models().len(), 3);
    assert_eq!(g.get_models()[0].id, "llama-3.3-70b-versatile");
    assert_eq!(g.get_models()[0].cost_rates.input_per_million.as_deref(), Some("0.59"));
    let a = anthropic_provider(&maker());
    let models = a.get_models();
    assert_eq!(models[0].id, "fam-3-5-sonnet-latest");
    assert_eq!(models[2].name, "Fam 3.7 Sonnet");
    assert_eq!(models[2].thinking, ModelThinkingLevel::High);
    assert_eq!(bedrock_provider(&maker()).get_models()[0].id, "anthropic.fam-3-7-sonnet-20250219-v1:0");
    assert_eq!(openrouter_provider(&maker()).get_models()[0].name, "Fam 3.7 Sonnet (OpenRouter)");
    assert_eq!(github_copilot_provider(&maker()).get_models().len(), 4);
    assert_eq!(openai_provider().id, "openai");
}

#[test]
fn keys_of_providers_are_resolved() {
    let a = anthropic_provider(&maker());
    let r = a.resolve_with(Some(&ApiKeyCredential::from_key("k".into())), None, None);
    assert_eq!(r.auth.api_key.as_deref(), Some("k"));
    assert_eq!(r.auth.headers.unwrap().get_text("anthropic-version"), Some("2023-06-01"));
    assert_eq!(a.auth_name(), "Anthropic API key");
    match a.stream_end(3).event {
        AssistantMessageEvent::Error { error, .. } => {
            assert_eq!(error, "Anthropic live adapter not available in this build")
        }
        _ => panic!("expected a failure"),
    }
    let g = groq_provider();
    let r = g.api_key_auth().resolve_with(None, Some("e".into()), None);
    assert_eq!(r.source.as_deref(), Some("env:GROQ_API_KEY"));
    assert_eq!(r.auth.base_url.as_deref(), Some("https://api.groq.com/openai/v1"));
}

#[test]
fn simple_options_go_into_the_request() {
    let p: GenericOAuthProvider = chatgpt_plus_provider();
    assert!(p.streams_codex());
    let simple = SimpleStreamOptions {
        reasoning: Some("high".into()),
        thinking: Some(ModelThinkingLevel::Low),
        tool_choice: Some(ToolChoice::Tool { name: "f".into() }),
        base_url: Some("https://o".into()),
        temperature: Some("0.5".into()),
        ..Default::default()
    };
    let mut api = ApiStreamOptions::default();
    p.apply_simple_options(&simple, &mut api);
    let extra = api.request_options.extra_body.unwrap();
    assert_eq!(
        print_json(&extra),
        "{\"base_url_override\":\"https://o\",\"reasoning\":\"high\",\"temperature\":0.5,\
         \"tool_choice\":{\"name\":\"f\",\"type\":\"function\"}}"
    );
}

/// Someone who answers the prompt of one provider and refuses every other.
struct Someone {
    answer: Result<String, String>,
}

impl AuthInteraction for Someone {
    fn signal(&self) -> Option<CancellationToken> {
        None
    }
    fn prompt(&self, prompt: AuthPrompt) -> Result<String, String> {
        match prompt {
            AuthPrompt::Secret { message, placeholder, signal } => {
                assert_eq!(message, "Enter your Groq API key:");
                assert_eq!(placeholder.as_deref(), Some("gsk_..."));
                assert!(signal.is_none());
                self.answer.clone()
            }
            _ => Err("asked for something else".into()),
        }
    }
    fn notify(&self, _event: AuthEvent) {}
}

#[test]
fn entered_key_is_the_credential() {
    let auth = groq_provider().api_key_auth();
    let c = auth.login(&Someone { answer: Ok("gsk_1".into()) }).ok().unwrap();
    assert_eq!(c.kind, "api_key");
    assert_eq!(c.key.as_deref(), Some("gsk_1"));
    assert!(c.env.is_none());
    assert_eq!(auth.login(&Someone { answer: Err("later".into()) }).err().unwrap(), "later");
    assert_eq!(auth.login_with(Ok("".into())).ok().unwrap().key.as_deref(), Some(""));
    assert_eq!(auth.login_with(Err("no".into())).err().unwrap(), "no");
}

/// Surroundings that hold a few variables.
struct Around(Vec<(&'static str, &'static str)>);

impl AuthContext for Around {
    fn env(&self, name: &str) -> Option<String> {
        self.0.iter().find(|v| v.0 == name).map(|v| v.1.to_string())
    }
    fn file_exists(&self, _path: &str) -> bool {
        false
    }
}

#[test]
fn base_urls_come_from_the_environment() {
    let none = CancellationToken::new();
    let p = openai_provider();
    let r = p.resolve(
        &Around(vec![("OPENAI_API_KEY", "k"), ("OPENAI_BASE_URL", "https://proxy.test/v1")]),
        None,
    );
    assert_eq!(r.auth.api_key.as_deref(), Some("k"));
    assert_eq!(r.auth.base_url.as_deref(), Some("https://proxy.test/v1"));
    assert_eq!(r.source.as_deref(), Some("env:OPENAI_API_KEY"));
    assert!(r.auth.headers.is_none());
    let r = p.resolve(&Around(vec![("OPENAI_ORG_ID", "org")]), None);
    assert_eq!(r.auth.base_url.as_deref(), Some("https://api.openai.com/v1"));
    assert_eq!(r.auth.headers.unwrap().get_text("OpenAI-Organization"), Some("org"));
    assert!(r.auth.api_key.is_none() && r.source.is_none());
    let r = anthropic_provider(&maker())
        .resolve(&Around(vec![("ANTHROPIC_API_KEY", "a"), ("ANTHROPIC_BASE_URL", "https://x")]), None);
    assert_eq!(r.auth.base_url.as_deref(), Some("https://x"));
    assert_eq!(r.auth.api_key.as_deref(), Some("a"));
    let azure = azure_openai_provider().api_key_auth();
    let around = Around(vec![
        ("AZURE_OPENAI_API_KEY", "k"),
        ("AZURE_OPENAI_ENDPOINT", "https://x.openai.azure.com"),
    ]);
    let r = azure.resolve(&around, None, &none).unwrap();
    assert_eq!(r.auth.api_key.as_deref(), Some("k"));
    assert_eq!(r.auth.base_url.as_deref(), Some("https://x.openai.azure.com"));
    assert_eq!(azure.resolve(&Around(vec![]), None, &none).unwrap().auth.base_url.as_deref(), Some(""));
    let kimi = moonshot_provider().api_key_auth();
    let r = kimi.resolve(&Around(vec![("MOONSHOT_BASE_URL", "https://m")]), None, &none).unwrap();
    assert_eq!(r.auth.base_url.as_deref(), Some("https://m"));
    let groq = groq_provider().api_key_auth();
    let r = groq
        .resolve(&Around(vec![("GROQ_API_KEY", "g"), ("OPENAI_BASE_URL", "https://no")]), None, &none)
        .unwrap();
    assert_eq!(r.auth.base_url.as_deref(), Some("https://api.groq.com/openai/v1"));
    assert_eq!(r.auth.api_key.as_deref(), Some("g"));
    let r = bedrock_provider(&maker()).resolve(&Around(vec![("AWS_BEARER_TOKEN_BEDROCK", "t")]), None);
    assert_eq!(r.auth.api_key.as_deref(), Some("t"));
}

#[test]
fn all_models_are_those_of_each_provider() {
    let mut r = create_models();
    r.set_provider("p", "P");
    r.set_provider("q", "Q");
    r.set_provider("none", "None");
    let fetched = vec![
        ("p".to_string(), Ok(vec![model("p", "a", "A"), model("p", "b", "B")])),
        ("q".to_string(), Ok(vec![model("q", "a", "A")])),
    ];
    assert_eq!(r.refresh_all(fetched).ok(), Some(3));
    let ids = |models: Vec<Model>| {
        let mut ids: Vec<String> =
            models.iter().map(|m| format!("{}/{}", m.provider_id, m.id)).collect();
        ids.sort();
        ids
    };
    let mut each = Vec::new();
    for (id, _) in r.list_providers() {
        each.extend(r.list_models(Some(&id)));
    }
    assert_eq!(ids(r.list_models(None)), ids(each));
    assert!(r.list_models(Some("unknown")).is_empty());
    let mut alone = create_models();
    alone.set_provider("p", "P");
    assert!(alone.refresh_provider_models("p", Ok(vec![model("p", "a", "A")])).is_ok());
    assert_eq!(alone.list_models(None).len(), alone.list_models(Some("p")).len());
    assert!(alone.refresh_provider_models("q", Ok(vec![model("q", "a", "A")])).is_err());
    assert!(alone.list_models(Some("q")).is_empty());
}
