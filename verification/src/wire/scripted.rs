//! A provider that answers with what it was told.
use vstd::prelude::*;
use crate::auth::types as auth_types;
use crate::auth::types::{
    ApiKeyCredential, AuthResult, AuthResultView, ModelAuth, ModelAuthView,
};
use crate::cost;
use crate::cost::calculate_usage_cost;
use crate::json::{clone_json, Json, JsonView};
use crate::providers::listing;
use crate::providers::listing::{new_chat_model, prices};
use crate::random::uuidv7;
use crate::random;
use crate::text::{chars_of, text_range};
use crate::types;
use crate::types::{
    clone_models, AssistantMessage, BlockView, ContentBlock, MessageView, Model,
    ModelThinkingLevel, ModelView, Usage, UsageView,
};
use crate::views;
use crate::views::clone_opt_text;
use crate::wire::events;
use crate::wire::events::{
    model_message, push_call_events, start_event, WireEvent, WireEventView,
};

verus! {

broadcast use crate::views::group_views;

/// A response to be given.
pub struct FauxResponseConfig {
    pub text: String,
    /// The names and arguments of the tools that are called.
    pub tool_calls: Vec<(String, Json)>,
    pub input_tokens: u64,
    pub output_tokens: u64,
    pub stop_reason: String,
    pub thinking: Option<String>,
    pub stream_delay_ms: u64,
    pub error: Option<String>,
}

#[verifier::ext_equal]
pub struct ConfigView {
    pub text: Seq<char>,
    pub tool_calls: Seq<(Seq<char>, JsonView)>,
    pub input_tokens: u64,
    pub output_tokens: u64,
    pub stop_reason: Seq<char>,
    pub thinking: Option<Seq<char>>,
    pub stream_delay_ms: u64,
    pub error: Option<Seq<char>>,
}

impl View for FauxResponseConfig {
    type V = ConfigView;

    open spec fn view(&self) -> ConfigView {
        ConfigView {
            text: self.text@,
            tool_calls: self.tool_calls@.map_values(|c: (String, Json)| (c.0@, c.1@)),
            input_tokens: self.input_tokens,
            output_tokens: self.output_tokens,
            stop_reason: self.stop_reason@,
            thinking: views::opt(self.thinking),
            stream_delay_ms: self.stream_delay_ms,
            error: views::opt(self.error),
        }
    }
}

/// The response of a provider that was told none.
pub open spec fn default_config() -> ConfigView {
    ConfigView {
        text: "Hello from Faux provider!"@,
        tool_calls: Seq::empty(),
        input_tokens: 0,
        output_tokens: 0,
        stop_reason: "end_turn"@,
        thinking: None,
        stream_delay_ms: 2,
        error: None,
    }
}

impl Default for FauxResponseConfig {
    fn default() -> (r: FauxResponseConfig)
        ensures
            r@ == default_config(),
    {
        let c: FauxResponseConfig = FauxResponseConfig {
            text: "Hello from Faux provider!".to_owned(),
            tool_calls: Vec::new(),
            input_tokens: 0,
            output_tokens: 0,
            stop_reason: "end_turn".to_owned(),
            thinking: None,
            stream_delay_ms: 2,
            error: None,
        };
        assert(c@ =~= default_config());
        c
    }
}

/// The key of the provider.
pub struct FauxApiKeyAuth;

impl FauxApiKeyAuth {
    pub fn name(&self) -> (r: &str)
        ensures
            r@ == "Faux API key"@,
    {
        "Faux API key"
    }

    /// The key, without asking for one.
    pub fn login(&self) -> (r: ApiKeyCredential)
        ensures
            r@ == auth_types::plain_key("faux-test-key"@),
    {
        ApiKeyCredential::from_key("faux-test-key".to_owned())
    }

    /// What requests are authorised with: the key of the credential, if there is one.
    pub fn resolve(&self, credential: Option<&ApiKeyCredential>) -> (r: AuthResult)
        ensures
            r@ == (AuthResultView {
                auth: ModelAuthView {
                    api_key: match credential {
                        Some(c) => c@.key,
                        None => None,
                    },
                    headers: None,
                    base_url: Some("http://localhost/faux"@),
                },
                env: None,
                source: Some("faux-in-memory"@),
            }),
    {
        AuthResult {
            auth: ModelAuth {
                api_key: match credential {
                    Some(c) => clone_opt_text(&c.key),
                    None => None,
                },
                headers: None,
                base_url: Some("http://localhost/faux".to_owned()),
            },
            env: None,
            source: Some("faux-in-memory".to_owned()),
        }
    }
}

/// The models of the provider.
pub open spec fn faux_models() -> Seq<ModelView> {
    seq![
        ModelView {
            cost_rates: listing::priced("0.15"@, "0.6"@),
            default_temperature: Some("0.7"@),
            ..listing::chat_model(
                "faux"@,
                "faux-api"@,
                "faux-mini"@,
                "Faux Mini"@,
                128_000,
                16_384,
                128_000,
            )
        },
        ModelView {
            cost_rates: listing::priced("3.0"@, "15.0"@),
            default_temperature: Some("0.7"@),
            supports_images: true,
            thinking: ModelThinkingLevel::Medium,
            ..listing::chat_model(
                "faux"@,
                "faux-api"@,
                "faux-pro"@,
                "Faux Pro"@,
                200_000,
                65_536,
                200_000,
            )
        },
    ]
}

fn default_models() -> (r: Vec<Model>)
    ensures
        views::all(r@) == faux_models(),
{
    let mut models: Vec<Model> = Vec::new();
    let mut m: Model = new_chat_model(
        "faux",
        "faux-api",
        "faux-mini",
        "Faux Mini",
        128_000,
        16_384,
        128_000,
    );
    m.cost_rates = prices("0.15", "0.6");
    m.default_temperature = Some("0.7".to_owned());
    models.push(m);
    let mut m: Model = new_chat_model(
        "faux",
        "faux-api",
        "faux-pro",
        "Faux Pro",
        200_000,
        65_536,
        200_000,
    );
    m.cost_rates = prices("3.0", "15.0");
    m.default_temperature = Some("0.7".to_owned());
    m.supports_images = true;
    m.thinking = ModelThinkingLevel::Medium;
    models.push(m);
    assert(views::all(models@) =~= faux_models());
    models
}

/// A provider with two models, and the responses that it is to give.
pub struct FauxProvider {
    pub models: Vec<Model>,
    pub queued: Vec<FauxResponseConfig>,
}

impl Default for FauxProvider {
    fn default() -> (r: FauxProvider)
        ensures
            views::all(r.models@) == faux_models(),
            views::all(r.queued@) == Seq::<ConfigView>::empty(),
    {
        FauxProvider::new()
    }
}

impl FauxProvider {
    /// A provider that was told no response yet.
    pub fn new() -> (r: FauxProvider)
        ensures
            views::all(r.models@) == faux_models(),
            views::all(r.queued@) == Seq::<ConfigView>::empty(),
    {
        FauxProvider { models: default_models(), queued: Vec::new() }
    }

    pub fn id(&self) -> (r: &str)
        ensures
            r@ == "faux"@,
    {
        "faux"
    }

    pub fn name(&self) -> (r: &str)
        ensures
            r@ == "Faux (Test Provider)"@,
    {
        "Faux (Test Provider)"
    }

    /// How requests are authorised.
    pub fn auth(&self) -> (r: FauxApiKeyAuth) {
        FauxApiKeyAuth
    }

    /// The models of the provider, which never change.
    pub fn refresh_models(&self) -> (r: Vec<Model>)
        ensures
            views::all(r@) == views::all(self.models@),
    {
        clone_models(&self.models)
    }

    /// Adds a response behind the others.
    pub fn enqueue_response(&mut self, config: FauxResponseConfig)
        ensures
            views::all(final(self).queued@) == views::all(old(self).queued@).push(config@),
            final(self).models == old(self).models,
    {
        self.queued.push(config);
    }

    /// Takes the next response; the default one where none is left.
    pub fn next_response(&mut self) -> (r: FauxResponseConfig)
        ensures
            ({
                let before = views::all(old(self).queued@);
                if before.len() == 0 {
                    r@ == default_config() && views::all(final(self).queued@) == before
                } else {
                    r@ == before[0] && views::all(final(self).queued@) == before.skip(1)
                }
            }),
            final(self).models == old(self).models,
    {
        let ghost before = views::all(self.queued@);
        if self.queued.len() == 0 {
            return FauxResponseConfig::default();
        }
        let r: FauxResponseConfig = self.queued.remove(0);
        assert(views::all(self.queued@) =~= before.skip(1));
        r
    }
}

/// A provider that was told no response yet.
pub fn faux_provider() -> (r: FauxProvider)
    ensures
        views::all(r.models@) == faux_models(),
        views::all(r.queued@) == Seq::<ConfigView>::empty(),
{
    FauxProvider::new()
}

/// The blocks of the calls, under the ids given.
pub open spec fn call_blocks(calls: Seq<(Seq<char>, JsonView)>, ids: Seq<Seq<char>>) -> Seq<
    BlockView,
> {
    Seq::new(
        calls.len(),
        |i: int| BlockView::ToolCall { id: ids[i], name: calls[i].0, arguments: calls[i].1 },
    )
}

/// The content of a response, its tool calls under the ids given.
pub open spec fn content_of(c: ConfigView, ids: Seq<Seq<char>>) -> Seq<BlockView> {
    let thinking: Seq<BlockView> = match c.thinking {
        Some(t) => seq![BlockView::Thinking { thinking: t, signature: None }],
        None => Seq::empty(),
    };
    let text: Seq<BlockView> = if c.text.len() == 0 {
        Seq::empty()
    } else {
        seq![BlockView::Text { text: c.text, text_signature: None }]
    };
    thinking + text + call_blocks(c.tool_calls, ids)
}

/// The usage of a response.
pub open spec fn usage_of(model: ModelView, c: ConfigView) -> UsageView {
    let counts = cost::counted(c.input_tokens, c.output_tokens, 0, 0);
    UsageView { cost: cost::cost_of(model.cost_rates, counts), ..counts }
}

/// The message of a response, its tool calls under the ids given.
pub open spec fn message_with(
    model: ModelView,
    c: ConfigView,
    ids: Seq<Seq<char>>,
    now: i64,
) -> MessageView {
    events::message_of(model, content_of(c, ids), usage_of(model, c), Some(c.stop_reason), now)
}

/// The message of a response, its tool calls under the ids given.
pub fn message_with_ids(
    model: &Model,
    config: &FauxResponseConfig,
    ids: &Vec<String>,
    now: i64,
) -> (r: AssistantMessage)
    requires
        ids@.len() == config@.tool_calls.len(),
    ensures
        r@ == message_with(model@, config@, views::all(ids@), now),
{
    let ghost c = config@;
    let mut content: Vec<ContentBlock> = Vec::new();
    if let Some(t) = &config.thinking {
        content.push(ContentBlock::Thinking { thinking: t.clone(), signature: None });
    }
    if !config.text.as_str().is_empty() {
        content.push(ContentBlock::Text { text: config.text.clone(), text_signature: None });
    }
    let ghost head = views::all(content@);
    let ghost calls = call_blocks(c.tool_calls, views::all(ids@));
    assert(head =~= content_of(c, views::all(ids@)).take(head.len() as int));
    let mut i: usize = 0;
    while i < config.tool_calls.len()
        invariant
            i <= config.tool_calls@.len(),
            c == config@,
            ids@.len() == c.tool_calls.len(),
            calls == call_blocks(c.tool_calls, views::all(ids@)),
            views::all(content@) == head + calls.take(i as int),
        decreases config.tool_calls@.len() - i,
    {
        proof {
            views::lemma_take_step(calls, i as int);
        }
        let (name, arguments) = &config.tool_calls[i];
        assert(c.tool_calls[i as int] == (name@, arguments@));
        content.push(
            ContentBlock::ToolCall {
                id: ids[i].clone(),
                name: name.clone(),
                arguments: clone_json(arguments),
            },
        );
        assert(content@.last()@ == calls[i as int]);
        assert(views::all(content@) =~= head + calls.take(i + 1));
        i = i + 1;
    }
    proof {
        views::lemma_take_all(calls);
    }
    assert(views::all(content@) =~= content_of(c, views::all(ids@)));
    let mut usage: Usage = Usage::default();
    usage.input = config.input_tokens;
    usage.output = config.output_tokens;
    usage.cost = calculate_usage_cost(config.input_tokens, config.output_tokens, 0, 0, model);
    assert(usage@ == usage_of(model@, c));
    model_message(model, content, usage, Some(config.stop_reason.clone()), now)
}

/// Whether these are so many identifiers as tool calls get.
pub open spec fn are_ids(ids: Seq<Seq<char>>, n: nat) -> bool {
    ids.len() == n && forall|i: int| 0 <= i < n ==> random::is_uuidv7(#[trigger] ids[i])
}

/// Fresh ids for tool calls.
fn fresh_ids(n: usize) -> (r: Vec<String>)
    ensures
        are_ids(views::all(r@), n as nat),
{
    let mut ids: Vec<String> = Vec::new();
    let mut i: usize = 0;
    while i < n
        invariant
            i <= n,
            ids@.len() == i,
            forall|j: int| 0 <= j < i ==> random::is_uuidv7(#[trigger] views::all(ids@)[j]),
        decreases n - i,
    {
        let ghost before = views::all(ids@);
        ids.push(uuidv7());
        assert(forall|j: int| 0 <= j < i ==> #[trigger] views::all(ids@)[j] == before[j]);
        i = i + 1;
    }
    ids
}

/// The message of a response, its tool calls under fresh ids.
pub fn build_assistant_message(model: &Model, config: &FauxResponseConfig, now: i64) -> (r:
    AssistantMessage)
    ensures
        exists|ids: Seq<Seq<char>>|
            are_ids(ids, config@.tool_calls.len()) && r@ == #[trigger] message_with(
                model@,
                config@,
                ids,
                now,
            ),
{
    let ids: Vec<String> = fresh_ids(config.tool_calls.len());
    let r: AssistantMessage = message_with_ids(model, config, &ids, now);
    assert(r@ == message_with(model@, config@, views::all(ids@), now));
    r
}

/// The pieces of a text, `n` characters each but for the last.
pub open spec fn chunks(text: Seq<char>, n: int) -> Seq<Seq<char>>
    decreases text.len(),
{
    if n < 1 || text.len() == 0 {
        Seq::empty()
    } else if text.len() <= n {
        seq![text]
    } else {
        seq![text.take(n)] + chunks(text.skip(n), n)
    }
}

fn chunks_exec(text: &str, n: usize) -> (r: Vec<String>)
    requires
        n >= 1,
    ensures
        views::all(r@) == chunks(text@, n as int),
{
    let x: Vec<char> = chars_of(text);
    let mut out: Vec<String> = Vec::new();
    let mut from: usize = 0;
    assert(x@.skip(0) =~= x@);
    assert(views::all(out@) + chunks(x@, n as int) =~= chunks(x@, n as int));
    while from < x.len()
        invariant
            n >= 1,
            from <= x@.len(),
            views::all(out@) + chunks(x@.skip(from as int), n as int) == chunks(x@, n as int),
        decreases x@.len() - from,
    {
        let left: usize = x.len() - from;
        let to: usize = if left <= n {
            x.len()
        } else {
            from + n
        };
        let ghost rest = x@.skip(from as int);
        let ghost before = views::all(out@);
        out.push(text_range(&x, from, to));
        assert(out@.last()@ =~= rest.take(to - from));
        assert(rest.skip(to - from) =~= x@.skip(to as int));
        assert(left <= n ==> rest.take(to - from) =~= rest);
        assert(views::all(out@) + chunks(x@.skip(to as int), n as int) =~= before + chunks(
            rest,
            n as int,
        ));
        from = to;
    }
    assert(x@.skip(from as int) =~= Seq::empty());
    assert(views::all(out@) =~= chunks(x@, n as int));
    out
}

/// The events of the calls, under the ids given. What comes before the end of a call
/// does not hold its arguments.
pub open spec fn calls_events(
    model: ModelView,
    calls: Seq<(Seq<char>, JsonView)>,
    ids: Seq<Seq<char>>,
    now: i64,
) -> Seq<WireEventView>
    decreases calls.len(),
{
    if calls.len() == 0 {
        Seq::empty()
    } else {
        let i = calls.len() - 1;
        calls_events(model, calls.drop_last(), ids, now) + events::call_events(
            model,
            i,
            BlockView::ToolCall { id: ids[i], name: calls[i].0, arguments: JsonView::Null },
            BlockView::ToolCall { id: ids[i], name: calls[i].0, arguments: calls[i].1 },
            now,
        )
    }
}

/// How many characters of thinking come at a time.
pub const THINKING_CHUNK: usize = 3;

/// How many characters of text come at a time.
pub const TEXT_CHUNK: usize = 4;

/// The events of the thinking of a response.
pub open spec fn thinking_events(c: ConfigView) -> Seq<WireEventView> {
    match c.thinking {
        Some(t) => seq![WireEventView::ThinkingStart] + chunks(
            t,
            THINKING_CHUNK as int,
        ).map_values(|d: Seq<char>| WireEventView::ThinkingDelta { delta: d }) + seq![
            WireEventView::ThinkingEnd { signature: None },
        ],
        None => Seq::empty(),
    }
}

/// The events of the text of a response.
pub open spec fn said_events(c: ConfigView) -> Seq<WireEventView> {
    if c.text.len() == 0 {
        Seq::empty()
    } else {
        seq![WireEventView::TextStart] + chunks(c.text, TEXT_CHUNK as int).map_values(
            |d: Seq<char>| WireEventView::TextDelta { delta: d },
        ) + seq![WireEventView::TextEnd]
    }
}

/// The events of a response: those of its tool calls under the first ids, its
/// message under the others.
pub open spec fn events_with(
    model: ModelView,
    c: ConfigView,
    call_ids: Seq<Seq<char>>,
    message_ids: Seq<Seq<char>>,
    now: i64,
) -> Seq<WireEventView> {
    match c.error {
        Some(e) => seq![WireEventView::Error { error: e }],
        None => seq![events::start_of(model, now)] + thinking_events(c) + said_events(c)
            + calls_events(model, c.tool_calls, call_ids, now) + seq![
            WireEventView::Usage { usage: usage_of(model, c) },
            WireEventView::Done {
                reason: c.stop_reason,
                message: message_with(model, c, message_ids, now),
            },
        ],
    }
}

fn push_chunks(events: &mut Vec<WireEvent>, text: &str, thinking: bool)
    ensures
        thinking ==> views::all(final(events)@) == views::all(old(events)@) + (seq![
            WireEventView::ThinkingStart,
        ] + chunks(text@, THINKING_CHUNK as int).map_values(
            |d: Seq<char>| WireEventView::ThinkingDelta { delta: d },
        ) + seq![WireEventView::ThinkingEnd { signature: None }]),
        !thinking ==> views::all(final(events)@) == views::all(old(events)@) + (seq![
            WireEventView::TextStart,
        ] + chunks(text@, TEXT_CHUNK as int).map_values(
            |d: Seq<char>| WireEventView::TextDelta { delta: d },
        ) + seq![WireEventView::TextEnd]),
{
    let ghost before = views::all(events@);
    let size: usize = if thinking {
        THINKING_CHUNK
    } else {
        TEXT_CHUNK
    };
    let parts: Vec<String> = chunks_exec(text, size);
    let ghost all = chunks(text@, size as int);
    let ghost f = |d: Seq<char>|
        if thinking {
            WireEventView::ThinkingDelta { delta: d }
        } else {
            WireEventView::TextDelta { delta: d }
        };
    if thinking {
        events.push(WireEvent::ThinkingStart);
    } else {
        events.push(WireEvent::TextStart);
    }
    let ghost opened = views::all(events@);
    let mut i: usize = 0;
    while i < parts.len()
        invariant
            i <= parts@.len(),
            views::all(parts@) == all,
            f == (|d: Seq<char>|
                if thinking {
                    WireEventView::ThinkingDelta { delta: d }
                } else {
                    WireEventView::TextDelta { delta: d }
                }),
            views::all(events@) == opened + all.take(i as int).map_values(f),
        decreases parts@.len() - i,
    {
        proof {
            views::lemma_take_step(all, i as int);
        }
        let delta: String = parts[i].clone();
        assert(delta@ == all[i as int]);
        if thinking {
            events.push(WireEvent::ThinkingDelta { delta });
        } else {
            events.push(WireEvent::TextDelta { delta });
        }
        assert(views::all(events@) =~= opened + all.take(i + 1).map_values(f));
        i = i + 1;
    }
    proof {
        views::lemma_take_all(all);
    }
    if thinking {
        events.push(WireEvent::ThinkingEnd { signature: None });
        assert(views::all(events@) =~= before + (seq![WireEventView::ThinkingStart] + chunks(
            text@,
            THINKING_CHUNK as int,
        ).map_values(|d: Seq<char>| WireEventView::ThinkingDelta { delta: d }) + seq![
            WireEventView::ThinkingEnd { signature: None },
        ]));
    } else {
        events.push(WireEvent::TextEnd);
        assert(views::all(events@) =~= before + (seq![WireEventView::TextStart] + chunks(
            text@,
            TEXT_CHUNK as int,
        ).map_values(|d: Seq<char>| WireEventView::TextDelta { delta: d }) + seq![
            WireEventView::TextEnd,
        ]));
    }
}

/// The events of a response, under the ids given.
pub fn events_with_ids(
    model: &Model,
    config: &FauxResponseConfig,
    call_ids: &Vec<String>,
    message_ids: &Vec<String>,
    now: i64,
) -> (r: Vec<WireEvent>)
    requires
        call_ids@.len() == config@.tool_calls.len(),
        message_ids@.len() == config@.tool_calls.len(),
    ensures
        views::all(r@) == events_with(
            model@,
            config@,
            views::all(call_ids@),
            views::all(message_ids@),
            now,
        ),
{
    let ghost c = config@;
    let mut events: Vec<WireEvent> = Vec::new();
    if let Some(e) = &config.error {
        events.push(WireEvent::Error { error: e.clone() });
        assert(views::all(events@) =~= seq![WireEventView::Error { error: c.error->0 }]);
        return events;
    }
    events.push(start_event(model, now));
    if let Some(t) = &config.thinking {
        push_chunks(&mut events, t.as_str(), true);
    }
    if !config.text.as_str().is_empty() {
        push_chunks(&mut events, config.text.as_str(), false);
    }
    let ghost head = views::all(events@);
    assert(head =~= seq![events::start_of(model@, now)] + thinking_events(c) + said_events(c));
    let ghost calls = c.tool_calls;
    let ghost ids = views::all(call_ids@);
    let null: Json = Json::Null;
    let mut i: usize = 0;
    proof {
        views::lemma_take_all(calls);
    }
    while i < config.tool_calls.len()
        invariant
            i <= config.tool_calls@.len(),
            c == config@,
            calls == c.tool_calls,
            call_ids@.len() == calls.len(),
            ids == views::all(call_ids@),
            null@ == JsonView::Null,
            views::all(events@) == head + calls_events(model@, calls.take(i as int), ids, now),
        decreases config.tool_calls@.len() - i,
    {
        proof {
            views::lemma_take_step(calls, i as int);
        }
        let (name, arguments) = &config.tool_calls[i];
        assert(calls[i as int] == (name@, arguments@));
        push_call_events(
            &mut events,
            model,
            i,
            call_ids[i].as_str(),
            name.as_str(),
            &null,
            arguments,
            now,
        );
        assert(views::all(events@) =~= head + calls_events(model@, calls.take(i + 1), ids, now));
        i = i + 1;
    }
    proof {
        views::lemma_take_all(calls);
    }
    let message: AssistantMessage = message_with_ids(model, config, message_ids, now);
    let mut usage: Usage = Usage::default();
    usage.input = config.input_tokens;
    usage.output = config.output_tokens;
    usage.cost = calculate_usage_cost(config.input_tokens, config.output_tokens, 0, 0, model);
    assert(usage@ == usage_of(model@, c));
    events.push(WireEvent::Usage { usage });
    events.push(WireEvent::Done { reason: config.stop_reason.clone(), message });
    assert(views::all(events@) =~= events_with(
        model@,
        c,
        ids,
        views::all(message_ids@),
        now,
    ));
    events
}

/// The events of a response, under fresh ids.
pub fn response_events(model: &Model, config: &FauxResponseConfig, now: i64) -> (r: Vec<WireEvent>)
    ensures
        exists|call_ids: Seq<Seq<char>>, message_ids: Seq<Seq<char>>|
            are_ids(call_ids, config@.tool_calls.len()) && are_ids(
                message_ids,
                config@.tool_calls.len(),
            ) && views::all(r@) == #[trigger] events_with(
                model@,
                config@,
                call_ids,
                message_ids,
                now,
            ),
{
    let call_ids: Vec<String> = fresh_ids(config.tool_calls.len());
    let message_ids: Vec<String> = fresh_ids(config.tool_calls.len());
    let r: Vec<WireEvent> = events_with_ids(model, config, &call_ids, &message_ids, now);
    assert(views::all(r@) == events_with(
        model@,
        config@,
        views::all(call_ids@),
        views::all(message_ids@),
        now,
    ));
    r
}

/// What a whole request comes to: the error that was told, or the message.
pub fn complete_response(model: &Model, config: &FauxResponseConfig, now: i64) -> (r: Result<
    AssistantMessage,
    String,
>)
    ensures
        match config@.error {
            Some(e) => r is Err && r->Err_0@ == e,
            None => r is Ok && exists|ids: Seq<Seq<char>>|
                are_ids(ids, config@.tool_calls.len()) && r->Ok_0@ == #[trigger] message_with(
                    model@,
                    config@,
                    ids,
                    now,
                ),
        },
{
    match &config.error {
        Some(e) => Err(e.clone()),
        None => Ok(build_assistant_message(model, config, now)),
    }
}

proof fn lemma_joined_front(a: Seq<char>, rest: Seq<Seq<char>>)
    ensures
        crate::text::joined(seq![a] + rest, Seq::empty()) == a + crate::text::joined(
            rest,
            Seq::empty(),
        ),
    decreases rest.len(),
{
    let all = seq![a] + rest;
    if rest.len() == 0 {
        assert(crate::text::joined(all, Seq::empty()) =~= a);
        assert(a + crate::text::joined(rest, Seq::empty()) =~= a);
    } else {
        lemma_joined_front(a, rest.drop_last());
        assert(all.drop_last() =~= seq![a] + rest.drop_last());
        assert(crate::text::joined(all, Seq::empty()) =~= a + crate::text::joined(
            rest,
            Seq::empty(),
        ));
    }
}

/// The deltas of a response, one after the other, are its text.
pub proof fn law_chunks_add_up(text: Seq<char>, n: int)
    requires
        n >= 1,
    ensures
        crate::text::joined(chunks(text, n), Seq::empty()) == text,
    decreases text.len(),
{
    if text.len() == 0 {
        assert(crate::text::joined(chunks(text, n), Seq::empty()) =~= text);
    } else if text.len() > n {
        law_chunks_add_up(text.skip(n), n);
        lemma_joined_front(text.take(n), chunks(text.skip(n), n));
        assert(text =~= text.take(n) + text.skip(n));
    }
}

/// The text that events tell.
pub open spec fn text_told(told: Seq<WireEventView>) -> Seq<char>
    decreases told.len(),
{
    if told.len() == 0 {
        Seq::empty()
    } else {
        text_told(told.drop_last()) + match told.last() {
            WireEventView::TextDelta { delta } => delta,
            _ => Seq::empty(),
        }
    }
}

/// The thinking that events tell.
pub open spec fn thinking_told(told: Seq<WireEventView>) -> Seq<char>
    decreases told.len(),
{
    if told.len() == 0 {
        Seq::empty()
    } else {
        thinking_told(told.drop_last()) + match told.last() {
            WireEventView::ThinkingDelta { delta } => delta,
            _ => Seq::empty(),
        }
    }
}

/// The tool calls that events tell.
pub open spec fn calls_told(told: Seq<WireEventView>) -> Seq<BlockView>
    decreases told.len(),
{
    if told.len() == 0 {
        Seq::empty()
    } else {
        calls_told(told.drop_last()) + match told.last() {
            WireEventView::ToolcallEnd { tool_call } => seq![tool_call],
            _ => Seq::empty(),
        }
    }
}

proof fn lemma_told_add(a: Seq<WireEventView>, b: Seq<WireEventView>)
    ensures
        text_told(a + b) == text_told(a) + text_told(b),
        thinking_told(a + b) == thinking_told(a) + thinking_told(b),
        calls_told(a + b) == calls_told(a) + calls_told(b),
    decreases b.len(),
{
    if b.len() == 0 {
        assert(a + b =~= a);
        assert(text_told(a) + text_told(b) =~= text_told(a));
        assert(thinking_told(a) + thinking_told(b) =~= thinking_told(a));
        assert(calls_told(a) + calls_told(b) =~= calls_told(a));
    } else {
        lemma_told_add(a, b.drop_last());
        assert((a + b).drop_last() =~= a + b.drop_last());
        assert((a + b).last() == b.last());
        assert(text_told(a + b) =~= text_told(a) + text_told(b));
        assert(thinking_told(a + b) =~= thinking_told(a) + thinking_told(b));
        assert(calls_told(a + b) =~= calls_told(a) + calls_told(b));
    }
}

proof fn lemma_told_one(e: WireEventView)
    ensures
        text_told(seq![e]) == match e {
            WireEventView::TextDelta { delta } => delta,
            _ => Seq::empty(),
        },
        thinking_told(seq![e]) == match e {
            WireEventView::ThinkingDelta { delta } => delta,
            _ => Seq::empty(),
        },
        calls_told(seq![e]) == match e {
            WireEventView::ToolcallEnd { tool_call } => seq![tool_call],
            _ => Seq::empty(),
        },
{
    reveal_with_fuel(text_told, 2);
    reveal_with_fuel(thinking_told, 2);
    reveal_with_fuel(calls_told, 2);
    let s = seq![e];
    assert(s.drop_last() =~= Seq::empty());
    assert(text_told(s) =~= match e {
        WireEventView::TextDelta { delta } => delta,
        _ => Seq::empty(),
    });
    assert(thinking_told(s) =~= match e {
        WireEventView::ThinkingDelta { delta } => delta,
        _ => Seq::empty(),
    });
    assert(calls_told(s) =~= match e {
        WireEventView::ToolcallEnd { tool_call } => seq![tool_call],
        _ => Seq::empty(),
    });
}

proof fn lemma_pieces_told(pieces: Seq<Seq<char>>)
    ensures
        ({
            let said = pieces.map_values(|d: Seq<char>| WireEventView::TextDelta { delta: d });
            &&& text_told(said) == crate::text::joined(pieces, Seq::empty())
            &&& thinking_told(said) == Seq::<char>::empty()
            &&& calls_told(said) == Seq::<BlockView>::empty()
        }),
        ({
            let thought = pieces.map_values(
                |d: Seq<char>| WireEventView::ThinkingDelta { delta: d },
            );
            &&& thinking_told(thought) == crate::text::joined(pieces, Seq::empty())
            &&& text_told(thought) == Seq::<char>::empty()
            &&& calls_told(thought) == Seq::<BlockView>::empty()
        }),
    decreases pieces.len(),
{
    let f = |d: Seq<char>| WireEventView::TextDelta { delta: d };
    let g = |d: Seq<char>| WireEventView::ThinkingDelta { delta: d };
    if pieces.len() > 0 {
        lemma_pieces_told(pieces.drop_last());
        assert(pieces.map_values(f).drop_last() =~= pieces.drop_last().map_values(f));
        assert(pieces.map_values(g).drop_last() =~= pieces.drop_last().map_values(g));
        if pieces.len() == 1 {
            assert(pieces.drop_last() =~= Seq::empty());
        }
        assert(text_told(pieces.map_values(f)) =~= crate::text::joined(pieces, Seq::empty()));
        assert(thinking_told(pieces.map_values(g)) =~= crate::text::joined(pieces, Seq::empty()));
    }
}

proof fn lemma_calls_told(
    model: ModelView,
    calls: Seq<(Seq<char>, JsonView)>,
    ids: Seq<Seq<char>>,
    now: i64,
)
    ensures
        ({
            let told = calls_events(model, calls, ids, now);
            &&& calls_told(told) == Seq::new(
                calls.len(),
                |i: int|
                    BlockView::ToolCall { id: ids[i], name: calls[i].0, arguments: calls[i].1 },
            )
            &&& text_told(told) == Seq::<char>::empty()
            &&& thinking_told(told) == Seq::<char>::empty()
        }),
    decreases calls.len(),
{
    let told = calls_events(model, calls, ids, now);
    let made = Seq::new(
        calls.len(),
        |i: int| BlockView::ToolCall { id: ids[i], name: calls[i].0, arguments: calls[i].1 },
    );
    if calls.len() > 0 {
        let i = calls.len() - 1;
        let front = calls_events(model, calls.drop_last(), ids, now);
        lemma_calls_told(model, calls.drop_last(), ids, now);
        let back = told.skip(front.len() as int);
        assert(told =~= front + back);
        assert(back =~= seq![back[0]] + seq![back[1]] + seq![back[2]]);
        lemma_told_one(back[0]);
        lemma_told_one(back[1]);
        lemma_told_one(back[2]);
        lemma_told_add(seq![back[0]], seq![back[1]]);
        lemma_told_add(seq![back[0]] + seq![back[1]], seq![back[2]]);
        lemma_told_add(front, back);
        assert(back[2] == WireEventView::ToolcallEnd { tool_call: made[i] });
        assert(calls_told(told) =~= made);
        assert(text_told(told) =~= Seq::<char>::empty());
        assert(thinking_told(told) =~= Seq::<char>::empty());
    } else {
        assert(calls_told(told) =~= made);
    }
}

/// The events of a response tell the text, the thinking and the tool calls that the provider was
/// told, each call under its id.
#[verifier::rlimit(40)]
pub proof fn law_events_tell_the_response(
    model: ModelView,
    c: ConfigView,
    call_ids: Seq<Seq<char>>,
    message_ids: Seq<Seq<char>>,
    now: i64,
)
    requires
        c.error is None,
    ensures
        ({
            let told = events_with(model, c, call_ids, message_ids, now);
            &&& text_told(told) == c.text
            &&& thinking_told(told) == views::or(c.thinking, Seq::empty())
            &&& calls_told(told).len() == c.tool_calls.len()
            &&& forall|i: int|
                0 <= i < c.tool_calls.len() ==> #[trigger] calls_told(told)[i]
                    == (BlockView::ToolCall {
                    id: call_ids[i],
                    name: c.tool_calls[i].0,
                    arguments: c.tool_calls[i].1,
                })
        }),
{
    let start = seq![events::start_of(model, now)];
    let thought = thinking_events(c);
    let said = said_events(c);
    let called = calls_events(model, c.tool_calls, call_ids, now);
    let usage = WireEventView::Usage { usage: usage_of(model, c) };
    let done = WireEventView::Done {
        reason: c.stop_reason,
        message: message_with(model, c, message_ids, now),
    };
    let end = seq![usage, done];
    let told = events_with(model, c, call_ids, message_ids, now);
    assert(told =~= start + thought + said + called + end);
    lemma_told_one(events::start_of(model, now));
    lemma_thinking_told(c);
    lemma_text_told(c);
    lemma_calls_told(model, c.tool_calls, call_ids, now);
    lemma_told_one(usage);
    lemma_told_one(done);
    assert(end =~= seq![usage] + seq![done]);
    lemma_told_add(seq![usage], seq![done]);
    lemma_told_add(start, thought);
    lemma_told_add(start + thought, said);
    lemma_told_add(start + thought + said, called);
    lemma_told_add(start + thought + said + called, end);
    assert(text_told(told) =~= c.text);
    assert(thinking_told(told) =~= views::or(c.thinking, Seq::empty()));
    assert(calls_told(told) =~= calls_told(called));
}

proof fn lemma_thinking_told(c: ConfigView)
    ensures
        thinking_told(thinking_events(c)) == views::or(c.thinking, Seq::empty()),
        text_told(thinking_events(c)) == Seq::<char>::empty(),
        calls_told(thinking_events(c)) == Seq::<BlockView>::empty(),
{
    if let Some(t) = c.thinking {
        let pieces = chunks(t, THINKING_CHUNK as int);
        let middle = pieces.map_values(|d: Seq<char>| WireEventView::ThinkingDelta { delta: d });
        let first = WireEventView::ThinkingStart;
        let last = WireEventView::ThinkingEnd { signature: None };
        law_chunks_add_up(t, THINKING_CHUNK as int);
        lemma_pieces_told(pieces);
        lemma_told_one(first);
        lemma_told_one(last);
        lemma_told_add(seq![first], middle);
        lemma_told_add(seq![first] + middle, seq![last]);
        assert(thinking_events(c) =~= seq![first] + middle + seq![last]);
        assert(thinking_told(thinking_events(c)) =~= t);
        assert(text_told(thinking_events(c)) =~= Seq::<char>::empty());
        assert(calls_told(thinking_events(c)) =~= Seq::<BlockView>::empty());
    }
}

proof fn lemma_text_told(c: ConfigView)
    ensures
        text_told(said_events(c)) == c.text,
        thinking_told(said_events(c)) == Seq::<char>::empty(),
        calls_told(said_events(c)) == Seq::<BlockView>::empty(),
{
    if c.text.len() > 0 {
        let pieces = chunks(c.text, TEXT_CHUNK as int);
        let middle = pieces.map_values(|d: Seq<char>| WireEventView::TextDelta { delta: d });
        let first = WireEventView::TextStart;
        let last = WireEventView::TextEnd;
        law_chunks_add_up(c.text, TEXT_CHUNK as int);
        lemma_pieces_told(pieces);
        lemma_told_one(first);
        lemma_told_one(last);
        lemma_told_add(seq![first], middle);
        lemma_told_add(seq![first] + middle, seq![last]);
        assert(said_events(c) =~= seq![first] + middle + seq![last]);
        assert(text_told(said_events(c)) =~= c.text);
        assert(thinking_told(said_events(c)) =~= Seq::<char>::empty());
        assert(calls_told(said_events(c)) =~= Seq::<BlockView>::empty());
    } else {
        assert(c.text =~= Seq::empty());
    }
}

/// A response opens with its model and ends with its usage and with its message, and a failure
/// that was told is all that is reported.
pub proof fn law_events_open_and_end(
    model: ModelView,
    c: ConfigView,
    call_ids: Seq<Seq<char>>,
    message_ids: Seq<Seq<char>>,
    now: i64,
)
    ensures
        ({
            let told = events_with(model, c, call_ids, message_ids, now);
            match c.error {
                Some(e) => told == seq![WireEventView::Error { error: e }],
                None => {
                    &&& told.len() >= 3
                    &&& told[0] matches WireEventView::Start { model: id, .. } && id == model.id
                    &&& told[told.len() - 2] matches WireEventView::Usage { usage } && usage.input
                        == c.input_tokens && usage.output == c.output_tokens
                    &&& told.last() matches WireEventView::Done { reason, message } && reason
                        == c.stop_reason && message == message_with(model, c, message_ids, now)
                },
            }
        }),
{
}

/// The message of a response holds the thinking, the text and the calls that the provider was
/// told, and is of the model that was asked.
pub proof fn law_message_holds_the_response(
    model: ModelView,
    c: ConfigView,
    ids: Seq<Seq<char>>,
    now: i64,
)
    ensures
        match message_with(model, c, ids, now) {
            MessageView::Assistant(a) => {
                let thoughts: int = if c.thinking is Some {
                    1
                } else {
                    0
                };
                let texts: int = if c.text.len() > 0 {
                    1
                } else {
                    0
                };
                &&& a.content.len() == thoughts + texts + c.tool_calls.len()
                &&& c.thinking is Some ==> a.content[0] == (BlockView::Thinking {
                    thinking: c.thinking->0,
                    signature: None,
                })
                &&& c.text.len() > 0 ==> a.content[thoughts] == (BlockView::Text {
                    text: c.text,
                    text_signature: None,
                })
                &&& forall|i: int|
                    0 <= i < c.tool_calls.len() ==> a.content[thoughts + texts + i]
                        == (BlockView::ToolCall {
                        id: ids[i],
                        name: (#[trigger] c.tool_calls[i]).0,
                        arguments: c.tool_calls[i].1,
                    })
                &&& a.model == Some(model.id)
                &&& a.provider == model.provider_id
                &&& a.api == model.api
                &&& a.stop_reason == Some(c.stop_reason)
                &&& a.timestamp == now
                &&& a.usage.input == c.input_tokens
                &&& a.usage.output == c.output_tokens
                &&& a.usage.cost.input.tokens == c.input_tokens
                &&& a.usage.cost.output.tokens == c.output_tokens
            },
            _ => false,
        },
{
    cost::law_counts_are_charged(
        model.cost_rates,
        cost::counted(c.input_tokens, c.output_tokens, 0, 0),
        0,
    );
}

/// All pieces of a text but the last are of one size, and the last is no longer.
pub proof fn law_pieces_are_of_one_size(text: Seq<char>, n: int, i: int)
    requires
        n >= 1,
        0 <= i < chunks(text, n).len(),
    ensures
        i < chunks(text, n).len() - 1 ==> chunks(text, n)[i].len() == n,
        1 <= chunks(text, n)[i].len() <= n,
    decreases text.len(),
{
    if text.len() > n && i > 0 {
        law_pieces_are_of_one_size(text.skip(n), n, i - 1);
        assert(chunks(text, n)[i] == chunks(text.skip(n), n)[i - 1]);
    }
}

/// Text comes four characters at a time, and thinking three.
pub proof fn law_response_comes_in_small_pieces(c: ConfigView, text: Seq<char>, thinking: Seq<char>)
    requires
        c.error is None,
        c.text == text,
        text.len() > 4,
        c.thinking == Some(thinking),
        thinking.len() > 3,
    ensures
        said_events(c)[1] == (WireEventView::TextDelta { delta: text.take(4) }),
        thinking_events(c)[1] == (WireEventView::ThinkingDelta { delta: thinking.take(3) }),
{
    let said = chunks(text, TEXT_CHUNK as int);
    let thought = chunks(thinking, THINKING_CHUNK as int);
    assert(said[0] == text.take(4));
    assert(thought[0] == thinking.take(3));
}

/// A provider that was told nothing greets, calls no tools, and counts nothing.
pub proof fn law_untold_provider_greets()
    ensures
        default_config().text == "Hello from Faux provider!"@,
        default_config().stop_reason == "end_turn"@,
        default_config().tool_calls.len() == 0,
        default_config().thinking is None,
        default_config().error is None,
        default_config().input_tokens == 0,
        default_config().output_tokens == 0,
        default_config().stream_delay_ms == 2,
{
}

} // verus!
