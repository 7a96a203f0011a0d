//! A provider that answers from a script.
use vstd::prelude::*;
use crate::auth::types as auth_types;
use crate::auth::types::{
    ApiKeyAuth, ApiKeyCredential, AuthCheck, AuthContext, AuthInteraction, AuthResult,
};
use crate::dict;
use crate::dict::Dict;
use crate::faux::content;
use crate::faux::content::{
    clone_message, create_error_message, error_str, faux_assistant_message,
    FauxAssistantMessageOptions, FauxContentInput, DEFAULT_API, DEFAULT_MODEL_ID,
    DEFAULT_MODEL_NAME, DEFAULT_OFFERED_ID, DEFAULT_PROVIDER,
};
use crate::faux::deltas;
use crate::faux::deltas::{stream_with_deltas, DeltaStep, DeltaStepView, DeltaStream};
use crate::faux::estimate;
use crate::faux::estimate::with_usage_estimate;
use crate::text::same_text;
use crate::types;
use crate::types::{
    clone_models, find_model, ApiStreamOptions, AssistantMessage, AssistantMessageEvent,
    AssistantView, BlockView, CancellationToken, Context, ContextView, EventView, Message, MessageView, Model,
    ModelCostRates, ModelCostRatesView, ModelThinkingLevel, ModelView, SimpleStreamOptions,
};
use crate::views;

verus! {

broadcast use crate::views::group_views;

pub const DEFAULT_MIN_TOKEN_SIZE: usize = 3;

pub const DEFAULT_MAX_TOKEN_SIZE: usize = 5;

/// How often a scripted provider was asked.
#[derive(Debug, Clone, Copy, PartialEq, Eq, Structural)]
pub struct FauxProviderState {
    pub call_count: u64,
    pub deferred_fetch_count: u64,
}

impl Default for FauxProviderState {
    fn default() -> (r: FauxProviderState)
        ensures
            r.call_count == 0,
            r.deferred_fetch_count == 0,
    {
        FauxProviderState { call_count: 0, deferred_fetch_count: 0 }
    }
}

/// An answer of the script: a message, or the number of a function that makes one.
pub enum FauxResponseStep {
    Message(AssistantMessage),
    Factory(u64),
}

pub enum ResponseStepView {
    Message(MessageView),
    Factory(u64),
}

impl View for FauxResponseStep {
    type V = ResponseStepView;

    open spec fn view(&self) -> ResponseStepView {
        match *self {
            FauxResponseStep::Message(m) => ResponseStepView::Message(m@),
            FauxResponseStep::Factory(n) => ResponseStepView::Factory(n),
        }
    }
}

/// A model that a scripted provider offers.
pub struct FauxModelDefinition {
    pub id: String,
    pub name: Option<String>,
    pub reasoning: bool,
    pub context_window: Option<u64>,
    pub max_tokens: Option<u64>,
    pub supports_images: bool,
    pub cost_rates: ModelCostRates,
}

#[verifier::ext_equal]
pub struct DefinitionView {
    pub id: Seq<char>,
    pub name: Option<Seq<char>>,
    pub reasoning: bool,
    pub context_window: Option<u64>,
    pub max_tokens: Option<u64>,
    pub supports_images: bool,
    pub cost_rates: ModelCostRatesView,
}

impl View for FauxModelDefinition {
    type V = DefinitionView;

    open spec fn view(&self) -> DefinitionView {
        DefinitionView {
            id: self.id@,
            name: views::opt(self.name),
            reasoning: self.reasoning,
            context_window: self.context_window,
            max_tokens: self.max_tokens,
            supports_images: self.supports_images,
            cost_rates: self.cost_rates@,
        }
    }
}

/// The model of a provider that is not told otherwise.
pub open spec fn default_definition() -> DefinitionView {
    DefinitionView {
        id: DEFAULT_OFFERED_ID@,
        name: Some(DEFAULT_MODEL_NAME@),
        reasoning: false,
        context_window: Some(128_000),
        max_tokens: Some(16_384),
        supports_images: true,
        cost_rates: types::no_rates(),
    }
}

impl Default for FauxModelDefinition {
    fn default() -> (r: FauxModelDefinition)
        ensures
            r@ == default_definition(),
    {
        FauxModelDefinition {
            id: DEFAULT_OFFERED_ID.to_owned(),
            name: Some(DEFAULT_MODEL_NAME.to_owned()),
            reasoning: false,
            context_window: Some(128_000),
            max_tokens: Some(16_384),
            supports_images: true,
            cost_rates: ModelCostRates::default(),
        }
    }
}

/// What a scripted provider may be told.
pub struct RegisterFauxProviderOptions {
    pub api: Option<String>,
    pub provider: Option<String>,
    pub models: Vec<FauxModelDefinition>,
    pub tokens_per_second: Option<u64>,
    /// The least and the greatest size of a piece.
    pub token_size: Option<(usize, usize)>,
}

impl Default for RegisterFauxProviderOptions {
    fn default() -> (r: RegisterFauxProviderOptions)
        ensures
            r.api is None,
            r.provider is None,
            views::all(r.models@) == seq![default_definition()],
            r.tokens_per_second is None,
            r.token_size is None,
    {
        let mut models: Vec<FauxModelDefinition> = Vec::new();
        models.push(FauxModelDefinition::default());
        assert(views::all(models@) =~= seq![default_definition()]);
        RegisterFauxProviderOptions {
            api: None,
            provider: None,
            models,
            tokens_per_second: None,
            token_size: None,
        }
    }
}

/// A model as a scripted provider offers it.
pub open spec fn offered(d: DefinitionView, api: Seq<char>, provider: Seq<char>) -> ModelView {
    ModelView {
        id: d.id,
        provider_id: provider,
        name: views::or(d.name, d.id),
        api,
        max_input_tokens: None,
        max_output_tokens: d.max_tokens,
        supports_images: d.supports_images,
        supports_audio: false,
        supports_video: false,
        supports_pdf: false,
        supports_tool_calling: true,
        supports_structured_output: false,
        supports_system_prompt: true,
        thinking: if d.reasoning {
            ModelThinkingLevel::Medium
        } else {
            ModelThinkingLevel::Off
        },
        reasoning: d.reasoning,
        cost_rates: d.cost_rates,
        context_window: d.context_window,
        default_temperature: None,
        thinking_level_map: None,
    }
}

fn offered_exec(d: &FauxModelDefinition, api: &str, provider: &str) -> (r: Model)
    ensures
        r@ == offered(d@, api@, provider@),
{
    let name: String = match &d.name {
        Some(n) => n.clone(),
        None => d.id.clone(),
    };
    Model {
        id: d.id.clone(),
        provider_id: provider.to_owned(),
        name,
        api: api.to_owned(),
        max_input_tokens: None,
        max_output_tokens: d.max_tokens,
        supports_images: d.supports_images,
        supports_audio: false,
        supports_video: false,
        supports_pdf: false,
        supports_tool_calling: true,
        supports_structured_output: false,
        supports_system_prompt: true,
        thinking: if d.reasoning {
            ModelThinkingLevel::Medium
        } else {
            ModelThinkingLevel::Off
        },
        reasoning: d.reasoning,
        cost_rates: d.cost_rates.clone(),
        context_window: d.context_window,
        default_temperature: None,
        thinking_level_map: None,
    }
}

/// The models of a provider: the default one where none is defined.
pub open spec fn offered_all(
    defs: Seq<DefinitionView>,
    api: Seq<char>,
    provider: Seq<char>,
) -> Seq<ModelView> {
    let list = if defs.len() == 0 {
        seq![default_definition()]
    } else {
        defs
    };
    list.map_values(|d: DefinitionView| offered(d, api, provider))
}

/// The least size of a piece: one token at least.
pub open spec fn least_size(token_size: Option<(usize, usize)>) -> usize {
    let n = match token_size {
        Some((mn, mx)) => if mn <= mx {
            mn
        } else {
            mx
        },
        None => DEFAULT_MIN_TOKEN_SIZE,
    };
    if n < 1 {
        1
    } else {
        n
    }
}

/// The greatest size of a piece: the least size at least.
pub open spec fn greatest_size(token_size: Option<(usize, usize)>) -> usize {
    let n = match token_size {
        Some((_, mx)) => mx,
        None => DEFAULT_MAX_TOKEN_SIZE,
    };
    if n < least_size(token_size) {
        least_size(token_size)
    } else {
        n
    }
}

/// A scripted provider: what it offers, the answers that are left, the prompts that
/// it remembers and how often it was asked.
pub struct FauxCore {
    pub api: String,
    pub provider_id: String,
    pub models: Vec<Model>,
    pub min_token_size: usize,
    pub max_token_size: usize,
    pub tokens_per_second: Option<u64>,
    pub pending_responses: Vec<FauxResponseStep>,
    pub prompt_cache: Dict<String>,
    pub state: FauxProviderState,
}

#[verifier::ext_equal]
pub struct CoreView {
    pub api: Seq<char>,
    pub provider_id: Seq<char>,
    pub models: Seq<ModelView>,
    pub min_token_size: usize,
    pub max_token_size: usize,
    pub tokens_per_second: Option<u64>,
    pub pending: Seq<ResponseStepView>,
    pub prompts: Map<Seq<char>, Seq<char>>,
    pub state: FauxProviderState,
}

impl View for FauxCore {
    type V = CoreView;

    open spec fn view(&self) -> CoreView {
        CoreView {
            api: self.api@,
            provider_id: self.provider_id@,
            models: views::all(self.models@),
            min_token_size: self.min_token_size,
            max_token_size: self.max_token_size,
            tokens_per_second: self.tokens_per_second,
            pending: views::all(self.pending_responses@),
            prompts: dict::texts(self.prompt_cache@),
            state: self.state,
        }
    }
}

/// A scripted provider that was not asked yet.
pub open spec fn new_core(
    api: Option<Seq<char>>,
    provider: Option<Seq<char>>,
    defs: Seq<DefinitionView>,
    tokens_per_second: Option<u64>,
    token_size: Option<(usize, usize)>,
) -> CoreView {
    let a = views::or(api, DEFAULT_API@);
    let p = views::or(provider, DEFAULT_PROVIDER@);
    CoreView {
        api: a,
        provider_id: p,
        models: offered_all(defs, a, p),
        min_token_size: least_size(token_size),
        max_token_size: greatest_size(token_size),
        tokens_per_second,
        pending: Seq::empty(),
        prompts: Map::empty(),
        state: FauxProviderState { call_count: 0, deferred_fetch_count: 0 },
    }
}

/// What a request that the script answers comes to: the stream and the prompts that
/// are remembered, where the answer can be counted and cut.
pub open spec fn answered(
    core: CoreView,
    resolved: MessageView,
    ctx: ContextView,
    session: Option<Seq<char>>,
    model_id: Seq<char>,
    now: i64,
) -> Option<(MessageView, Map<Seq<char>, Seq<char>>)> {
    estimate::with_usage(
        content::adopted(resolved, core.api, core.provider_id, model_id, now),
        ctx,
        session,
        core.prompts,
    )
}

/// The answer of a script that has none left.
pub open spec fn exhausted_message(
    core: CoreView,
    ctx: ContextView,
    model_id: Seq<char>,
    now: i64,
) -> MessageView {
    let e = content::error_message_of(
        "No more faux responses queued"@,
        core.api,
        core.provider_id,
        model_id,
        now,
    );
    MessageView::Assistant(
        AssistantView {
            usage: estimate::estimated(
                estimate::context_text(ctx),
                estimate::assistant_line(e.content),
                false,
                None,
            ),
            ..e
        },
    )
}

/// The answer that the next request gets, if one is left.
pub open spec fn next_answer(v: CoreView) -> Option<ResponseStepView> {
    if v.pending.len() == 0 {
        None
    } else {
        Some(v.pending[0])
    }
}

/// A provider behind a request: it is counted, and its answer is gone.
pub open spec fn after_request(v: CoreView) -> CoreView {
    CoreView {
        state: FauxProviderState { call_count: (v.state.call_count + 1) as u64, ..v.state },
        pending: if v.pending.len() == 0 {
            v.pending
        } else {
            v.pending.skip(1)
        },
        ..v
    }
}

/// The session of a request, where its prompts are cached.
pub open spec fn request_session(options: Option<SimpleStreamOptions>) -> Option<Seq<char>> {
    match options {
        Some(o) => estimate::caching_session(views::opt(o.session_id), o.cache_retention),
        None => None,
    }
}

fn remove_first(v: &mut Vec<FauxResponseStep>) -> (r: Option<FauxResponseStep>)
    ensures
        old(v)@.len() == 0 ==> r is None && final(v)@ == old(v)@,
        old(v)@.len() > 0 ==> r == Some(old(v)@[0]) && final(v)@ == old(v)@.skip(1),
{
    if v.len() == 0 {
        return None;
    }
    let ghost before = v@;
    let first: FauxResponseStep = v.remove(0);
    assert(v@ =~= before.skip(1));
    Some(first)
}

impl FauxCore {
    /// A scripted provider that was not asked yet.
    pub fn new(options: RegisterFauxProviderOptions) -> (r: FauxCore)
        ensures
            r@ == new_core(
                views::opt(options.api),
                views::opt(options.provider),
                views::all(options.models@),
                options.tokens_per_second,
                options.token_size,
            ),
            1 <= r@.min_token_size <= r@.max_token_size,
    {
        let min_candidate: usize = match options.token_size {
            Some((mn, mx)) => if mn <= mx {
                mn
            } else {
                mx
            },
            None => DEFAULT_MIN_TOKEN_SIZE,
        };
        let min_token_size: usize = if min_candidate < 1 {
            1
        } else {
            min_candidate
        };
        let max_candidate: usize = match options.token_size {
            Some((_, mx)) => mx,
            None => DEFAULT_MAX_TOKEN_SIZE,
        };
        let max_token_size: usize = if max_candidate < min_token_size {
            min_token_size
        } else {
            max_candidate
        };
        let api: String = match options.api {
            Some(a) => a,
            None => DEFAULT_API.to_owned(),
        };
        let provider_id: String = match options.provider {
            Some(p) => p,
            None => DEFAULT_PROVIDER.to_owned(),
        };
        let mut defs: Vec<FauxModelDefinition> = options.models;
        let ghost given = views::all(defs@);
        if defs.len() == 0 {
            defs.push(FauxModelDefinition::default());
        }
        let ghost list = if given.len() == 0 {
            seq![default_definition()]
        } else {
            given
        };
        assert(views::all(defs@) =~= list);
        let mut models: Vec<Model> = Vec::new();
        let mut i: usize = 0;
        while i < defs.len()
            invariant
                i <= defs@.len(),
                models@.len() == i,
                views::all(defs@) == list,
                forall|j: int|
                    0 <= j < i ==> #[trigger] views::all(models@)[j] == offered(
                        list[j],
                        api@,
                        provider_id@,
                    ),
            decreases defs@.len() - i,
        {
            let ghost before = views::all(models@);
            assert(defs@[i as int]@ == list[i as int]);
            models.push(offered_exec(&defs[i], api.as_str(), provider_id.as_str()));
            assert(forall|j: int| 0 <= j < i ==> #[trigger] views::all(models@)[j] == before[j]);
            i = i + 1;
        }
        assert(views::all(models@) =~= offered_all(given, api@, provider_id@));
        let prompt_cache: Dict<String> = Dict::new();
        assert(dict::texts(prompt_cache@) =~= Map::<Seq<char>, Seq<char>>::empty());
        FauxCore {
            api,
            provider_id,
            models,
            min_token_size,
            max_token_size,
            tokens_per_second: options.tokens_per_second,
            pending_responses: Vec::new(),
            prompt_cache,
            state: FauxProviderState::default(),
        }
    }

    /// Replaces the answers that are left.
    pub fn set_responses(&mut self, responses: Vec<FauxResponseStep>)
        ensures
            final(self)@ == (CoreView { pending: views::all(responses@), ..old(self)@ }),
    {
        self.pending_responses = responses;
    }

    /// Adds answers behind those that are left.
    pub fn append_responses(&mut self, responses: Vec<FauxResponseStep>)
        ensures
            final(self)@ == (CoreView {
                pending: old(self)@.pending + views::all(responses@),
                ..old(self)@
            }),
    {
        let mut more: Vec<FauxResponseStep> = responses;
        let ghost before = self.pending_responses@;
        let ghost added = more@;
        self.pending_responses.append(&mut more);
        assert(views::all(self.pending_responses@) =~= views::all(before) + views::all(added));
    }

    /// How many answers are left.
    pub fn pending_response_count(&self) -> (r: usize)
        ensures
            r == self@.pending.len(),
    {
        self.pending_responses.len()
    }

    /// How often the provider was asked.
    pub fn state(&self) -> (r: FauxProviderState)
        ensures
            r == self@.state,
    {
        self.state
    }

    /// The model asked for; the first where none is.
    pub fn get_model(&self, requested: Option<&str>) -> (r: Option<Model>)
        ensures
            views::opt(r) == (match requested {
                None => if self@.models.len() == 0 {
                    None
                } else {
                    Some(self@.models[0])
                },
                Some(id) => types::model_with_id(self@.models, id@),
            }),
    {
        match requested {
            None => if self.models.len() == 0 {
                None
            } else {
                Some(self.models[0].clone())
            },
            Some(id) => find_model(&self.models, id),
        }
    }

    /// Takes a request: it is counted, and the next answer leaves the script.
    pub fn take_request(&mut self) -> (r: Option<FauxResponseStep>)
        requires
            old(self)@.state.call_count < u64::MAX,
        ensures
            views::opt(r) == next_answer(old(self)@),
            final(self)@ == after_request(old(self)@),
    {
        let ghost v = self@;
        self.state.call_count = self.state.call_count + 1;
        let r: Option<FauxResponseStep> = remove_first(&mut self.pending_responses);
        assert(v.pending.len() > 0 ==> self@.pending =~= v.pending.skip(1));
        r
    }

    /// Answers a request with the message that its step came to: the stream of it,
    /// where its prompt can be counted and no drawn cut parts a character.
    pub fn resolve_response(
        &mut self,
        resolved: AssistantMessage,
        ctx: &Context,
        options: Option<&SimpleStreamOptions>,
        model: &Model,
        now: i64,
    ) -> (r: Option<DeltaStream>)
        requires
            1 <= old(self)@.min_token_size <= old(self)@.max_token_size,
            4 * old(self)@.max_token_size <= usize::MAX,
        ensures
            ({
                let v = old(self)@;
                let session = match options {
                    Some(o) => request_session(Some(*o)),
                    None => None,
                };
                match answered(v, resolved@, ctx@, session, model.id@, now) {
                    None => r is None && final(self)@ == v,
                    Some((m, prompts)) => {
                        &&& final(self)@ == (CoreView { prompts, ..v })
                        &&& deltas::is_some_stream(
                            m,
                            v.min_token_size as int,
                            v.max_token_size as int,
                            views::opt(r),
                        )
                        &&& deltas::can_be_cut(
                            deltas::blocks_of(m),
                            v.min_token_size as int,
                            v.max_token_size as int,
                        ) ==> r is Some
                        &&& r matches Some(s) ==> deltas::is_cut(
                            deltas::blocks_of(m),
                            s@.pieces,
                            v.min_token_size as int,
                            v.max_token_size as int,
                        ) && s@.wf()
                    },
                }
            }),
    {
        let adopted: AssistantMessage = clone_message(
            resolved,
            self.api.as_str(),
            self.provider_id.as_str(),
            model.id.as_str(),
            now,
        );
        match with_usage_estimate(adopted, ctx, options, &mut self.prompt_cache) {
            Some(m) => stream_with_deltas(m, self.min_token_size, self.max_token_size),
            None => None,
        }
    }

    /// Answers a request for which no step was left: the last event of its stream,
    /// and the message behind it.
    pub fn exhausted(&self, ctx: &Context, model: &Model, now: i64) -> (r: DeltaStep)
        ensures
            ({
                let m = exhausted_message(self@, ctx@, model.id@, now);
                r@ == (DeltaStepView {
                    events: seq![
                        EventView::Error { reason: "error"@, error: content::error_text(m) },
                    ],
                    wait_tokens: None,
                    ended: true,
                    result: Some(m),
                })
            }),
    {
        let e: AssistantMessage = create_error_message(
            "No more faux responses queued".to_owned(),
            self.api.as_str(),
            self.provider_id.as_str(),
            model.id.as_str(),
            now,
        );
        let mut unused: Dict<String> = Dict::new();
        let counted: Option<AssistantMessage> = with_usage_estimate(e, ctx, None, &mut unused);
        let mut events: Vec<AssistantMessageEvent> = Vec::new();
        match counted {
            Some(m) => {
                let error: String = error_str(&m);
                events.push(AssistantMessageEvent::Error { reason: "error".to_owned(), error });
                assert(views::all(events@) =~= seq![
                    EventView::Error { reason: "error"@, error: content::error_text(m@) },
                ]);
                DeltaStep { events, wait_tokens: None, ended: true, result: Some(m) }
            },
            None => {
                assert(false);
                DeltaStep { events, wait_tokens: None, ended: true, result: None }
            },
        }
    }
}

/// What a request with options of the wire counts as.
pub fn simple_options(options: ApiStreamOptions) -> (r: SimpleStreamOptions)
    ensures
        r.signal == options.signal,
        r.provider_extra == options.request_options.extra_body,
        r.session_id is None,
        r.cache_retention is None,
        r.temperature is None,
        r.max_tokens is None,
        r.response_format is None,
        r.tool_choice is None,
        r.thinking is None,
        r.reasoning is None,
        r.base_url is None,
{
    let mut simple: SimpleStreamOptions = SimpleStreamOptions::default();
    simple.signal = options.signal;
    simple.provider_extra = options.request_options.extra_body;
    simple
}

/// The key of a scripted provider.
pub struct FauxApiKeyAuth;

impl ApiKeyAuth for FauxApiKeyAuth {
    fn name(&self) -> (r: &str)
        ensures
            r@ == "Faux"@,
    {
        "Faux"
    }

    fn login<I: AuthInteraction>(&self, interaction: &I) -> (r: Result<ApiKeyCredential, String>)
        ensures
            r is Ok && r->Ok_0@ == auth_types::plain_key("faux-api-key"@),
    {
        Ok(ApiKeyCredential::from_key("faux-api-key".to_owned()))
    }

    fn check<C: AuthContext>(
        &self,
        ctx: &C,
        credential: Option<&ApiKeyCredential>,
        signal: &CancellationToken,
    ) -> (r: Option<AuthCheck>)
        ensures
            r is None,
    {
        None
    }

    fn resolve<C: AuthContext>(
        &self,
        ctx: &C,
        credential: Option<&ApiKeyCredential>,
        signal: &CancellationToken,
    ) -> (r: Option<AuthResult>)
        ensures
            r is None,
    {
        None
    }
}

/// A scripted provider as a collection of models takes it.
pub struct FauxProvider {
    pub api: String,
    pub provider_id: String,
    pub core: FauxCore,
}

impl FauxProvider {
    pub fn id(&self) -> (r: &str)
        ensures
            r@ == self.provider_id@,
    {
        self.provider_id.as_str()
    }

    pub fn name(&self) -> (r: &str)
        ensures
            r@ == self.provider_id@,
    {
        self.provider_id.as_str()
    }

    /// How requests are authorised.
    pub fn auth(&self) -> (r: FauxApiKeyAuth) {
        FauxApiKeyAuth
    }

    pub fn get_models(&self) -> (r: Vec<Model>)
        ensures
            views::all(r@) == self.core@.models,
    {
        clone_models(&self.core.models)
    }
}

/// A scripted provider with what it offers at hand.
pub struct FauxProviderHandle {
    pub api: String,
    pub models: Vec<Model>,
    pub core: FauxCore,
}

impl FauxProviderHandle {
    /// The provider itself.
    pub fn provider(self) -> (r: FauxProvider)
        ensures
            r.api@ == self.core@.api,
            r.provider_id@ == self.core@.provider_id,
            r.core == self.core,
    {
        FauxProvider {
            api: self.core.api.clone(),
            provider_id: self.core.provider_id.clone(),
            core: self.core,
        }
    }

    pub fn set_responses(&mut self, responses: Vec<FauxResponseStep>)
        ensures
            final(self).core@ == (CoreView { pending: views::all(responses@), ..old(self).core@ }),
            final(self).api == old(self).api,
            final(self).models == old(self).models,
    {
        self.core.set_responses(responses);
    }

    pub fn append_responses(&mut self, responses: Vec<FauxResponseStep>)
        ensures
            final(self).core@ == (CoreView {
                pending: old(self).core@.pending + views::all(responses@),
                ..old(self).core@
            }),
            final(self).api == old(self).api,
            final(self).models == old(self).models,
    {
        self.core.append_responses(responses);
    }

    pub fn get_pending_response_count(&self) -> (r: usize)
        ensures
            r == self.core@.pending.len(),
    {
        self.core.pending_response_count()
    }

    pub fn state(&self) -> (r: FauxProviderState)
        ensures
            r == self.core@.state,
    {
        self.core.state()
    }

    pub fn get_model(&self, id: Option<&str>) -> (r: Option<Model>)
        ensures
            views::opt(r) == (match id {
                None => if self.core@.models.len() == 0 {
                    None
                } else {
                    Some(self.core@.models[0])
                },
                Some(i) => types::model_with_id(self.core@.models, i@),
            }),
    {
        self.core.get_model(id)
    }
}

/// A scripted provider.
pub fn faux_provider(options: Option<RegisterFauxProviderOptions>) -> (r: FauxProviderHandle)
    ensures
        r.core@ == (match options {
            Some(o) => new_core(
                views::opt(o.api),
                views::opt(o.provider),
                views::all(o.models@),
                o.tokens_per_second,
                o.token_size,
            ),
            None => new_core(None, None, seq![default_definition()], None, None),
        }),
        r.api@ == r.core@.api,
        views::all(r.models@) == r.core@.models,
{
    let opts: RegisterFauxProviderOptions = match options {
        Some(o) => o,
        None => RegisterFauxProviderOptions::default(),
    };
    let core: FauxCore = FauxCore::new(opts);
    FauxProviderHandle { api: core.api.clone(), models: clone_models(&core.models), core }
}

/// A scripted provider that is used without a collection of models.
pub struct FauxRegistration {
    pub api: String,
    pub provider_id: String,
    pub models: Vec<Model>,
    pub core: FauxCore,
}

impl FauxRegistration {
    /// Whether what is at hand is that of the provider, and nothing but the script
    /// was changed since `before`.
    pub open spec fn keeps(self, before: FauxRegistration) -> bool {
        self.api == before.api && self.provider_id == before.provider_id && self.models
            == before.models
    }

    pub fn set_responses(&mut self, responses: Vec<FauxResponseStep>)
        ensures
            final(self).core@ == (CoreView { pending: views::all(responses@), ..old(self).core@ }),
            final(self).keeps(*old(self)),
    {
        self.core.set_responses(responses);
    }

    pub fn append_responses(&mut self, responses: Vec<FauxResponseStep>)
        ensures
            final(self).core@ == (CoreView {
                pending: old(self).core@.pending + views::all(responses@),
                ..old(self).core@
            }),
            final(self).keeps(*old(self)),
    {
        self.core.append_responses(responses);
    }

    pub fn get_pending_response_count(&self) -> (r: usize)
        ensures
            r == self.core@.pending.len(),
    {
        self.core.pending_response_count()
    }

    pub fn state(&self) -> (r: FauxProviderState)
        ensures
            r == self.core@.state,
    {
        self.core.state()
    }

    pub fn get_model(&self, id: Option<&str>) -> (r: Option<Model>)
        ensures
            views::opt(r) == (match id {
                None => if self.core@.models.len() == 0 {
                    None
                } else {
                    Some(self.core@.models[0])
                },
                Some(i) => types::model_with_id(self.core@.models, i@),
            }),
    {
        self.core.get_model(id)
    }

    /// Takes the script away: requests find no answer from then on.
    pub fn unregister(&mut self)
        ensures
            final(self).core@ == (CoreView { pending: Seq::empty(), ..old(self).core@ }),
            final(self).keeps(*old(self)),
    {
        let none: Vec<FauxResponseStep> = Vec::new();
        assert(views::all(none@) =~= Seq::<ResponseStepView>::empty());
        self.core.set_responses(none);
    }
}

/// A scripted provider that is used without a collection of models.
pub fn register_faux_provider(options: Option<RegisterFauxProviderOptions>) -> (r: FauxRegistration)
    ensures
        r.core@ == (match options {
            Some(o) => new_core(
                views::opt(o.api),
                views::opt(o.provider),
                views::all(o.models@),
                o.tokens_per_second,
                o.token_size,
            ),
            None => new_core(None, None, seq![default_definition()], None, None),
        }),
        r.api@ == r.core@.api,
        r.provider_id@ == r.core@.provider_id,
        views::all(r.models@) == r.core@.models,
        options is None ==> r.provider_id@ == "faux"@ && types::model_with_id(
            views::all(r.models@),
            "faux-mini"@,
        ) == Some(offered(default_definition(), "faux"@, "faux"@)),
{
    let opts: RegisterFauxProviderOptions = match options {
        Some(o) => o,
        None => RegisterFauxProviderOptions::default(),
    };
    let core: FauxCore = FauxCore::new(opts);
    FauxRegistration {
        api: core.api.clone(),
        provider_id: core.provider_id.clone(),
        models: clone_models(&core.models),
        core,
    }
}

/// A message as an answer of a script.
pub fn step_from_message(m: AssistantMessage) -> (r: FauxResponseStep)
    ensures
        r@ == ResponseStepView::Message(m@),
{
    FauxResponseStep::Message(m)
}

/// A text as an answer of a script.
pub fn step_from_string(s: String, now: i64) -> (r: FauxResponseStep)
    ensures
        r@ == ResponseStepView::Message(
            MessageView::Assistant(
                AssistantView {
                    content: seq![BlockView::Text { text: s@, text_signature: None }],
                    model: Some(DEFAULT_MODEL_ID@),
                    stop_reason: Some("stop"@),
                    ..types::empty_assistant(DEFAULT_API@, DEFAULT_PROVIDER@, now)
                },
            ),
        ),
{
    FauxResponseStep::Message(
        faux_assistant_message(
            FauxContentInput::Text(s),
            FauxAssistantMessageOptions::default(),
            now,
        ),
    )
}

/// What a whole request comes to, given the message behind its stream and the last
/// error that the stream reported: an error message is an answer like any other.
pub fn complete(message: AssistantMessage, last_error: Option<String>) -> (r: Result<
    AssistantMessage,
    String,
>)
    ensures
        ({
            let failed = match message@ {
                MessageView::Assistant(a) => a.stop_reason == Some("error"@),
                _ => false,
            };
            match r {
                Ok(m) => (failed || last_error is None) && m@ == message@,
                Err(e) => !failed && last_error is Some && e@ == last_error->0@,
            }
        }),
{
    let failed: bool = match message.stop_reason() {
        Some(s) => same_text(s, "error"),
        None => false,
    };
    if failed {
        return Ok(message);
    }
    match last_error {
        Some(e) => Err(e),
        None => Ok(message),
    }
}

/// A provider behind so many requests.
pub open spec fn after_requests(v: CoreView, n: nat) -> CoreView
    decreases n,
{
    if n == 0 {
        v
    } else {
        after_request(after_requests(v, (n - 1) as nat))
    }
}

proof fn lemma_after_requests(v: CoreView, n: nat)
    requires
        n <= v.pending.len(),
    ensures
        after_requests(v, n).pending == v.pending.skip(n as int),
    decreases n,
{
    if n == 0 {
        assert(v.pending.skip(0) =~= v.pending);
    } else {
        lemma_after_requests(v, (n - 1) as nat);
        assert(v.pending.skip(n - 1).skip(1) =~= v.pending.skip(n as int));
    }
}

/// Answers leave a script in the order in which they entered it: behind what was
/// there when they were added, one with every request.
pub proof fn law_script_keeps_order(v: CoreView, added: Seq<ResponseStepView>, i: int)
    requires
        0 <= i < added.len(),
    ensures
        ({
            let appended = CoreView { pending: v.pending + added, ..v };
            next_answer(after_requests(appended, (v.pending.len() + i) as nat)) == Some(added[i])
        }),
{
    let appended = CoreView { pending: v.pending + added, ..v };
    lemma_after_requests(appended, (v.pending.len() + i) as nat);
}

} // verus!
