//! Entries of model catalogues.
use vstd::prelude::*;
use crate::codex::run::StreamEnd;
use crate::types;
use crate::types::{
    AssistantMessageEvent, AssistantView, CostTier, CostTierView, EventView, Message, MessageView,
    Model, ModelCostRates, ModelCostRatesView, ModelThinkingLevel, ModelView,
};
use crate::views;

verus! {

broadcast use crate::views::group_views;

/// How a maker writes the name of its family of models.
pub struct MakerName {
    /// In ids and addresses.
    pub word: String,
    /// In titles.
    pub title: String,
}

#[verifier::ext_equal]
pub struct MakerView {
    pub word: Seq<char>,
    pub title: Seq<char>,
}

impl View for MakerName {
    type V = MakerView;

    open spec fn view(&self) -> MakerView {
        MakerView { word: self.word@, title: self.title@ }
    }
}

/// A model that takes text and calls tools, at no price.
pub open spec fn chat_model(
    provider: Seq<char>,
    api: Seq<char>,
    id: Seq<char>,
    name: Seq<char>,
    max_input: u64,
    max_output: u64,
    window: u64,
) -> ModelView {
    ModelView {
        id,
        provider_id: provider,
        name,
        api,
        max_input_tokens: Some(max_input),
        max_output_tokens: Some(max_output),
        supports_images: false,
        supports_audio: false,
        supports_video: false,
        supports_pdf: false,
        supports_tool_calling: true,
        supports_structured_output: true,
        supports_system_prompt: true,
        thinking: ModelThinkingLevel::Off,
        reasoning: false,
        cost_rates: types::no_rates(),
        context_window: Some(window),
        default_temperature: Some("1.0"@),
        thinking_level_map: None,
    }
}

/// A model that takes text and calls tools, at no price.
pub fn new_chat_model(
    provider: &str,
    api: &str,
    id: &str,
    name: &str,
    max_input: u64,
    max_output: u64,
    window: u64,
) -> (r: Model)
    ensures
        r@ == chat_model(provider@, api@, id@, name@, max_input, max_output, window),
{
    Model {
        id: id.to_owned(),
        provider_id: provider.to_owned(),
        name: name.to_owned(),
        api: api.to_owned(),
        max_input_tokens: Some(max_input),
        max_output_tokens: Some(max_output),
        supports_images: false,
        supports_audio: false,
        supports_video: false,
        supports_pdf: false,
        supports_tool_calling: true,
        supports_structured_output: true,
        supports_system_prompt: true,
        thinking: ModelThinkingLevel::Off,
        reasoning: false,
        cost_rates: ModelCostRates::default(),
        context_window: Some(window),
        default_temperature: Some("1.0".to_owned()),
        thinking_level_map: None,
    }
}

/// Prices of input and output, per million tokens.
pub open spec fn priced(input: Seq<char>, output: Seq<char>) -> ModelCostRatesView {
    ModelCostRatesView {
        input_per_million: Some(input),
        output_per_million: Some(output),
        ..types::no_rates()
    }
}

/// Prices of input and output, per million tokens.
pub fn prices(input: &str, output: &str) -> (r: ModelCostRates)
    ensures
        r@ == priced(input@, output@),
{
    let mut rates: ModelCostRates = ModelCostRates::default();
    rates.input_per_million = Some(input.to_owned());
    rates.output_per_million = Some(output.to_owned());
    rates
}

/// Prices of input, output and the cache, per million tokens.
pub open spec fn cache_priced(
    input: Seq<char>,
    output: Seq<char>,
    read: Seq<char>,
    write: Seq<char>,
) -> ModelCostRatesView {
    ModelCostRatesView {
        input_cache_read_per_million: Some(read),
        input_cache_write_per_million: Some(write),
        ..priced(input, output)
    }
}

/// Prices of input, output and the cache, per million tokens.
pub fn cache_prices(input: &str, output: &str, read: &str, write: &str) -> (r: ModelCostRates)
    ensures
        r@ == cache_priced(input@, output@, read@, write@),
{
    let mut rates: ModelCostRates = prices(input, output);
    rates.input_cache_read_per_million = Some(read.to_owned());
    rates.input_cache_write_per_million = Some(write.to_owned());
    rates
}

/// Prices of input, output and the cache from so many tokens on.
pub open spec fn tier(
    above: u64,
    input: Seq<char>,
    output: Seq<char>,
    read: Seq<char>,
    write: Seq<char>,
) -> CostTierView {
    CostTierView {
        input_tokens_above: above,
        input_per_million: input,
        output_per_million: output,
        cache_read_per_million: read,
        cache_write_per_million: write,
    }
}

/// Adds prices from so many tokens on.
pub fn add_tier(
    rates: &mut ModelCostRates,
    above: u64,
    input: &str,
    output: &str,
    read: &str,
    write: &str,
)
    ensures
        final(rates)@ == (ModelCostRatesView {
            tiers: old(rates)@.tiers.push(tier(above, input@, output@, read@, write@)),
            ..old(rates)@
        }),
{
    rates.tiers.push(
        CostTier {
            input_tokens_above: above,
            input_per_million: input.to_owned(),
            output_per_million: output.to_owned(),
            cache_read_per_million: read.to_owned(),
            cache_write_per_million: write.to_owned(),
        },
    );
}

/// A model with its provider and wire protocol filled in where it does not name them.
pub open spec fn filled_in(m: ModelView, provider: Seq<char>, api: Seq<char>) -> ModelView {
    ModelView {
        provider_id: if m.provider_id.len() == 0 {
            provider
        } else {
            m.provider_id
        },
        api: if m.api.len() == 0 {
            api
        } else {
            m.api
        },
        ..m
    }
}

/// Models with their provider and wire protocol filled in.
pub open spec fn all_filled_in(
    models: Seq<ModelView>,
    provider: Seq<char>,
    api: Seq<char>,
) -> Seq<ModelView> {
    models.map_values(|m: ModelView| filled_in(m, provider, api))
}

/// Fills in the provider and the wire protocol of models.
pub fn fill_in(models: Vec<Model>, provider: &str, api: &str) -> (r: Vec<Model>)
    ensures
        views::all(r@) == all_filled_in(views::all(models@), provider@, api@),
{
    let ghost all = views::all(models@);
    let mut out: Vec<Model> = Vec::new();
    let mut i: usize = 0;
    while i < models.len()
        invariant
            i <= models@.len(),
            out@.len() == i,
            all == views::all(models@),
            forall|j: int|
                0 <= j < i ==> #[trigger] views::all(out@)[j] == filled_in(
                    all[j],
                    provider@,
                    api@,
                ),
        decreases models@.len() - i,
    {
        let ghost before = views::all(out@);
        let mut m: Model = models[i].clone();
        if m.provider_id.as_str().is_empty() {
            m.provider_id = provider.to_owned();
        }
        if m.api.as_str().is_empty() {
            m.api = api.to_owned();
        }
        assert(m@ == filled_in(all[i as int], provider@, api@));
        out.push(m);
        assert(forall|j: int| 0 <= j < i ==> #[trigger] views::all(out@)[j] == before[j]);
        i = i + 1;
    }
    assert(views::all(out@) =~= all_filled_in(all, provider@, api@));
    out
}

/// The end of a stream of a provider that cannot stream.
pub open spec fn unavailable(id: Seq<char>, error: Seq<char>, now: i64) -> (EventView, MessageView) {
    (
        EventView::Error { reason: "error"@, error },
        MessageView::Assistant(
            AssistantView { error_message: Some(error), ..types::empty_assistant(id, id, now) },
        ),
    )
}

/// Ends a stream of a provider that cannot stream.
pub fn end_unavailable(id: &str, error: String, now: i64) -> (r: StreamEnd)
    ensures
        r.event@ == unavailable(id@, error@, now).0,
        views::opt(r.result) == Some(unavailable(id@, error@, now).1),
{
    let message: Message = Message::assistant_default(
        id.to_owned(),
        id.to_owned(),
        now,
    ).with_error_message(error.clone());
    StreamEnd {
        event: AssistantMessageEvent::Error { reason: "error".to_owned(), error },
        result: Some(message),
    }
}

/// A model is listed as it is told, calls tools, and asks nothing until it has prices.
pub proof fn law_listed_model_is_as_told(
    provider: Seq<char>,
    api: Seq<char>,
    id: Seq<char>,
    name: Seq<char>,
    max_input: u64,
    max_output: u64,
    window: u64,
)
    ensures
        ({
            let m = chat_model(provider, api, id, name, max_input, max_output, window);
            &&& m.id == id
            &&& m.provider_id == provider
            &&& m.api == api
            &&& m.name == name
            &&& m.max_input_tokens == Some(max_input)
            &&& m.max_output_tokens == Some(max_output)
            &&& m.context_window == Some(window)
            &&& m.supports_tool_calling
            &&& m.supports_structured_output
            &&& m.supports_system_prompt
            &&& !m.supports_images && !m.supports_audio && !m.supports_video && !m.supports_pdf
            &&& !m.reasoning
            &&& m.cost_rates.input_per_million is None
            &&& m.cost_rates.output_per_million is None
        }),
{
}

/// Prices are each what they were told to be.
pub proof fn law_prices_are_as_told(
    above: u64,
    input: Seq<char>,
    output: Seq<char>,
    read: Seq<char>,
    write: Seq<char>,
)
    ensures
        ({
            let p = priced(input, output);
            &&& p.input_per_million == Some(input)
            &&& p.output_per_million == Some(output)
            &&& p.input_cache_read_per_million is None
            &&& p.input_cache_write_per_million is None
            &&& p.tiers.len() == 0
        }),
        ({
            let p = cache_priced(input, output, read, write);
            &&& p.input_per_million == Some(input)
            &&& p.output_per_million == Some(output)
            &&& p.input_cache_read_per_million == Some(read)
            &&& p.input_cache_write_per_million == Some(write)
            &&& p.tiers.len() == 0
        }),
        ({
            let t = tier(above, input, output, read, write);
            &&& t.input_tokens_above == above
            &&& t.input_per_million == input
            &&& t.output_per_million == output
            &&& t.cache_read_per_million == read
            &&& t.cache_write_per_million == write
        }),
{
}

/// A model keeps the provider and the protocol that it names, and gets those that it does not
/// name; nothing else changes, and no model is lost.
pub proof fn law_missing_names_are_filled_in(
    models: Seq<ModelView>,
    provider: Seq<char>,
    api: Seq<char>,
    i: int,
)
    requires
        0 <= i < models.len(),
    ensures
        all_filled_in(models, provider, api).len() == models.len(),
        ({
            let m = models[i];
            let n = all_filled_in(models, provider, api)[i];
            &&& m.provider_id.len() > 0 ==> n.provider_id == m.provider_id
            &&& m.provider_id.len() == 0 ==> n.provider_id == provider
            &&& m.api.len() > 0 ==> n.api == m.api
            &&& m.api.len() == 0 ==> n.api == api
            &&& n == (ModelView { provider_id: n.provider_id, api: n.api, ..m })
        }),
{
}

/// A provider that cannot stream reports the same error twice: as an event and in its message.
pub proof fn law_unavailable_provider_says_why(id: Seq<char>, error: Seq<char>, now: i64)
    ensures
        match unavailable(id, error, now) {
            (EventView::Error { reason, error: said }, MessageView::Assistant(a)) => {
                &&& reason == "error"@
                &&& said == error
                &&& a.error_message == Some(error)
                &&& a.provider == id
                &&& a.timestamp == now
                &&& a.content.len() == 0
            },
            _ => false,
        },
{
}

} // verus!
