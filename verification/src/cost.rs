//! What a response costs.
use vstd::prelude::*;
use crate::text::same_text;
use crate::types::{
    Charge, ChargeView, CostScale, CostTier, CostTierView, Model, ModelCostRatesView, Usage,
    UsageCost, UsageCostView, UsageView,
};
use crate::views;
use crate::views::clone_opt_text;

verus! {

/// The tokens by which a price tier is chosen: all but the output.
pub open spec fn priced_input(usage: UsageView) -> int {
    usage.input + usage.cache_read + usage.cache_write
}

/// The tier that holds for a number of tokens: of those that start below it
/// the one that starts highest, and the last of these where several do.
pub open spec fn effective_tier(tiers: Seq<CostTierView>, tokens: int) -> Option<CostTierView>
    decreases tiers.len(),
{
    if tiers.len() == 0 {
        None
    } else {
        let before = effective_tier(tiers.drop_last(), tokens);
        let last = tiers.last();
        if tokens > last.input_tokens_above && (match before {
            Some(t) => last.input_tokens_above >= t.input_tokens_above,
            None => true,
        }) {
            Some(last)
        } else {
            before
        }
    }
}

/// A number of tokens at a price.
pub open spec fn charge(tokens: u64, per_million: Option<Seq<char>>) -> ChargeView {
    ChargeView { tokens, per_million }
}

/// What a usage costs at the prices of a model.
pub open spec fn cost_of(rates: ModelCostRatesView, usage: UsageView) -> UsageCostView {
    match effective_tier(rates.tiers, priced_input(usage)) {
        Some(t) => UsageCostView {
            input: charge(usage.input, Some(t.input_per_million)),
            output: charge(usage.output, Some(t.output_per_million)),
            cache_read: charge(usage.cache_read, Some(t.cache_read_per_million)),
            cache_write: charge(usage.cache_write, Some(t.cache_write_per_million)),
            scale: CostScale::One,
        },
        None => UsageCostView {
            input: charge(usage.input, rates.input_per_million),
            output: charge(usage.output, rates.output_per_million),
            cache_read: charge(usage.cache_read, rates.input_cache_read_per_million),
            cache_write: charge(usage.cache_write, rates.input_cache_write_per_million),
            scale: CostScale::One,
        },
    }
}

fn effective_tier_exec(tiers: &Vec<CostTier>, tokens: u128) -> (r: Option<usize>)
    ensures
        match r {
            Some(i) => i < tiers@.len() && effective_tier(views::all(tiers@), tokens as int)
                == Some(tiers@[i as int]@),
            None => effective_tier(views::all(tiers@), tokens as int) is None,
        },
{
    let ghost all = views::all(tiers@);
    let mut best: Option<usize> = None;
    let mut i: usize = 0;
    while i < tiers.len()
        invariant
            i <= tiers@.len(),
            all == views::all(tiers@),
            match best {
                Some(b) => b < i && effective_tier(all.take(i as int), tokens as int) == Some(
                    tiers@[b as int]@,
                ),
                None => effective_tier(all.take(i as int), tokens as int) is None,
            },
        decreases tiers@.len() - i,
    {
        proof {
            views::lemma_take_step(all, i as int);
        }
        if tokens > tiers[i].input_tokens_above as u128 {
            match best {
                Some(b) => {
                    if tiers[i].input_tokens_above >= tiers[b].input_tokens_above {
                        best = Some(i);
                    }
                },
                None => {
                    best = Some(i);
                },
            }
        }
        i = i + 1;
    }
    proof {
        views::lemma_take_all(all);
    }
    best
}

/// What a usage costs at the prices of a model.
pub fn calculate_cost(model: &Model, usage: &Usage) -> (r: UsageCost)
    ensures
        r@ == cost_of(model@.cost_rates, usage@),
{
    let tokens: u128 = usage.input as u128 + usage.cache_read as u128 + usage.cache_write as u128;
    match effective_tier_exec(&model.cost_rates.tiers, tokens) {
        Some(i) => {
            let t: &CostTier = &model.cost_rates.tiers[i];
            UsageCost {
                input: Charge { tokens: usage.input, per_million: Some(t.input_per_million.clone()) },
                output: Charge {
                    tokens: usage.output,
                    per_million: Some(t.output_per_million.clone()),
                },
                cache_read: Charge {
                    tokens: usage.cache_read,
                    per_million: Some(t.cache_read_per_million.clone()),
                },
                cache_write: Charge {
                    tokens: usage.cache_write,
                    per_million: Some(t.cache_write_per_million.clone()),
                },
                scale: CostScale::One,
            }
        },
        None => {
            let rates = &model.cost_rates;
            UsageCost {
                input: Charge {
                    tokens: usage.input,
                    per_million: clone_opt_text(&rates.input_per_million),
                },
                output: Charge {
                    tokens: usage.output,
                    per_million: clone_opt_text(&rates.output_per_million),
                },
                cache_read: Charge {
                    tokens: usage.cache_read,
                    per_million: clone_opt_text(&rates.input_cache_read_per_million),
                },
                cache_write: Charge {
                    tokens: usage.cache_write,
                    per_million: clone_opt_text(&rates.input_cache_write_per_million),
                },
                scale: CostScale::One,
            }
        },
    }
}

/// The usage with these counts, without a total.
pub open spec fn counted(input: u64, output: u64, cache_read: u64, cache_write: u64) -> UsageView {
    UsageView { input, output, cache_read, cache_write, ..crate::types::no_usage() }
}

/// What numbers of tokens cost at the prices of a model.
pub fn calculate_usage_cost(
    input_tokens: u64,
    output_tokens: u64,
    cache_read_tokens: u64,
    cache_write_tokens: u64,
    model: &Model,
) -> (r: UsageCost)
    ensures
        r@ == cost_of(
            model@.cost_rates,
            counted(input_tokens, output_tokens, cache_read_tokens, cache_write_tokens),
        ),
{
    let mut usage: Usage = Usage::default();
    usage.input = input_tokens;
    usage.output = output_tokens;
    usage.cache_read = cache_read_tokens;
    usage.cache_write = cache_write_tokens;
    calculate_cost(model, &usage)
}

/// The service tier that a response is charged at: that of the response, unless
/// it says `default` where the request asked for `flex` or `priority`.
pub open spec fn charged_tier(
    response_tier: Option<Seq<char>>,
    request_tier: Option<Seq<char>>,
) -> Option<Seq<char>> {
    if response_tier == Some("default"@) && (request_tier == Some("flex"@) || request_tier == Some(
        "priority"@,
    )) {
        request_tier
    } else {
        views::first_of(response_tier, request_tier)
    }
}

fn is_text(o: Option<&str>, s: &str) -> (r: bool)
    ensures
        r == (views::opt(o) == Some(s@)),
{
    match o {
        Some(t) => same_text(t, s),
        None => false,
    }
}

/// The service tier that a response is charged at.
pub fn resolve_codex_service_tier(response_tier: Option<&str>, request_tier: Option<&str>) -> (r:
    Option<String>)
    ensures
        views::opt(r) == charged_tier(views::opt(response_tier), views::opt(request_tier)),
{
    if is_text(response_tier, "default") && (is_text(request_tier, "flex") || is_text(
        request_tier,
        "priority",
    )) {
        return views::opt_owned(request_tier);
    }
    match response_tier {
        Some(t) => Some(t.to_owned()),
        None => views::opt_owned(request_tier),
    }
}

/// The factor that a service tier puts on the cost.
pub open spec fn tier_scale(model_id: Seq<char>, tier: Option<Seq<char>>) -> CostScale {
    if tier == Some("flex"@) {
        CostScale::Half
    } else if tier == Some("priority"@) {
        if model_id == "gpt-5.5"@ {
            CostScale::TwoAndAHalf
        } else {
            CostScale::Two
        }
    } else {
        CostScale::One
    }
}

/// The factor that a service tier puts on the cost.
pub fn service_tier_cost_multiplier(model_id: &str, service_tier: Option<&str>) -> (r: CostScale)
    ensures
        r == tier_scale(model_id@, views::opt(service_tier)),
{
    if is_text(service_tier, "flex") {
        CostScale::Half
    } else if is_text(service_tier, "priority") {
        if same_text(model_id, "gpt-5.5") {
            CostScale::TwoAndAHalf
        } else {
            CostScale::Two
        }
    } else {
        CostScale::One
    }
}

/// The tier that holds starts below the number of tokens, and no other tier
/// below that number starts higher. Without one, every tier starts at or above
/// the number.
pub proof fn law_effective_tier_is_highest(tiers: Seq<CostTierView>, tokens: int)
    ensures
        match effective_tier(tiers, tokens) {
            Some(t) => tiers.contains(t) && t.input_tokens_above < tokens && forall|i: int|
                0 <= i < tiers.len() && (#[trigger] tiers[i]).input_tokens_above < tokens
                    ==> tiers[i].input_tokens_above <= t.input_tokens_above,
            None => forall|i: int|
                0 <= i < tiers.len() ==> (#[trigger] tiers[i]).input_tokens_above >= tokens,
        },
    decreases tiers.len(),
{
    if tiers.len() > 0 {
        let init = tiers.drop_last();
        law_effective_tier_is_highest(init, tokens);
        assert forall|i: int| 0 <= i < tiers.len() - 1 implies tiers[i] == init[i] by {}
        match effective_tier(tiers, tokens) {
            Some(t) => {
                if t == tiers.last() {
                    assert(tiers[tiers.len() - 1] == t);
                } else {
                    let k = choose|k: int| 0 <= k < init.len() && init[k] == t;
                    assert(tiers[k] == t);
                }
            },
            None => {},
        }
    }
}

/// Whether of the tiers that start below a number of tokens none starts above the one at `i`,
/// and none behind it starts as high.
pub open spec fn holds_at(tiers: Seq<CostTierView>, tokens: int, i: int) -> bool {
    &&& 0 <= i < tiers.len()
    &&& tiers[i].input_tokens_above < tokens
    &&& forall|j: int|
        0 <= j < tiers.len() && (#[trigger] tiers[j]).input_tokens_above < tokens
            ==> tiers[j].input_tokens_above <= tiers[i].input_tokens_above
    &&& forall|j: int|
        i < j < tiers.len() && (#[trigger] tiers[j]).input_tokens_above < tokens
            ==> tiers[j].input_tokens_above < tiers[i].input_tokens_above
}

proof fn lemma_tier_at(tiers: Seq<CostTierView>, tokens: int, i: int)
    requires
        holds_at(tiers, tokens, i),
    ensures
        effective_tier(tiers, tokens) == Some(tiers[i]),
    decreases tiers.len(),
{
    let init = tiers.drop_last();
    if i == tiers.len() - 1 {
        law_effective_tier_is_highest(init, tokens);
        if let Some(t) = effective_tier(init, tokens) {
            let k = choose|k: int| 0 <= k < init.len() && init[k] == t;
            assert(tiers[k] == t);
        }
    } else {
        assert forall|j: int| 0 <= j < init.len() implies init[j] == tiers[j] by {}
        assert(holds_at(init, tokens, i));
        lemma_tier_at(init, tokens, i);
        assert(tiers.last() == tiers[tiers.len() - 1]);
    }
}

/// Every kind of token is charged by its own count, at the prices of the tier that holds for
/// the whole of the prompt, and at those of the model where none does.
pub proof fn law_counts_are_charged(rates: ModelCostRatesView, usage: UsageView, i: int)
    ensures
        ({
            let c = cost_of(rates, usage);
            let prompt = usage.input + usage.cache_read + usage.cache_write;
            &&& c.input.tokens == usage.input
            &&& c.output.tokens == usage.output
            &&& c.cache_read.tokens == usage.cache_read
            &&& c.cache_write.tokens == usage.cache_write
            &&& c.scale == CostScale::One
            &&& holds_at(rates.tiers, prompt, i) ==> {
                &&& c.input.per_million == Some(rates.tiers[i].input_per_million)
                &&& c.output.per_million == Some(rates.tiers[i].output_per_million)
                &&& c.cache_read.per_million == Some(rates.tiers[i].cache_read_per_million)
                &&& c.cache_write.per_million == Some(rates.tiers[i].cache_write_per_million)
            }
            &&& (forall|j: int|
                0 <= j < rates.tiers.len() ==> (#[trigger] rates.tiers[j]).input_tokens_above
                    >= prompt) ==> {
                &&& c.input.per_million == rates.input_per_million
                &&& c.output.per_million == rates.output_per_million
                &&& c.cache_read.per_million == rates.input_cache_read_per_million
                &&& c.cache_write.per_million == rates.input_cache_write_per_million
            }
        }),
{
    let prompt = usage.input + usage.cache_read + usage.cache_write;
    if holds_at(rates.tiers, prompt, i) {
        lemma_tier_at(rates.tiers, prompt, i);
    }
    law_effective_tier_is_highest(rates.tiers, prompt);
    if let Some(t) = effective_tier(rates.tiers, prompt) {
        let k = choose|k: int| 0 <= k < rates.tiers.len() && rates.tiers[k] == t;
        assert(rates.tiers[k].input_tokens_above < prompt);
    }
}

/// A response is charged at the tier that it names itself; one that names none, or that names
/// the default where a better or a cheaper tier was asked for, at the tier that was asked for.
pub proof fn law_charged_tier(response_tier: Option<Seq<char>>, request_tier: Option<Seq<char>>)
    ensures
        response_tier is None ==> charged_tier(response_tier, request_tier) == request_tier,
        response_tier is Some && response_tier != Some("default"@) ==> charged_tier(
            response_tier,
            request_tier,
        ) == response_tier,
        request_tier == Some("flex"@) || request_tier == Some("priority"@) ==> charged_tier(
            Some("default"@),
            request_tier,
        ) == request_tier,
        request_tier != Some("flex"@) && request_tier != Some("priority"@) ==> charged_tier(
            Some("default"@),
            request_tier,
        ) == Some("default"@),
{
}

/// Flexible processing costs half and priority at least twice as much; any other tier costs
/// what the model costs, whatever the model.
pub proof fn law_tier_scales(model_id: Seq<char>, tier: Option<Seq<char>>)
    ensures
        tier_scale(model_id, Some("flex"@)) == CostScale::Half,
        tier_scale(model_id, Some("priority"@)) == if model_id == "gpt-5.5"@ {
            CostScale::TwoAndAHalf
        } else {
            CostScale::Two
        },
        tier != Some("flex"@) && tier != Some("priority"@) ==> tier_scale(model_id, tier)
            == CostScale::One,
{
    reveal_strlit("flex");
    reveal_strlit("priority");
    assert("flex"@.len() != "priority"@.len());
}

} // verus!
