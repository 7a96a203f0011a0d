//! The providers that are at hand, and the models that they offer.
use vstd::prelude::*;
use crate::dict;
use crate::dict::Dict;
use crate::text::concat3;
use crate::types;
use crate::types::{
    clone_models, find_model, AssistantMessage, AssistantMessageEvent, Context, ContextView,
    EventView, MessageView, Model, ModelView, SimpleStreamOptions,
};
use crate::views;
use crate::views::clone_opt_text;

verus! {

broadcast use crate::views::group_views;

/// The providers by id with their names, and their models as they were last fetched.
pub struct Models {
    providers: Dict<String>,
    index: Dict<Dict<Model>>,
    listed: Dict<Vec<Model>>,
}

#[verifier::ext_equal]
pub struct ModelsView {
    /// The names of the providers.
    pub providers: Map<Seq<char>, Seq<char>>,
    /// The models by provider and id.
    pub index: Map<(Seq<char>, Seq<char>), ModelView>,
    /// The models of each provider as they were last fetched.
    pub listed: Map<Seq<char>, Seq<ModelView>>,
}

impl View for Models {
    type V = ModelsView;

    closed spec fn view(&self) -> ModelsView {
        ModelsView {
            providers: dict::texts(self.providers@),
            index: index_view(self.index@),
            listed: listed_view(self.listed@),
        }
    }
}

spec fn index_view(index: Map<Seq<char>, Dict<Model>>) -> Map<(Seq<char>, Seq<char>), ModelView> {
    Map::new(
        |k: (Seq<char>, Seq<char>)| index.contains_key(k.0) && index[k.0]@.contains_key(k.1),
        |k: (Seq<char>, Seq<char>)| index[k.0]@[k.1]@,
    )
}

spec fn listed_view(listed: Map<Seq<char>, Vec<Model>>) -> Map<Seq<char>, Seq<ModelView>> {
    Map::new(|p: Seq<char>| listed.contains_key(p), |p: Seq<char>| views::all(listed[p]@))
}

/// Whether only providers that are there have models.
pub open spec fn is_sound(v: ModelsView) -> bool {
    &&& forall|p: Seq<char>| #[trigger] v.listed.contains_key(p) ==> v.providers.contains_key(p)
    &&& forall|k: (Seq<char>, Seq<char>)| #[trigger]
        v.index.contains_key(k) ==> v.providers.contains_key(k.0)
}

/// The models that are listed for a provider.
pub open spec fn models_of(v: ModelsView, provider: Seq<char>) -> Seq<ModelView> {
    if v.listed.contains_key(provider) {
        v.listed[provider]
    } else {
        Seq::empty()
    }
}

/// The models that are listed for the providers in an order, one behind the other.
pub open spec fn models_of_each(v: ModelsView, ids: Seq<Seq<char>>) -> Seq<ModelView>
    decreases ids.len(),
{
    if ids.len() == 0 {
        Seq::empty()
    } else {
        models_of_each(v, ids.drop_last()) + models_of(v, ids.last())
    }
}

/// A registry with nothing in it.
pub open spec fn no_models() -> ModelsView {
    ModelsView { providers: Map::empty(), index: Map::empty(), listed: Map::empty() }
}

/// An index with models of a provider put in; of two with one id the later counts.
pub open spec fn indexed(
    index: Map<(Seq<char>, Seq<char>), ModelView>,
    provider: Seq<char>,
    models: Seq<ModelView>,
) -> Map<(Seq<char>, Seq<char>), ModelView>
    decreases models.len(),
{
    if models.len() == 0 {
        index
    } else {
        indexed(index, provider, models.drop_last()).insert(
            (provider, models.last().id),
            models.last(),
        )
    }
}

/// A registry after the models of a provider were fetched.
pub open spec fn refreshed(
    v: ModelsView,
    provider: Seq<char>,
    models: Seq<ModelView>,
) -> ModelsView {
    ModelsView {
        listed: v.listed.insert(provider, models),
        index: indexed(v.index, provider, models),
        ..v
    }
}

/// The model of a provider with an id: as it was put into the index last, else the
/// first of those that were fetched.
pub open spec fn model_at(v: ModelsView, provider: Seq<char>, id: Seq<char>) -> Option<ModelView> {
    if v.index.contains_key((provider, id)) {
        Some(v.index[(provider, id)])
    } else if v.listed.contains_key(provider) {
        types::model_with_id(v.listed[provider], id)
    } else {
        None
    }
}

/// What is said of a provider that is not there.
pub open spec fn not_found_text(provider: Seq<char>) -> Seq<char> {
    "Provider "@ + provider + " not found"@
}

/// What is said of a provider that is not there.
pub fn provider_not_found(provider_id: &str) -> (r: String)
    ensures
        r@ == not_found_text(provider_id@),
{
    concat3("Provider ", provider_id, " not found")
}

/// The lists of the providers in an order, one behind the other.
pub open spec fn lists_joined(listed: Map<Seq<char>, Seq<ModelView>>, order: Seq<Seq<char>>) -> Seq<
    ModelView,
>
    decreases order.len(),
{
    if order.len() == 0 {
        Seq::empty()
    } else {
        lists_joined(listed, order.drop_last()) + listed[order.last()]
    }
}

/// Whether an order names each provider of a list once.
pub open spec fn is_order_of(order: Seq<Seq<char>>, listed: Map<Seq<char>, Seq<ModelView>>) -> bool {
    &&& order.no_duplicates()
    &&& forall|p: Seq<char>| #[trigger] listed.contains_key(p) <==> order.contains(p)
}

impl Default for Models {
    fn default() -> (r: Models)
        ensures
            r@ == no_models(),
    {
        Models::new()
    }
}

/// The models of a provider by id, with models put in.
spec fn put(part: Map<Seq<char>, ModelView>, models: Seq<ModelView>) -> Map<Seq<char>, ModelView>
    decreases models.len(),
{
    if models.len() == 0 {
        part
    } else {
        put(part, models.drop_last()).insert(models.last().id, models.last())
    }
}

/// The part of an index that is a provider's.
spec fn part_of(index: Map<(Seq<char>, Seq<char>), ModelView>, provider: Seq<char>) -> Map<
    Seq<char>,
    ModelView,
> {
    Map::new(
        |id: Seq<char>| index.contains_key((provider, id)),
        |id: Seq<char>| index[(provider, id)],
    )
}

proof fn lemma_indexed(
    index: Map<(Seq<char>, Seq<char>), ModelView>,
    provider: Seq<char>,
    models: Seq<ModelView>,
    k: (Seq<char>, Seq<char>),
)
    ensures
        ({
            let after = indexed(index, provider, models);
            let part = put(part_of(index, provider), models);
            if k.0 == provider {
                &&& after.contains_key(k) == part.contains_key(k.1)
                &&& after.contains_key(k) ==> after[k] == part[k.1]
            } else {
                &&& after.contains_key(k) == index.contains_key(k)
                &&& after.contains_key(k) ==> after[k] == index[k]
            }
        }),
    decreases models.len(),
{
    assert(k == (k.0, k.1));
    if models.len() > 0 {
        lemma_indexed(index, provider, models.drop_last(), k);
    }
}

/// Puts models into the models of a provider by id.
fn put_models(part: &mut Dict<Model>, models: &Vec<Model>)
    ensures
        dict::meanings(final(part)@) == put(dict::meanings(old(part)@), views::all(models@)),
{
    let ghost all = views::all(models@);
    let ghost before = dict::meanings(part@);
    let mut i: usize = 0;
    while i < models.len()
        invariant
            i <= models@.len(),
            all == views::all(models@),
            dict::meanings(part@) == put(before, all.take(i as int)),
        decreases models@.len() - i,
    {
        proof {
            views::lemma_take_step(all, i as int);
        }
        let ghost earlier = dict::meanings(part@);
        part.insert(models[i].id.as_str(), models[i].clone());
        assert(dict::meanings(part@) =~= earlier.insert(all[i as int].id, all[i as int]));
        i = i + 1;
    }
    proof {
        views::lemma_take_all(all);
    }
}

/// What the fetching of the models of a provider comes to.
pub open spec fn refresh_result(
    v: ModelsView,
    provider: Seq<char>,
    outcome: Result<Seq<ModelView>, Seq<char>>,
) -> Result<Seq<ModelView>, Seq<char>> {
    if !v.providers.contains_key(provider) {
        Err(not_found_text(provider))
    } else {
        outcome
    }
}

/// What an outcome means.
pub open spec fn outcome_view(o: Result<Vec<Model>, String>) -> Result<Seq<ModelView>, Seq<char>> {
    match o {
        Ok(models) => Ok(views::all(models@)),
        Err(e) => Err(e@),
    }
}

/// The models of the providers that were fetched one after the other, up to the first
/// that failed.
pub open spec fn all_refreshed(
    v: ModelsView,
    outcomes: Seq<(Seq<char>, Result<Seq<ModelView>, Seq<char>>)>,
) -> (ModelsView, Result<nat, Seq<char>>)
    decreases outcomes.len(),
{
    if outcomes.len() == 0 {
        (v, Ok(0))
    } else {
        let (before, total) = all_refreshed(v, outcomes.drop_last());
        match total {
            Err(e) => (before, Err(e)),
            Ok(n) => match refresh_result(before, outcomes.last().0, outcomes.last().1) {
                Err(e) => (before, Err(e)),
                Ok(models) => (refreshed(before, outcomes.last().0, models), Ok(n + models.len())),
            },
        }
    }
}

/// What outcomes mean.
pub open spec fn outcomes_view(outcomes: Seq<(String, Result<Vec<Model>, String>)>) -> Seq<
    (Seq<char>, Result<Seq<ModelView>, Seq<char>>),
> {
    outcomes.map_values(|o: (String, Result<Vec<Model>, String>)| (o.0@, outcome_view(o.1)))
}

/// How many models all outcomes hold together.
pub open spec fn model_count(outcomes: Seq<(String, Result<Vec<Model>, String>)>) -> nat
    decreases outcomes.len(),
{
    if outcomes.len() == 0 {
        0
    } else {
        model_count(outcomes.drop_last()) + match outcomes.last().1 {
            Ok(models) => models@.len(),
            Err(_) => 0,
        }
    }
}

proof fn lemma_failure_stays(
    v: ModelsView,
    outcomes: Seq<(Seq<char>, Result<Seq<ModelView>, Seq<char>>)>,
    i: int,
)
    requires
        0 <= i <= outcomes.len(),
        all_refreshed(v, outcomes.take(i)).1 is Err,
    ensures
        all_refreshed(v, outcomes) == all_refreshed(v, outcomes.take(i)),
    decreases outcomes.len(),
{
    if i < outcomes.len() {
        assert(outcomes.drop_last().take(i) =~= outcomes.take(i));
        lemma_failure_stays(v, outcomes.drop_last(), i);
    } else {
        assert(outcomes.take(i) =~= outcomes);
    }
}

proof fn lemma_count_grows(outcomes: Seq<(String, Result<Vec<Model>, String>)>, i: int)
    requires
        0 <= i <= outcomes.len(),
    ensures
        model_count(outcomes.take(i)) <= model_count(outcomes),
    decreases outcomes.len(),
{
    if i < outcomes.len() {
        assert(outcomes.drop_last().take(i) =~= outcomes.take(i));
        lemma_count_grows(outcomes.drop_last(), i);
    } else {
        assert(outcomes.take(i) =~= outcomes);
    }
}

impl Models {
    #[verifier::type_invariant]
    spec fn well_formed(self) -> bool {
        is_sound(self@)
    }

    /// A registry without providers.
    pub fn new() -> (r: Models)
        ensures
            r@ == no_models(),
    {
        let providers: Dict<String> = Dict::new();
        let index: Dict<Dict<Model>> = Dict::new();
        let listed: Dict<Vec<Model>> = Dict::new();
        assert(dict::texts(providers@) =~= no_models().providers);
        assert(index_view(index@) =~= no_models().index);
        assert(listed_view(listed@) =~= no_models().listed);
        Models { providers, index, listed }
    }

    /// Puts a provider in, in place of one with the same id.
    pub fn set_provider(&mut self, id: &str, name: &str)
        ensures
            final(self)@ == (ModelsView {
                providers: old(self)@.providers.insert(id@, name@),
                ..old(self)@
            }),
    {
        proof {
            use_type_invariant(&*self);
        }
        let ghost before = self@;
        let mut rest: Models = Models::new();
        std::mem::swap(self, &mut rest);
        let Models { mut providers, index, listed } = rest;
        providers.insert(id, name.to_owned());
        assert(dict::texts(providers@) =~= before.providers.insert(id@, name@));
        *self = Models { providers, index, listed };
    }

    /// The name of a provider.
    pub fn get_provider(&self, provider_id: &str) -> (r: Option<String>)
        ensures
            match r {
                Some(name) => self@.providers.contains_key(provider_id@) && name@
                    == self@.providers[provider_id@],
                None => !self@.providers.contains_key(provider_id@),
            },
    {
        match self.providers.get(provider_id) {
            Some(name) => Some(name.clone()),
            None => None,
        }
    }

    fn record(&mut self, provider_id: &str, models: &Vec<Model>)
        requires
            old(self)@.providers.contains_key(provider_id@),
        ensures
            final(self)@ == refreshed(old(self)@, provider_id@, views::all(models@)),
    {
        proof {
            use_type_invariant(&*self);
        }
        let ghost before = self@;
        let ghost all = views::all(models@);
        let mut rest: Models = Models::new();
        std::mem::swap(self, &mut rest);
        let Models { providers, mut index, mut listed } = rest;
        let ghost parts = index@;
        let mut part: Dict<Model> = match index.remove(provider_id) {
            Some(p) => p,
            None => Dict::new(),
        };
        assert(dict::meanings(part@) =~= part_of(before.index, provider_id@));
        put_models(&mut part, models);
        let ghost after = part;
        index.insert(provider_id, part);
        listed.insert(provider_id, clone_models(models));
        proof {
            let goal = indexed(before.index, provider_id@, all);
            let now = index_view(index@);
            assert forall|k: (Seq<char>, Seq<char>)| #[trigger]
                now.contains_key(k) == goal.contains_key(k) && (goal.contains_key(k) ==> now[k]
                    == goal[k]) by {
                lemma_indexed(before.index, provider_id@, all, k);
                assert(before.index.contains_key(k) == (parts.contains_key(k.0)
                    && parts[k.0]@.contains_key(k.1)));
                if k.0 == provider_id@ {
                    assert(dict::meanings(after@).contains_key(k.1) == after@.contains_key(k.1));
                }
            }
            assert(now =~= goal);
            assert(listed_view(listed@) =~= before.listed.insert(provider_id@, all));
            assert forall|k: (Seq<char>, Seq<char>)| #[trigger]
                goal.contains_key(k) implies before.providers.contains_key(k.0) by {
                lemma_indexed(before.index, provider_id@, all, k);
            }
        }
        *self = Models { providers, index, listed };
        assert(self@ =~= refreshed(before, provider_id@, all));
    }

    /// Takes in what the fetching of the models of a provider came to.
    pub fn refresh_provider_models(
        &mut self,
        provider_id: &str,
        outcome: Result<Vec<Model>, String>,
    ) -> (r: Result<Vec<Model>, String>)
        ensures
            outcome_view(r) == refresh_result(old(self)@, provider_id@, outcome_view(outcome)),
            final(self)@ == match outcome_view(r) {
                Ok(models) => refreshed(old(self)@, provider_id@, models),
                Err(_) => old(self)@,
            },
    {
        if !self.providers.contains_key(provider_id) {
            return Err(provider_not_found(provider_id));
        }
        match outcome {
            Ok(models) => {
                self.record(provider_id, &models);
                Ok(models)
            },
            Err(e) => Err(e),
        }
    }

    /// Takes in what the fetching of the models of several providers came to, in the
    /// order in which they were asked; ends at the first failure. How many models there
    /// are.
    pub fn refresh_all(&mut self, outcomes: Vec<(String, Result<Vec<Model>, String>)>) -> (r:
        Result<usize, String>)
        requires
            model_count(outcomes@) <= usize::MAX,
        ensures
            ({
                let (after, total) = all_refreshed(old(self)@, outcomes_view(outcomes@));
                &&& final(self)@ == after
                &&& match r {
                    Ok(n) => total is Ok && total->Ok_0 == n,
                    Err(e) => total is Err && total->Err_0 == e@,
                }
            }),
    {
        let ghost before = self@;
        let ghost all = outcomes_view(outcomes@);
        let mut total: usize = 0;
        let mut i: usize = 0;
        assert(all.take(0) =~= Seq::empty());
        while i < outcomes.len()
            invariant
                i <= outcomes@.len(),
                before == old(self)@,
                all == outcomes_view(outcomes@),
                model_count(outcomes@) <= usize::MAX,
                total <= model_count(outcomes@.take(i as int)),
                all_refreshed(before, all.take(i as int)) == (
                    self@,
                    Ok::<nat, Seq<char>>(total as nat),
                ),
            decreases outcomes@.len() - i,
        {
            proof {
                views::lemma_take_step(all, i as int);
                views::lemma_take_step(outcomes@, i as int);
                lemma_count_grows(outcomes@, i + 1);
                assert(all[i as int] == (outcomes@[i as int].0@, outcome_view(outcomes@[i as int].1)));
            }
            let id: &str = outcomes[i].0.as_str();
            if !self.providers.contains_key(id) {
                proof {
                    lemma_failure_stays(before, all, i + 1);
                }
                return Err(provider_not_found(id));
            }
            match &outcomes[i].1 {
                Ok(models) => {
                    self.record(id, models);
                    total = total + models.len();
                },
                Err(e) => {
                    proof {
                        lemma_failure_stays(before, all, i + 1);
                    }
                    return Err(e.clone());
                },
            }
            i = i + 1;
        }
        proof {
            views::lemma_take_all(all);
        }
        Ok(total)
    }

    /// The model of a provider with an id.
    pub fn get_model(&self, provider_id: &str, model_id: &str) -> (r: Option<Model>)
        ensures
            views::opt(r) == model_at(self@, provider_id@, model_id@),
    {
        let ghost k = (provider_id@, model_id@);
        if let Some(part) = self.index.get(provider_id) {
            if let Some(m) = part.get(model_id) {
                assert(self@.index.contains_key(k));
                return Some(m.clone());
            }
        }
        assert(!self@.index.contains_key(k));
        match self.listed.get(provider_id) {
            Some(models) => find_model(models, model_id),
            None => None,
        }
    }

    /// The models of a provider; without one, those of all, provider by provider in no
    /// order that can be relied on.
    pub fn list_models(&self, provider_id: Option<&str>) -> (r: Vec<Model>)
        ensures
            is_sound(self@),
            match provider_id {
                Some(p) => views::all(r@) == models_of(self@, p@),
                None => exists|order: Seq<Seq<char>>|
                    is_order_of(order, self@.listed) && views::all(r@) == #[trigger] lists_joined(
                        self@.listed,
                        order,
                    ),
            },
    {
        proof {
            use_type_invariant(self);
        }
        match provider_id {
            Some(p) => match self.listed.get(p) {
                Some(models) => clone_models(models),
                None => Vec::new(),
            },
            None => {
                let keys: Vec<String> = self.listed.keys();
                let ghost order = views::all(keys@);
                let ghost listed = self@.listed;
                let mut out: Vec<Model> = Vec::new();
                let mut i: usize = 0;
                assert(order.take(0) =~= Seq::empty());
                while i < keys.len()
                    invariant
                        i <= keys@.len(),
                        order == views::all(keys@),
                        listed == self@.listed,
                        forall|p: Seq<char>| #[trigger]
                            self.listed@.contains_key(p) <==> order.contains(p),
                        views::all(out@) == lists_joined(listed, order.take(i as int)),
                    decreases keys@.len() - i,
                {
                    proof {
                        views::lemma_take_step(order, i as int);
                        assert(order[i as int] == keys@[i as int]@);
                        assert(order.contains(order[i as int]));
                    }
                    if let Some(models) = self.listed.get(keys[i].as_str()) {
                        let mut more: Vec<Model> = clone_models(models);
                        let ghost x = out@;
                        let ghost y = more@;
                        out.append(&mut more);
                        assert(views::all(x + y) =~= views::all(x) + views::all(y));
                    }
                    i = i + 1;
                }
                proof {
                    views::lemma_take_all(order);
                    assert(is_order_of(order, self@.listed)) by {
                        assert forall|p: Seq<char>| #[trigger]
                            self@.listed.contains_key(p) <==> order.contains(p) by {
                            assert(self.listed@.contains_key(p) <==> order.contains(p));
                        }
                    }
                }
                out
            },
        }
    }

    /// The ids of the providers with their names, each once, in no order that can be
    /// relied on.
    pub fn list_providers(&self) -> (r: Vec<(String, String)>)
        ensures
            forall|i: int, j: int|
                0 <= i < j < r@.len() ==> (#[trigger] r@[i]).0@ != (#[trigger] r@[j]).0@,
            forall|i: int|
                0 <= i < r@.len() ==> self@.providers.contains_key((#[trigger] r@[i]).0@)
                    && self@.providers[r@[i].0@] == r@[i].1@,
            forall|id: Seq<char>| #[trigger]
                self@.providers.contains_key(id) ==> exists|i: int|
                    0 <= i < r@.len() && (#[trigger] r@[i]).0@ == id,
    {
        let keys: Vec<String> = self.providers.keys();
        let ghost names = views::all(keys@);
        let mut out: Vec<(String, String)> = Vec::new();
        let mut i: usize = 0;
        while i < keys.len()
            invariant
                i <= keys@.len(),
                names == views::all(keys@),
                forall|id: Seq<char>| #[trigger]
                    self.providers@.contains_key(id) <==> names.contains(id),
                out@.len() == i,
                forall|j: int|
                    0 <= j < i ==> (#[trigger] out@[j]).0@ == names[j]
                        && self@.providers.contains_key(names[j]) && self@.providers[names[j]]
                        == out@[j].1@,
            decreases keys@.len() - i,
        {
            proof {
                assert(names[i as int] == keys@[i as int]@);
                assert(names.contains(names[i as int]));
            }
            if let Some(name) = self.providers.get(keys[i].as_str()) {
                out.push((keys[i].clone(), name.clone()));
            }
            i = i + 1;
        }
        proof {
            assert forall|id: Seq<char>| #[trigger]
                self@.providers.contains_key(id) implies exists|i: int|
                0 <= i < out@.len() && (#[trigger] out@[i]).0@ == id by {
                assert(self.providers@.contains_key(id));
                let n = choose|n: int| 0 <= n < names.len() && names[n] == id;
                assert(out@[n].0@ == id);
            }
        }
        out
    }

    /// The conversation as a provider is handed it.
    pub fn prepare(&self, model: &Model, context: Context, options: &SimpleStreamOptions) -> (r:
        Result<Context, String>)
        ensures
            match r {
                Ok(c) => self@.providers.contains_key(model.provider_id@) && c@ == with_options(
                    context@,
                    *options,
                ),
                Err(e) => !self@.providers.contains_key(model.provider_id@) && e@ == not_found_text(
                    model.provider_id@,
                ),
            },
    {
        if self.providers.contains_key(model.provider_id.as_str()) {
            Ok(merge_options(context, options))
        } else {
            Err(provider_not_found(model.provider_id.as_str()))
        }
    }
}

/// A registry without providers.
pub fn create_models() -> (r: Models)
    ensures
        r@ == no_models(),
{
    Models::new()
}

/// A conversation in which the options that are given count more.
pub open spec fn with_options(c: ContextView, options: SimpleStreamOptions) -> ContextView {
    ContextView {
        temperature: views::first_of(views::opt(options.temperature), c.temperature),
        max_tokens: views::first_of(options.max_tokens, c.max_tokens),
        response_format: views::first_of(views::opt(options.response_format), c.response_format),
        tool_choice: views::first_of(views::opt(options.tool_choice), c.tool_choice),
        ..c
    }
}

/// Puts the options that are given into a conversation.
pub fn merge_options(context: Context, options: &SimpleStreamOptions) -> (r: Context)
    ensures
        r@ == with_options(context@, *options),
{
    let mut c: Context = context;
    if options.temperature.is_some() {
        c.temperature = clone_opt_text(&options.temperature);
    }
    if options.max_tokens.is_some() {
        c.max_tokens = options.max_tokens;
    }
    if let Some(f) = &options.response_format {
        c.response_format = Some(f.clone());
    }
    if let Some(t) = &options.tool_choice {
        c.tool_choice = Some(t.clone());
    }
    c
}

/// The message of the last event that says that a response is done.
pub open spec fn last_done(events: Seq<EventView>) -> Option<MessageView>
    decreases events.len(),
{
    if events.len() == 0 {
        None
    } else {
        match events.last() {
            EventView::Done { message, .. } => Some(message),
            _ => last_done(events.drop_last()),
        }
    }
}

/// The text of the last event that says that a response failed.
pub open spec fn last_error(events: Seq<EventView>) -> Option<Seq<char>>
    decreases events.len(),
{
    if events.len() == 0 {
        None
    } else {
        match events.last() {
            EventView::Error { error, .. } => Some(error),
            _ => last_error(events.drop_last()),
        }
    }
}

/// What is said of a response that neither ends nor fails.
pub const NO_END: &'static str = "Stream completed without Done or Error event";

/// What a request comes to, given all the events of its response.
pub open spec fn outcome_of(events: Seq<EventView>) -> Result<MessageView, Seq<char>> {
    match last_done(events) {
        Some(m) => Ok(m),
        None => match last_error(events) {
            Some(e) => Err(e),
            None => Err(NO_END@),
        },
    }
}

/// What a request comes to, given all the events of its response.
pub fn complete(events: &Vec<AssistantMessageEvent>) -> (r: Result<AssistantMessage, String>)
    ensures
        match r {
            Ok(m) => outcome_of(views::all(events@)) == Ok::<MessageView, Seq<char>>(m@),
            Err(e) => outcome_of(views::all(events@)) == Err::<MessageView, Seq<char>>(e@),
        },
{
    let ghost all = views::all(events@);
    let mut done: Option<AssistantMessage> = None;
    let mut failed: Option<String> = None;
    let mut i: usize = 0;
    while i < events.len()
        invariant
            i <= events@.len(),
            all == views::all(events@),
            views::opt(done) == last_done(all.take(i as int)),
            views::opt(failed) == last_error(all.take(i as int)),
        decreases events@.len() - i,
    {
        proof {
            views::lemma_take_step(all, i as int);
        }
        match &events[i] {
            AssistantMessageEvent::Done { message, .. } => {
                done = Some(message.clone());
            },
            AssistantMessageEvent::Error { error, .. } => {
                failed = Some(error.clone());
            },
            _ => {},
        }
        i = i + 1;
    }
    proof {
        views::lemma_take_all(all);
    }
    match done {
        Some(m) => Ok(m),
        None => match failed {
            Some(e) => Err(e),
            None => Err(NO_END.to_owned()),
        },
    }
}

proof fn lemma_indexed_last(
    index: Map<(Seq<char>, Seq<char>), ModelView>,
    provider: Seq<char>,
    models: Seq<ModelView>,
    i: int,
)
    requires
        0 <= i < models.len(),
        forall|j: int| i < j < models.len() ==> (#[trigger] models[j]).id != models[i].id,
    ensures
        indexed(index, provider, models).contains_key((provider, models[i].id)),
        indexed(index, provider, models)[(provider, models[i].id)] == models[i],
    decreases models.len(),
{
    if i < models.len() - 1 {
        assert(models[models.len() - 1].id != models[i].id);
        assert(models.drop_last()[i] == models[i]);
        assert forall|j: int| i < j < models.drop_last().len() implies (
        #[trigger] models.drop_last()[j]).id != models.drop_last()[i].id by {
            assert(models[j].id != models[i].id);
        }
        lemma_indexed_last(index, provider, models.drop_last(), i);
    }
}

/// After a provider was refreshed, each model that was fetched is found under its id; of
/// several with one id, the last.
pub proof fn law_refreshed_model_is_found(
    v: ModelsView,
    provider: Seq<char>,
    models: Seq<ModelView>,
    i: int,
)
    requires
        0 <= i < models.len(),
        forall|j: int| i < j < models.len() ==> (#[trigger] models[j]).id != models[i].id,
    ensures
        model_at(refreshed(v, provider, models), provider, models[i].id) == Some(models[i]),
{
    lemma_indexed_last(v.index, provider, models, i);
}

/// Refreshing one provider changes nothing of what is found of another.
pub proof fn law_refresh_leaves_others_alone(
    v: ModelsView,
    provider: Seq<char>,
    models: Seq<ModelView>,
    other: Seq<char>,
    id: Seq<char>,
)
    requires
        other != provider,
    ensures
        model_at(refreshed(v, provider, models), other, id) == model_at(v, other, id),
{
    lemma_indexed(v.index, provider, models, (other, id));
}

/// Nothing is found in a registry of which nothing was refreshed.
pub proof fn law_nothing_is_found_unrefreshed(provider: Seq<char>, id: Seq<char>)
    ensures
        model_at(no_models(), provider, id) is None,
{
}

proof fn lemma_taken_out(v: ModelsView, ids: Seq<Seq<char>>, i: int)
    requires
        0 <= i < ids.len(),
    ensures
        models_of_each(v, ids).to_multiset() == models_of_each(v, ids.remove(i)).to_multiset().add(
            models_of(v, ids[i]).to_multiset(),
        ),
    decreases ids.len(),
{
    let shorter = ids.remove(i);
    let init = ids.drop_last();
    vstd::seq_lib::lemma_multiset_commutative(models_of_each(v, init), models_of(v, ids.last()));
    if i == ids.len() - 1 {
        assert(shorter =~= init);
    } else {
        lemma_taken_out(v, init, i);
        assert(shorter.drop_last() =~= init.remove(i));
        assert(shorter.last() == ids.last());
        vstd::seq_lib::lemma_multiset_commutative(
            models_of_each(v, init.remove(i)),
            models_of(v, ids.last()),
        );
        assert(models_of_each(v, ids).to_multiset() =~= models_of_each(
            v,
            shorter,
        ).to_multiset().add(models_of(v, ids[i]).to_multiset()));
    }
}

proof fn lemma_nothing_listed(v: ModelsView, ids: Seq<Seq<char>>)
    requires
        forall|i: int| 0 <= i < ids.len() ==> models_of(v, #[trigger] ids[i]).len() == 0,
    ensures
        models_of_each(v, ids).len() == 0,
    decreases ids.len(),
{
    if ids.len() > 0 {
        assert forall|i: int| 0 <= i < ids.drop_last().len() implies models_of(
            v,
            #[trigger] ids.drop_last()[i],
        ).len() == 0 by {
            assert(ids.drop_last()[i] == ids[i]);
        }
        lemma_nothing_listed(v, ids.drop_last());
    }
}

proof fn lemma_lists_agree(v: ModelsView, order: Seq<Seq<char>>, ids: Seq<Seq<char>>)
    requires
        order.no_duplicates(),
        ids.no_duplicates(),
        forall|i: int| 0 <= i < order.len() ==> v.listed.contains_key(#[trigger] order[i]),
        forall|i: int| 0 <= i < order.len() ==> ids.contains(#[trigger] order[i]),
        forall|i: int|
            0 <= i < ids.len() && !order.contains(#[trigger] ids[i]) ==> models_of(v, ids[i]).len()
                == 0,
    ensures
        lists_joined(v.listed, order).to_multiset() == models_of_each(v, ids).to_multiset(),
    decreases order.len(),
{
    if order.len() == 0 {
        lemma_nothing_listed(v, ids);
        assert(models_of_each(v, ids) =~= lists_joined(v.listed, order));
    } else {
        let p = order.last();
        let init = order.drop_last();
        assert(ids.contains(order[order.len() - 1]));
        let i = choose|i: int| 0 <= i < ids.len() && ids[i] == p;
        let fewer = ids.remove(i);
        assert forall|j: int| 0 <= j < init.len() implies fewer.contains(#[trigger] init[j]) by {
            assert(init[j] == order[j]);
            assert(ids.contains(order[j]));
            let n = choose|n: int| 0 <= n < ids.len() && ids[n] == order[j];
            assert(order[j] != order[order.len() - 1]);
            if n < i {
                assert(fewer[n] == ids[n]);
            } else {
                assert(fewer[n - 1] == ids[n]);
            }
        }
        assert forall|j: int| 0 <= j < fewer.len() && !init.contains(#[trigger] fewer[j]) implies models_of(
            v,
            fewer[j],
        ).len() == 0 by {
            let n = if j < i {
                j
            } else {
                j + 1
            };
            assert(fewer[j] == ids[n]);
            if order.contains(ids[n]) {
                let m = choose|m: int| 0 <= m < order.len() && order[m] == ids[n];
                assert(ids[n] != ids[i]);
                assert(m < order.len() - 1);
                assert(init[m] == order[m]);
            }
        }
        assert forall|j: int| 0 <= j < init.len() implies v.listed.contains_key(
            #[trigger] init[j],
        ) by {
            assert(init[j] == order[j]);
        }
        assert forall|a: int, b: int| 0 <= a < fewer.len() && 0 <= b < fewer.len() && a
            != b implies fewer[a] != fewer[b] by {
            let x = if a < i {
                a
            } else {
                a + 1
            };
            let y = if b < i {
                b
            } else {
                b + 1
            };
            assert(fewer[a] == ids[x] && fewer[b] == ids[y]);
        }
        lemma_lists_agree(v, init, fewer);
        lemma_taken_out(v, ids, i);
        assert(v.listed.contains_key(order[order.len() - 1]));
        vstd::seq_lib::lemma_multiset_commutative(lists_joined(v.listed, init), v.listed[p]);
    }
}

/// All models that are listed are those that are listed provider by provider: whatever
/// order the providers come in, the list of all holds each model as often as the lists of
/// the providers that are there do together. For any other provider nothing is listed.
pub proof fn law_all_models_are_those_of_each(
    v: ModelsView,
    order: Seq<Seq<char>>,
    ids: Seq<Seq<char>>,
)
    requires
        is_sound(v),
        is_order_of(order, v.listed),
        ids.no_duplicates(),
        forall|p: Seq<char>| #[trigger] v.providers.contains_key(p) <==> ids.contains(p),
    ensures
        lists_joined(v.listed, order).to_multiset() == models_of_each(v, ids).to_multiset(),
        forall|p: Seq<char>| #![trigger models_of(v, p)]
            !v.providers.contains_key(p) ==> models_of(v, p).len() == 0,
{
    assert forall|i: int| 0 <= i < order.len() implies v.listed.contains_key(#[trigger] order[i])
        && ids.contains(order[i]) by {
        assert(order.contains(order[i]));
        assert(v.listed.contains_key(order[i]));
        assert(v.providers.contains_key(order[i]));
    }
    assert forall|i: int| 0 <= i < ids.len() && !order.contains(#[trigger] ids[i]) implies models_of(
        v,
        ids[i],
    ).len() == 0 by {
        assert(!v.listed.contains_key(ids[i]));
    }
    lemma_lists_agree(v, order, ids);
}

/// Where one provider is there alone, its models are all models.
pub proof fn law_lone_provider_has_all_models(
    v: ModelsView,
    order: Seq<Seq<char>>,
    provider: Seq<char>,
)
    requires
        is_sound(v),
        is_order_of(order, v.listed),
        forall|p: Seq<char>| #[trigger] v.providers.contains_key(p) <==> p == provider,
    ensures
        lists_joined(v.listed, order).to_multiset() == models_of(v, provider).to_multiset(),
        lists_joined(v.listed, order).len() == models_of(v, provider).len(),
{
    let ids = seq![provider];
    assert forall|p: Seq<char>| #[trigger] v.providers.contains_key(p) <==> ids.contains(p) by {
        assert(ids[0] == provider);
    }
    law_all_models_are_those_of_each(v, order, ids);
    assert(ids.drop_last() =~= Seq::<Seq<char>>::empty());
    assert(models_of_each(v, ids.drop_last()) =~= Seq::<ModelView>::empty());
    assert(models_of_each(v, ids) =~= models_of(v, provider));
    lists_joined(v.listed, order).to_multiset_ensures();
    models_of(v, provider).to_multiset_ensures();
}

/// Whatever is done to a registry, only providers that are there have models.
pub proof fn law_registry_stays_sound(
    v: ModelsView,
    provider: Seq<char>,
    name: Seq<char>,
    outcomes: Seq<(Seq<char>, Result<Seq<ModelView>, Seq<char>>)>,
)
    requires
        is_sound(v),
    ensures
        is_sound(no_models()),
        is_sound(ModelsView { providers: v.providers.insert(provider, name), ..v }),
        is_sound(all_refreshed(v, outcomes).0),
        all_refreshed(v, outcomes).0.providers == v.providers,
    decreases outcomes.len(),
{
    if outcomes.len() > 0 {
        law_registry_stays_sound(v, provider, name, outcomes.drop_last());
        let before = all_refreshed(v, outcomes.drop_last()).0;
        let id = outcomes.last().0;
        if let Ok(models) = refresh_result(before, id, outcomes.last().1) {
            assert forall|k: (Seq<char>, Seq<char>)| #[trigger]
                indexed(before.index, id, models).contains_key(k) implies v.providers.contains_key(
                k.0,
            ) by {
                lemma_indexed(before.index, id, models, k);
            }
        }
    }
}

/// What the caller asks for counts more than what the conversation says, and what the caller does
/// not ask for stays.
pub proof fn law_options_count(c: ContextView, options: SimpleStreamOptions)
    ensures
        ({
            let r = with_options(c, options);
            &&& r.temperature == if options.temperature is Some {
                Some(options.temperature->0@)
            } else {
                c.temperature
            }
            &&& r.max_tokens == if options.max_tokens is Some {
                options.max_tokens
            } else {
                c.max_tokens
            }
            &&& r.tool_choice == if options.tool_choice is Some {
                Some(options.tool_choice->0@)
            } else {
                c.tool_choice
            }
            &&& r.response_format == if options.response_format is Some {
                Some(options.response_format->0@)
            } else {
                c.response_format
            }
            &&& r.messages == c.messages
            &&& r.tools == c.tools
            &&& r.system_prompt == c.system_prompt
        }),
{
}

proof fn lemma_no_done(events: Seq<EventView>)
    requires
        forall|i: int| 0 <= i < events.len() ==> !(#[trigger] events[i] is Done),
    ensures
        last_done(events) is None,
    decreases events.len(),
{
    if events.len() > 0 {
        assert(!(events[events.len() - 1] is Done));
        let init = events.drop_last();
        assert forall|i: int| 0 <= i < init.len() implies !(#[trigger] init[i] is Done) by {
            assert(init[i] == events[i]);
        }
        lemma_no_done(init);
    }
}

/// A request comes to the message that its response ends with, whatever else was reported; a
/// response that fails comes to what it says of that, and one that does neither fails as well.
pub proof fn law_request_comes_to_its_end(
    before: Seq<EventView>,
    event: EventView,
    message: MessageView,
    reason: Seq<char>,
    error: Seq<char>,
)
    ensures
        event == (EventView::Done { reason, message }) ==> outcome_of(before.push(event)) == Ok::<
            MessageView,
            Seq<char>,
        >(message),
        event == (EventView::Error { reason, error }) && (forall|i: int|
            0 <= i < before.len() ==> !(#[trigger] before[i] is Done)) ==> outcome_of(
            before.push(event),
        ) == Err::<MessageView, Seq<char>>(error),
        !(event is Done) && !(event is Error) ==> outcome_of(before.push(event)) == outcome_of(
            before,
        ),
        outcome_of(Seq::empty()) == Err::<MessageView, Seq<char>>(
            "Stream completed without Done or Error event"@,
        ),
{
    assert(before.push(event).drop_last() =~= before);
    if forall|i: int| 0 <= i < before.len() ==> !(#[trigger] before[i] is Done) {
        lemma_no_done(before);
    }
}

/// A provider that is refreshed has the models that were fetched, a provider that is not there is
/// refused by name, and a fetch that fails is told as it failed.
pub proof fn law_refresh_gives_what_was_fetched(
    v: ModelsView,
    provider: Seq<char>,
    models: Seq<ModelView>,
    e: Seq<char>,
)
    ensures
        models_of(refreshed(v, provider, models), provider) == models,
        refreshed(v, provider, models).providers == v.providers,
        v.providers.contains_key(provider) ==> refresh_result(v, provider, Ok(models)) == Ok::<
            Seq<ModelView>,
            Seq<char>,
        >(models) && refresh_result(v, provider, Err(e)) == Err::<Seq<ModelView>, Seq<char>>(e),
        !v.providers.contains_key(provider) ==> refresh_result(v, provider, Ok(models)) is Err,
        not_found_text(provider).len() > provider.len(),
{
    reveal_strlit("Provider ");
}

/// Refreshing several providers goes from one to the next up to the first that fails: what was
/// refreshed before stays, the failure is told, and what comes behind it is left alone. Without a
/// failure all models that were fetched are counted.
pub proof fn law_refresh_stops_at_the_first_failure(
    v: ModelsView,
    outcomes: Seq<(Seq<char>, Result<Seq<ModelView>, Seq<char>>)>,
    provider: Seq<char>,
    outcome: Result<Seq<ModelView>, Seq<char>>,
)
    ensures
        all_refreshed(v, Seq::empty()) == (v, Ok::<nat, Seq<char>>(0)),
        ({
            let (before, total) = all_refreshed(v, outcomes);
            let (after, next) = all_refreshed(v, outcomes.push((provider, outcome)));
            &&& total is Err ==> after == before && next == total
            &&& total is Ok && before.providers.contains_key(provider) && outcome is Ok ==> {
                &&& next == Ok::<nat, Seq<char>>(total->Ok_0 + outcome->Ok_0.len())
                &&& models_of(after, provider) == outcome->Ok_0
            }
            &&& total is Ok && before.providers.contains_key(provider) && outcome is Err ==> {
                &&& next == Err::<nat, Seq<char>>(outcome->Err_0)
                &&& after == before
            }
            &&& total is Ok && !before.providers.contains_key(provider) ==> next is Err && after
                == before
        }),
{
    assert(outcomes.push((provider, outcome)).drop_last() =~= outcomes);
}

} // verus!
