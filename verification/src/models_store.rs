//! Lists of models that were fetched, and where they are kept.
use vstd::prelude::*;
use crate::auth::types::Credential;
use crate::dict;
use crate::dict::Dict;
use crate::types::{clone_models, Model, ModelView};
use crate::views;
use crate::views::clone_opt_text;

verus! {

broadcast use crate::views::group_views;

/// The models of a provider as they were fetched.
pub struct ModelsStoreEntry {
    pub models: Vec<Model>,
    pub fetched_at: Option<i64>,
    pub etag: Option<String>,
}

#[verifier::ext_equal]
pub struct EntryView {
    pub models: Seq<ModelView>,
    pub fetched_at: Option<i64>,
    pub etag: Option<Seq<char>>,
}

impl View for ModelsStoreEntry {
    type V = EntryView;

    open spec fn view(&self) -> EntryView {
        EntryView {
            models: views::all(self.models@),
            fetched_at: self.fetched_at,
            etag: views::opt(self.etag),
        }
    }
}

impl Default for ModelsStoreEntry {
    fn default() -> (r: ModelsStoreEntry)
        ensures
            r@ == (EntryView { models: Seq::empty(), fetched_at: None, etag: None }),
    {
        ModelsStoreEntry { models: Vec::new(), fetched_at: None, etag: None }
    }
}

impl Clone for ModelsStoreEntry {
    fn clone(&self) -> (r: ModelsStoreEntry)
        ensures
            r@ == self@,
    {
        ModelsStoreEntry {
            models: clone_models(&self.models),
            fetched_at: self.fetched_at,
            etag: clone_opt_text(&self.etag),
        }
    }
}

/// A change to what is kept for a provider: nothing to change, or an entry that takes
/// the place of the old one, or no entry any more.
pub struct ModelsPublication {
    pub persist: Option<Option<ModelsStoreEntry>>,
}

/// What is kept after a publication.
pub open spec fn published(
    entries: Map<Seq<char>, EntryView>,
    provider: Seq<char>,
    persist: Option<Option<ModelsStoreEntry>>,
) -> Map<Seq<char>, EntryView> {
    match persist {
        None => entries,
        Some(None) => entries.remove(provider),
        Some(Some(e)) => entries.insert(provider, e@),
    }
}

/// A store that lasts as long as it is held.
pub struct InMemoryModelsStore {
    entries: Dict<ModelsStoreEntry>,
}

impl View for InMemoryModelsStore {
    type V = Map<Seq<char>, EntryView>;

    closed spec fn view(&self) -> Map<Seq<char>, EntryView> {
        dict::meanings(self.entries@)
    }
}

impl InMemoryModelsStore {
    /// A store without entries.
    pub fn new() -> (r: InMemoryModelsStore)
        ensures
            r@ == Map::<Seq<char>, EntryView>::empty(),
    {
        let s: InMemoryModelsStore = InMemoryModelsStore { entries: Dict::new() };
        assert(s@ =~= Map::<Seq<char>, EntryView>::empty());
        s
    }

    /// What is kept for a provider.
    pub fn read(&self, provider_id: &str) -> (r: Option<ModelsStoreEntry>)
        ensures
            match r {
                Some(e) => self@.contains_key(provider_id@) && e@ == self@[provider_id@],
                None => !self@.contains_key(provider_id@),
            },
    {
        match self.entries.get(provider_id) {
            Some(e) => Some(e.clone()),
            None => None,
        }
    }

    /// Keeps an entry for a provider.
    pub fn write(&mut self, provider_id: &str, entry: &ModelsStoreEntry)
        ensures
            final(self)@ == old(self)@.insert(provider_id@, entry@),
    {
        let ghost before = self@;
        self.entries.insert(provider_id, entry.clone());
        assert(self@ =~= before.insert(provider_id@, entry@));
    }

    /// Keeps nothing for a provider any more.
    pub fn delete(&mut self, provider_id: &str)
        ensures
            final(self)@ == old(self)@.remove(provider_id@),
    {
        let ghost before = self@;
        let gone: Option<ModelsStoreEntry> = self.entries.remove(provider_id);
        assert(self@ =~= before.remove(provider_id@));
    }
}

/// What a provider is told when its models are to be fetched again.
pub struct RefreshCtxState {
    pub credential: Option<Credential>,
    pub stored: Option<ModelsStoreEntry>,
    pub allow_network: bool,
    pub force: bool,
    pub provider_id: String,
}

impl RefreshCtxState {
    /// What is known before the models of a provider are fetched.
    pub fn new(
        provider_id: &str,
        credential: Option<Credential>,
        stored: Option<ModelsStoreEntry>,
        allow_network: bool,
        force: bool,
    ) -> (r: RefreshCtxState)
        ensures
            r.credential == credential,
            r.stored == stored,
            r.allow_network == allow_network,
            r.force == force,
            r.provider_id@ == provider_id@,
    {
        RefreshCtxState {
            credential,
            stored,
            allow_network,
            force,
            provider_id: provider_id.to_owned(),
        }
    }

    /// Makes the change of a publication for the provider.
    pub fn publish(&self, store: &mut InMemoryModelsStore, publication: ModelsPublication)
        ensures
            final(store)@ == published(old(store)@, self.provider_id@, publication.persist),
    {
        match publication.persist {
            None => {},
            Some(None) => {
                store.delete(self.provider_id.as_str());
            },
            Some(Some(e)) => {
                store.write(self.provider_id.as_str(), &e);
            },
        }
    }
}

/// What is published for one provider leaves what is kept for every other as it was,
/// and an entry that is published is what is read.
pub proof fn law_publication_is_read_back(
    entries: Map<Seq<char>, EntryView>,
    provider: Seq<char>,
    entry: ModelsStoreEntry,
    other: Seq<char>,
)
    requires
        other != provider,
    ensures
        published(entries, provider, Some(Some(entry))).contains_key(provider),
        published(entries, provider, Some(Some(entry)))[provider] == entry@,
        !published(entries, provider, Some(None)).contains_key(provider),
        published(entries, provider, Some(Some(entry))).contains_key(other) == entries.contains_key(
            other,
        ),
        entries.contains_key(other) ==> published(entries, provider, Some(Some(entry)))[other]
            == entries[other],
        published(entries, provider, Some(None)).contains_key(other) == entries.contains_key(other),
        entries.contains_key(other) ==> published(entries, provider, Some(None))[other]
            == entries[other],
{
}

} // verus!
