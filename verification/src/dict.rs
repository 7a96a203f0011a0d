//! Maps keyed by text, held as a list of entries with distinct keys.
use vstd::prelude::*;
use crate::text::same_text;
use crate::views;

verus! {

/// A map from texts to values. Its entries keep the order in which their keys
/// were first set.
pub struct Dict<T> {
    entries: Vec<(String, T)>,
}

/// The map that a list of entries stands for.
pub closed spec fn entries_map<T>(entries: Seq<(String, T)>) -> Map<Seq<char>, T>
    decreases entries.len(),
{
    if entries.len() == 0 {
        Map::empty()
    } else {
        entries_map(entries.drop_last()).insert(entries.last().0@, entries.last().1)
    }
}

spec fn distinct<T>(entries: Seq<(String, T)>) -> bool {
    forall|i: int, j: int|
        0 <= i < j < entries.len() ==> (#[trigger] entries[i]).0@ != (#[trigger] entries[j]).0@
}

proof fn lemma_entry<T>(entries: Seq<(String, T)>, i: int)
    requires
        distinct(entries),
        0 <= i < entries.len(),
    ensures
        entries_map(entries).contains_key(entries[i].0@),
        entries_map(entries)[entries[i].0@] == entries[i].1,
    decreases entries.len(),
{
    if i < entries.len() - 1 {
        assert(distinct(entries.drop_last()));
        lemma_entry(entries.drop_last(), i);
        assert(entries.drop_last()[i] == entries[i]);
        assert(entries.last() == entries[entries.len() - 1]);
    }
}

proof fn lemma_keys<T>(entries: Seq<(String, T)>, key: Seq<char>)
    requires
        entries_map(entries).contains_key(key),
    ensures
        exists|i: int| 0 <= i < entries.len() && (#[trigger] entries[i]).0@ == key,
    decreases entries.len(),
{
    if entries.len() > 0 {
        if entries.last().0@ == key {
            assert(entries[entries.len() - 1].0@ == key);
        } else {
            let init = entries.drop_last();
            lemma_keys(init, key);
            let i = choose|i: int| 0 <= i < init.len() && (#[trigger] init[i]).0@ == key;
            assert(entries[i].0@ == key);
        }
    }
}

proof fn lemma_push<T>(entries: Seq<(String, T)>, entry: (String, T))
    ensures
        entries_map(entries.push(entry)) == entries_map(entries).insert(entry.0@, entry.1),
{
    assert(entries.push(entry).drop_last() =~= entries);
}

proof fn lemma_update<T>(entries: Seq<(String, T)>, i: int, entry: (String, T))
    requires
        distinct(entries),
        0 <= i < entries.len(),
        entries[i].0@ == entry.0@,
    ensures
        entries_map(entries.update(i, entry)) =~= entries_map(entries).insert(entry.0@, entry.1),
    decreases entries.len(),
{
    if i == entries.len() - 1 {
        assert(entries.update(i, entry).drop_last() =~= entries.drop_last());
    } else {
        assert(distinct(entries.drop_last()));
        lemma_update(entries.drop_last(), i, entry);
        assert(entries.update(i, entry).drop_last() =~= entries.drop_last().update(i, entry));
        assert(entries[entries.len() - 1].0@ != entry.0@);
    }
}

proof fn lemma_remove<T>(entries: Seq<(String, T)>, i: int)
    requires
        distinct(entries),
        0 <= i < entries.len(),
    ensures
        entries_map(entries.remove(i)) =~= entries_map(entries).remove(entries[i].0@),
    decreases entries.len(),
{
    if i == entries.len() - 1 {
        assert(entries.remove(i) =~= entries.drop_last());
        if entries_map(entries.drop_last()).contains_key(entries[i].0@) {
            lemma_keys(entries.drop_last(), entries[i].0@);
            let j = choose|j: int|
                0 <= j < entries.drop_last().len() && (#[trigger] entries.drop_last()[j]).0@
                    == entries[i].0@;
            assert(entries[j].0@ == entries[i].0@);
        }
    } else {
        assert(distinct(entries.drop_last()));
        lemma_remove(entries.drop_last(), i);
        assert(entries.remove(i).drop_last() =~= entries.drop_last().remove(i));
        assert(entries[entries.len() - 1].0@ != entries[i].0@);
    }
}

impl<T> View for Dict<T> {
    type V = Map<Seq<char>, T>;

    closed spec fn view(&self) -> Map<Seq<char>, T> {
        entries_map(self.entries@)
    }
}

impl<T> Dict<T> {
    #[verifier::type_invariant]
    spec fn well_formed(self) -> bool {
        distinct(self.entries@)
    }

    /// The map without entries.
    pub fn new() -> (r: Dict<T>)
        ensures
            r@ == Map::<Seq<char>, T>::empty(),
    {
        Dict { entries: Vec::new() }
    }

    fn position(&self, key: &str) -> (r: Option<usize>)
        ensures
            match r {
                Some(i) => i < self.entries@.len() && self.entries@[i as int].0@ == key@,
                None => forall|j: int|
                    0 <= j < self.entries@.len() ==> (#[trigger] self.entries@[j]).0@ != key@,
            },
    {
        let mut i: usize = 0;
        while i < self.entries.len()
            invariant
                i <= self.entries@.len(),
                forall|j: int| 0 <= j < i ==> (#[trigger] self.entries@[j]).0@ != key@,
            decreases self.entries@.len() - i,
        {
            if same_text(self.entries[i].0.as_str(), key) {
                return Some(i);
            }
            i = i + 1;
        }
        None
    }

    /// The value of `key`.
    pub fn get<'a>(&'a self, key: &str) -> (r: Option<&'a T>)
        ensures
            match r {
                Some(v) => self@.contains_key(key@) && *v == self@[key@],
                None => !self@.contains_key(key@),
            },
    {
        proof {
            use_type_invariant(self);
        }
        match self.position(key) {
            Some(i) => {
                proof {
                    lemma_entry(self.entries@, i as int);
                }
                Some(&self.entries[i].1)
            },
            None => {
                proof {
                    if self@.contains_key(key@) {
                        lemma_keys(self.entries@, key@);
                    }
                }
                None
            },
        }
    }

    /// Whether `key` has a value.
    pub fn contains_key(&self, key: &str) -> (r: bool)
        ensures
            r == self@.contains_key(key@),
    {
        self.get(key).is_some()
    }

    /// Sets the value of `key`.
    pub fn insert(&mut self, key: &str, value: T)
        ensures
            final(self)@ == old(self)@.insert(key@, value),
    {
        proof {
            use_type_invariant(&*self);
        }
        let found: Option<usize> = self.position(key);
        let mut entries: Vec<(String, T)> = Vec::new();
        std::mem::swap(&mut entries, &mut self.entries);
        let entry = (key.to_owned(), value);
        match found {
            Some(i) => {
                proof {
                    lemma_update(entries@, i as int, entry);
                }
                entries.set(i, entry);
            },
            None => {
                proof {
                    lemma_push(entries@, entry);
                }
                entries.push(entry);
            },
        }
        self.entries = entries;
    }

    /// Takes `key` and its value out.
    pub fn remove(&mut self, key: &str) -> (r: Option<T>)
        ensures
            final(self)@ == old(self)@.remove(key@),
            match r {
                Some(v) => old(self)@.contains_key(key@) && v == old(self)@[key@],
                None => !old(self)@.contains_key(key@),
            },
    {
        proof {
            use_type_invariant(&*self);
        }
        match self.position(key) {
            Some(i) => {
                let mut entries: Vec<(String, T)> = Vec::new();
                std::mem::swap(&mut entries, &mut self.entries);
                proof {
                    lemma_entry(entries@, i as int);
                    lemma_remove(entries@, i as int);
                }
                let (_, value) = entries.remove(i);
                self.entries = entries;
                Some(value)
            },
            None => {
                proof {
                    if self@.contains_key(key@) {
                        lemma_keys(self.entries@, key@);
                    }
                    assert(self@.remove(key@) =~= self@);
                }
                None
            },
        }
    }

    /// Takes every entry out.
    pub fn clear(&mut self)
        ensures
            final(self)@ == Map::<Seq<char>, T>::empty(),
    {
        self.entries = Vec::new();
    }

    /// The keys, each once.
    pub fn keys(&self) -> (r: Vec<String>)
        ensures
            views::all(r@).no_duplicates(),
            forall|key: Seq<char>| #[trigger]
                self@.contains_key(key) <==> views::all(r@).contains(key),
    {
        proof {
            use_type_invariant(self);
        }
        let mut out: Vec<String> = Vec::new();
        let mut i: usize = 0;
        while i < self.entries.len()
            invariant
                i <= self.entries@.len(),
                out@.len() == i,
                forall|j: int| 0 <= j < i ==> (#[trigger] out@[j])@ == self.entries@[j].0@,
            decreases self.entries@.len() - i,
        {
            out.push(self.entries[i].0.clone());
            i = i + 1;
        }
        proof {
            let all = views::all(out@);
            assert forall|a: int, b: int| 0 <= a < b < all.len() implies all[a] != all[b] by {
                assert(out@[a]@ == self.entries@[a].0@);
                assert(out@[b]@ == self.entries@[b].0@);
            }
            assert forall|key: Seq<char>| #[trigger] self@.contains_key(key) <==> all.contains(
                key,
            ) by {
                if self@.contains_key(key) {
                    lemma_keys(self.entries@, key);
                    let j = choose|j: int|
                        0 <= j < self.entries@.len() && (#[trigger] self.entries@[j]).0@ == key;
                    assert(out@[j]@ == key);
                    assert(all[j] == key);
                }
                if all.contains(key) {
                    let j = choose|j: int| 0 <= j < all.len() && all[j] == key;
                    assert(out@[j]@ == key);
                    lemma_entry(self.entries@, j);
                }
            }
        }
        out
    }

    /// How many keys there are.
    pub fn len(&self) -> (r: usize)
        ensures
            self@.dom().finite(),
            r == self@.dom().len(),
    {
        proof {
            use_type_invariant(self);
            lemma_size(self.entries@);
        }
        self.entries.len()
    }
}

proof fn lemma_size<T>(entries: Seq<(String, T)>)
    requires
        distinct(entries),
    ensures
        entries_map(entries).dom().finite(),
        entries_map(entries).dom().len() == entries.len(),
    decreases entries.len(),
{
    if entries.len() > 0 {
        let init = entries.drop_last();
        assert(distinct(init));
        lemma_size(init);
        if entries_map(init).contains_key(entries.last().0@) {
            lemma_keys(init, entries.last().0@);
            let j = choose|j: int|
                0 <= j < init.len() && (#[trigger] init[j]).0@ == entries.last().0@;
            assert(entries[j].0@ == entries[entries.len() - 1].0@);
        }
    }
}

/// What the values of a map mean.
pub open spec fn meanings<T: View>(m: Map<Seq<char>, T>) -> Map<Seq<char>, T::V> {
    m.map_values(|t: T| t@)
}

/// The texts that a map of texts holds.
pub open spec fn texts(m: Map<Seq<char>, String>) -> Map<Seq<char>, Seq<char>> {
    m.map_values(|s: String| s@)
}

impl Dict<String> {
    /// The text of `key`.
    pub fn get_text<'a>(&'a self, key: &str) -> (r: Option<&'a str>)
        ensures
            match r {
                Some(v) => texts(self@).contains_key(key@) && v@ == texts(self@)[key@],
                None => !texts(self@).contains_key(key@),
            },
    {
        match self.get(key) {
            Some(v) => Some(v.as_str()),
            None => None,
        }
    }

    /// A copy.
    pub fn clone_texts(&self) -> (r: Dict<String>)
        ensures
            r@ == self@,
    {
        proof {
            use_type_invariant(self);
        }
        let mut out: Vec<(String, String)> = Vec::new();
        let mut i: usize = 0;
        while i < self.entries.len()
            invariant
                i <= self.entries@.len(),
                out@ == self.entries@.take(i as int),
            decreases self.entries@.len() - i,
        {
            out.push((self.entries[i].0.clone(), self.entries[i].1.clone()));
            proof {
                views::lemma_take_step(self.entries@, i as int);
            }
            i = i + 1;
        }
        proof {
            views::lemma_take_all(self.entries@);
        }
        Dict { entries: out }
    }
}

} // verus!
