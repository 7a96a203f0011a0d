//! Lifting of views through `Option` and sequences.
use vstd::prelude::*;

verus! {

/// The view of each item, in order.
pub open spec fn all<T: View>(s: Seq<T>) -> Seq<T::V> {
    Seq::new(s.len(), |i: int| s[i]@)
}

/// The view of an optional value.
pub open spec fn opt<T: View>(o: Option<T>) -> Option<T::V> {
    match o {
        Some(t) => Some(t@),
        None => None,
    }
}

/// `o`, or `d` where there is none.
pub open spec fn or<A>(o: Option<A>, d: A) -> A {
    match o {
        Some(a) => a,
        None => d,
    }
}

/// The first of two that is there.
pub open spec fn first_of<A>(a: Option<A>, b: Option<A>) -> Option<A> {
    match a {
        Some(_) => a,
        None => b,
    }
}

/// A copy of an optional text.
pub fn clone_opt_text(o: &Option<String>) -> (r: Option<String>)
    ensures
        r == *o,
        opt(r) == opt(*o),
{
    match o {
        Some(s) => Some(s.clone()),
        None => None,
    }
}

/// An optional owned text as an optional borrowed one.
pub fn opt_str<'a>(o: &'a Option<String>) -> (r: Option<&'a str>)
    ensures
        opt(r) == opt(*o),
{
    match o {
        Some(s) => Some(s.as_str()),
        None => None,
    }
}

/// An optional borrowed text as an optional owned one.
pub fn opt_owned(o: Option<&str>) -> (r: Option<String>)
    ensures
        opt(r) == opt(o),
{
    match o {
        Some(s) => Some(s.to_owned()),
        None => None,
    }
}


pub broadcast proof fn lemma_all_push<T: View>(s: Seq<T>, x: T)
    ensures
        #[trigger] all(s.push(x)) == all(s).push(x@),
{
    assert(all(s.push(x)) =~= all(s).push(x@));
}

pub broadcast proof fn lemma_all_empty<T: View>()
    ensures
        #[trigger] all(Seq::<T>::empty()) == Seq::<T::V>::empty(),
{
    assert(all(Seq::<T>::empty()) =~= Seq::<T::V>::empty());
}

pub broadcast proof fn lemma_all_add<T: View>(a: Seq<T>, b: Seq<T>)
    ensures
        #[trigger] all(a + b) == all(a) + all(b),
{
    assert(all(a + b) =~= all(a) + all(b));
}

pub broadcast proof fn lemma_all_take<T: View>(s: Seq<T>, n: int)
    requires
        0 <= n <= s.len(),
    ensures
        #[trigger] all(s.take(n)) == all(s).take(n),
{
    assert(all(s.take(n)) =~= all(s).take(n));
}

/// A prefix grows by the item that follows it.
pub proof fn lemma_take_step<A>(s: Seq<A>, i: int)
    requires
        0 <= i < s.len(),
    ensures
        s.take(i + 1) == s.take(i).push(s[i]),
        s.take(i + 1).drop_last() == s.take(i),
        s.take(i + 1).last() == s[i],
{
    assert(s.take(i + 1) =~= s.take(i).push(s[i]));
    assert(s.take(i + 1).drop_last() =~= s.take(i));
}

/// The whole sequence as its own longest prefix.
pub proof fn lemma_take_all<A>(s: Seq<A>)
    ensures
        s.take(s.len() as int) == s,
        s.take(0) == Seq::<A>::empty(),
{
    assert(s.take(s.len() as int) =~= s);
    assert(s.take(0) =~= Seq::<A>::empty());
}

pub broadcast group group_views {
    lemma_all_push,
    lemma_all_empty,
    lemma_all_add,
    lemma_all_take,
}

} // verus!
