use std::collections::HashMap;
use vstd::prelude::*;

verus! {

broadcast use vstd::std_specs::hash::group_hash_axioms;

/// The shared state of one domain: at most one value per type, each type
/// named by its tag.
pub struct DomainState<V> {
    data: HashMap<u64, V>,
}

impl<V> View for DomainState<V> {
    type V = Map<u64, V>;

    closed spec fn view(&self) -> Map<u64, V> {
        self.data@
    }
}

impl<V> DomainState<V> {
    pub fn new() -> (r: Self)
        ensures
            r@ == Map::<u64, V>::empty(),
    {
        DomainState { data: HashMap::new() }
    }

    /// Stores `value` as the one value of type `tag`, replacing any earlier one.
    pub fn store(&mut self, tag: u64, value: V)
        ensures
            final(self)@ == old(self)@.insert(tag, value),
    {
        self.data.insert(tag, value);
    }

    /// The value of type `tag`, if one is stored.
    pub fn read(&self, tag: u64) -> (r: Option<&V>)
        ensures
            r.is_some() == self@.contains_key(tag),
            r.is_some() ==> *r.unwrap() == self@[tag],
    {
        self.data.get(&tag)
    }

    /// Removes and returns the value of type `tag`, if one is stored.
    pub fn take(&mut self, tag: u64) -> (r: Option<V>)
        ensures
            r.is_some() == old(self)@.contains_key(tag),
            r.is_some() ==> r.unwrap() == old(self)@[tag],
            final(self)@ == old(self)@.remove(tag),
    {
        self.data.remove(&tag)
    }
}

/// `bags` with empty bags added so that domain `d` exists.
pub open spec fn prepared<V>(bags: Seq<Map<u64, V>>, d: int) -> Seq<Map<u64, V>> {
    if d < bags.len() {
        bags
    } else {
        bags + Seq::new((d + 1 - bags.len()) as nat, |i: int| Map::<u64, V>::empty())
    }
}

/// `bags` after `value` is stored in domain `d` as its value of type `tag`.
pub open spec fn stored<V>(bags: Seq<Map<u64, V>>, d: int, tag: u64, value: V) -> Seq<
    Map<u64, V>,
> {
    prepared(bags, d).update(d, prepared(bags, d)[d].insert(tag, value))
}

/// The domains' state bags, indexed by domain number and created on first use.
pub struct ManagedState<V> {
    domains: Vec<DomainState<V>>,
}

impl<V> ManagedState<V> {
    /// The bag of each prepared domain, by domain number.
    pub closed spec fn bags(&self) -> Seq<Map<u64, V>> {
        self.domains@.map_values(|d: DomainState<V>| d@)
    }

    pub fn new() -> (r: Self)
        ensures
            r.bags().len() == 0,
    {
        ManagedState { domains: Vec::new() }
    }

    pub fn len(&self) -> (r: usize)
        ensures
            r == self.bags().len(),
    {
        self.domains.len()
    }

    /// Makes sure that domain `d` exists, adding empty bags up to it.
    pub fn prepare(&mut self, d: usize)
        requires
            d < usize::MAX,
        ensures
            final(self).bags() == prepared(old(self).bags(), d as int),
    {
        while self.domains.len() <= d
            invariant
                d < usize::MAX,
                self.domains@.len() >= old(self).domains@.len(),
                self.domains@.len() <= if d < old(self).domains@.len() {
                    old(self).domains@.len() as int
                } else {
                    d + 1
                },
                forall|i: int|
                    0 <= i < self.domains@.len() ==> #[trigger] self.domains@[i]@ == if i
                        < old(self).domains@.len() {
                        old(self).domains@[i]@
                    } else {
                        Map::<u64, V>::empty()
                    },
            decreases d + 1 - self.domains@.len(),
        {
            self.domains.push(DomainState::new());
        }
        assert(self.bags() =~= prepared(old(self).bags(), d as int));
    }

    /// The bag of a prepared domain.
    pub fn get(&self, d: usize) -> (r: &DomainState<V>)
        requires
            d < self.bags().len(),
        ensures
            r@ == self.bags()[d as int],
    {
        &self.domains[d]
    }

    /// Exclusive access to the bag of a prepared domain.
    pub fn get_mut(&mut self, d: usize) -> (r: &mut DomainState<V>)
        requires
            d < old(self).bags().len(),
        ensures
            r@ == old(self).bags()[d as int],
            final(self).bags() == old(self).bags().update(d as int, final(r)@),
    {
        &mut self.domains[d]
    }

    /// Stores `value` as domain `d`'s value of type `tag`, preparing the domain first.
    pub fn store(&mut self, d: usize, tag: u64, value: V)
        requires
            d < usize::MAX,
        ensures
            final(self).bags() == stored(old(self).bags(), d as int, tag, value),
    {
        self.prepare(d);
        let bag = self.get_mut(d);
        bag.store(tag, value);
    }
}

} // verus!
