use std::collections::HashMap;
use vstd::prelude::*;

verus! {

broadcast use vstd::std_specs::hash::group_hash_axioms;

/// The state of an outstanding request.
#[derive(Debug, PartialEq, Eq, Structural)]
pub enum ReplySlot<V> {
    Pending,
    Completed(V),
}

/// What an awaiting caller finds when it looks at its request.
#[derive(Debug, PartialEq, Eq)]
pub enum ReplyPoll<V> {
    /// The reply arrived; the request is no longer tracked.
    Ready(V),
    /// No reply yet.
    Pending,
    /// The request is not tracked (abandoned, or already resolved).
    Gone,
}

/// The entries after a reply `v` for request `id` is observed: a pending
/// entry completes, anything else is left as it was and the reply discarded.
pub open spec fn completed<V>(m: Map<u64, ReplySlot<V>>, id: u64, v: V) -> Map<u64, ReplySlot<V>> {
    if m.contains_key(id) && m[id] == ReplySlot::<V>::Pending {
        m.insert(id, ReplySlot::Completed(v))
    } else {
        m
    }
}

/// The entries, and the answer, after request `id` is polled.
pub open spec fn polled<V>(m: Map<u64, ReplySlot<V>>, id: u64) -> (Map<u64, ReplySlot<V>>, ReplyPoll<V>) {
    if !m.contains_key(id) {
        (m, ReplyPoll::Gone)
    } else {
        match m[id] {
            ReplySlot::Pending => (m, ReplyPoll::Pending),
            ReplySlot::Completed(v) => (m.remove(id), ReplyPoll::Ready(v)),
        }
    }
}

/// Maps outstanding request identifiers to their reply slots.
pub struct ResponseTracker<V> {
    next: u64,
    slots: HashMap<u64, ReplySlot<V>>,
}

impl<V> ResponseTracker<V> {
    pub closed spec fn entries(&self) -> Map<u64, ReplySlot<V>> {
        self.slots@
    }

    /// The identifier the next request gets.
    pub closed spec fn next_id(&self) -> u64 {
        self.next
    }

    /// Every tracked identifier was handed out already.
    pub closed spec fn wf(&self) -> bool {
        forall|k: u64| #[trigger] self.slots@.contains_key(k) ==> k < self.next
    }

    pub fn new() -> (r: Self)
        ensures
            r.wf(),
            r.entries() == Map::<u64, ReplySlot<V>>::empty(),
            r.next_id() == 0,
    {
        ResponseTracker { next: 0, slots: HashMap::new() }
    }

    /// Allocates a fresh identifier and tracks it as pending; `None` once the
    /// identifiers are used up.
    pub fn allocate(&mut self) -> (r: Option<u64>)
        requires
            old(self).wf(),
        ensures
            final(self).wf(),
            old(self).next_id() == u64::MAX ==> r.is_none() && *final(self) == *old(self),
            old(self).next_id() < u64::MAX ==> {
                &&& r == Some(old(self).next_id())
                &&& !old(self).entries().contains_key(old(self).next_id())
                &&& final(self).entries() == old(self).entries().insert(
                    old(self).next_id(),
                    ReplySlot::Pending,
                )
                &&& final(self).next_id() == old(self).next_id() + 1
            },
    {
        if self.next == u64::MAX {
            return None;
        }
        let id = self.next;
        self.slots.insert(id, ReplySlot::Pending);
        self.next = id + 1;
        Some(id)
    }

    /// Records a reply for request `id`; returns whether it was awaited.
    pub fn complete(&mut self, id: u64, v: V) -> (r: bool)
        requires
            old(self).wf(),
        ensures
            final(self).wf(),
            r == (old(self).entries().contains_key(id) && old(self).entries()[id]
                == ReplySlot::<V>::Pending),
            final(self).entries() == completed(old(self).entries(), id, v),
            final(self).next_id() == old(self).next_id(),
    {
        let pending = match self.slots.get(&id) {
            Some(ReplySlot::Pending) => true,
            _ => false,
        };
        if pending {
            self.slots.insert(id, ReplySlot::Completed(v));
        }
        pending
    }

    /// Looks at request `id`, handing out its reply once it has come.
    pub fn poll(&mut self, id: u64) -> (r: ReplyPoll<V>)
        requires
            old(self).wf(),
        ensures
            final(self).wf(),
            (final(self).entries(), r) == polled(old(self).entries(), id),
            final(self).next_id() == old(self).next_id(),
    {
        match self.slots.remove(&id) {
            Some(ReplySlot::Completed(v)) => ReplyPoll::Ready(v),
            Some(ReplySlot::Pending) => {
                self.slots.insert(id, ReplySlot::Pending);
                proof {
                    assert(self.slots@ =~= old(self).slots@);
                }
                ReplyPoll::Pending
            },
            None => ReplyPoll::Gone,
        }
    }

    /// Stops tracking request `id`; a later reply for it is discarded.
    pub fn abandon(&mut self, id: u64)
        requires
            old(self).wf(),
        ensures
            final(self).wf(),
            final(self).entries() == old(self).entries().remove(id),
            final(self).next_id() == old(self).next_id(),
    {
        self.slots.remove(&id);
    }
}

/// A reply addressed to a pending request resolves it, with the reply's value,
/// at the next poll.
pub proof fn lemma_reply_resolves<V>(m: Map<u64, ReplySlot<V>>, id: u64, v: V)
    requires
        m.contains_key(id),
        m[id] == ReplySlot::<V>::Pending,
    ensures
        polled(completed(m, id, v), id).1 == ReplyPoll::Ready(v),
        polled(completed(m, id, v), id).0 == m.remove(id),
{
    assert(m.insert(id, ReplySlot::Completed(v)).remove(id) =~= m.remove(id));
}

/// Without a reply a pending request never resolves; once abandoned it never
/// resolves, whatever replies come later.
pub proof fn lemma_unanswered_never_resolves<V>(m: Map<u64, ReplySlot<V>>, id: u64, v: V)
    requires
        m.contains_key(id),
        m[id] == ReplySlot::<V>::Pending,
    ensures
        polled(m, id) == (m, ReplyPoll::<V>::Pending),
        polled(completed(m.remove(id), id, v), id) == (m.remove(id), ReplyPoll::<V>::Gone),
{
}

} // verus!
