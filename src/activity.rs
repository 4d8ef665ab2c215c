use crate::topic::{filter_passes, SubscriptionFilter, Topic};
use vstd::seq_lib::group_filter_ensures;
use std::marker::PhantomData;
use vstd::prelude::*;

verus! {

/// Marker for the types that can be registered as activities.
pub trait Activity {}

impl<T> Activity for T {}

/// The domain an activity belongs to: a small integer taken from the
/// consumer's enumeration of domains, or none.
#[derive(Clone, Copy, Debug, PartialEq, Eq, Structural)]
pub struct DomainId {
    pub index: Option<usize>,
}

impl DomainId {
    pub fn new(index: usize) -> (r: DomainId)
        ensures
            r.index == Some(index),
    {
        DomainId { index: Some(index) }
    }

    pub fn none() -> (r: DomainId)
        ensures
            r.index.is_none(),
    {
        DomainId { index: None }
    }
}

/// A handle on an activity: its slot index, its domain, and the activity's
/// type as a marker that only the call site reads.
pub struct ActivityId<A> {
    pub index: usize,
    pub domain_index: DomainId,
    pub phantom: PhantomData<A>,
}

impl<A> Clone for ActivityId<A> {
    fn clone(&self) -> (r: Self)
        ensures
            r.index == self.index,
            r.domain_index == self.domain_index,
    {
        ActivityId { index: self.index, domain_index: self.domain_index, phantom: PhantomData }
    }
}

impl<A> Copy for ActivityId<A> {}

impl<A: Activity> ActivityId<A> {
    pub fn new(index: usize, domain_index: DomainId) -> (r: Self)
        ensures
            r.index == index,
            r.domain_index == domain_index,
    {
        ActivityId { index, domain_index, phantom: PhantomData }
    }
}

/// How a handler receives the message it subscribed to.
#[derive(Clone, Copy, Debug, PartialEq, Eq, Structural)]
pub enum MessageAccess {
    /// A shared borrow of the message.
    Shared,
    /// An exclusive borrow of the message.
    Exclusive,
    /// The message by value.
    Owned,
    /// No message at all (lifecycle topics).
    NoPayload,
}

/// One registered handler: the topic it listens to, the activity it is bound
/// to, its delivery policy, the key of its closure, and what it is handed.
#[derive(Clone, Copy, Debug, PartialEq, Eq, Structural)]
pub struct Subscription {
    pub topic: Topic,
    pub activity: usize,
    pub filter: SubscriptionFilter,
    pub handler: u64,
    pub access: MessageAccess,
    pub domained: bool,
}

/// The registrations of a sequence that listen to topic `t`, in order.
pub open spec fn on_topic(s: Seq<Subscription>, t: Topic) -> Seq<Subscription> {
    s.filter(|x: Subscription| x.topic == t)
}

/// The registrations of a sequence bound to activity slot `i`, in order.
pub open spec fn of_activity(s: Seq<Subscription>, i: usize) -> Seq<Subscription> {
    s.filter(|x: Subscription| x.activity == i)
}

/// The registrations of `v` bound to activity slot `i`, in order.
pub fn bound_to(v: &Vec<Subscription>, i: usize) -> (r: Vec<Subscription>)
    ensures
        r@ == of_activity(v@, i),
{
    let mut r: Vec<Subscription> = Vec::new();
    let mut k: usize = 0;
    while k < v.len()
        invariant
            k <= v@.len(),
            r@ == of_activity(v@.subrange(0, k as int), i),
        decreases v@.len() - k,
    {
        proof {
            lemma_prefix_step(v@, k as int);
            reveal(Seq::filter);
        }
        if v[k].activity == i {
            r.push(v[k]);
        }
        k = k + 1;
    }
    assert(v@.subrange(0, k as int) =~= v@);
    r
}

/// Every handler registered with the engine, in registration order.
pub struct ActivityHandlerContainer {
    data: Vec<Subscription>,
}

impl View for ActivityHandlerContainer {
    type V = Seq<Subscription>;

    closed spec fn view(&self) -> Seq<Subscription> {
        self.data@
    }
}

proof fn lemma_prefix_step<T>(s: Seq<T>, i: int)
    requires
        0 <= i < s.len(),
    ensures
        s.subrange(0, i + 1).drop_last() == s.subrange(0, i),
        s.subrange(0, i + 1).last() == s[i],
{
    assert(s.subrange(0, i + 1).drop_last() =~= s.subrange(0, i));
}

impl ActivityHandlerContainer {
    pub fn new() -> (r: Self)
        ensures
            r@ == Seq::<Subscription>::empty(),
    {
        ActivityHandlerContainer { data: Vec::new() }
    }

    /// Appends a handler after every one registered before it.
    pub fn push(&mut self, s: Subscription)
        ensures
            final(self)@ == old(self)@.push(s),
    {
        self.data.push(s);
    }

    /// All handlers, in registration order.
    pub fn iter(&self) -> (r: Vec<Subscription>)
        ensures
            r@ == self@,
    {
        self.data.clone()
    }

    /// The handlers bound to one activity, in registration order.
    pub fn iter_for<A: Activity>(&self, id: ActivityId<A>) -> (r: Vec<Subscription>)
        ensures
            r@ == of_activity(self@, id.index),
    {
        bound_to(&self.data, id.index)
    }

    /// The handlers listening to one topic, in registration order.
    pub fn iter_topic(&self, t: Topic) -> (r: Vec<Subscription>)
        ensures
            r@ == on_topic(self@, t),
    {
        let mut r: Vec<Subscription> = Vec::new();
        let mut i: usize = 0;
        while i < self.data.len()
            invariant
                i <= self.data@.len(),
                r@ == on_topic(self.data@.subrange(0, i as int), t),
            decreases self.data@.len() - i,
        {
            proof {
                lemma_prefix_step(self.data@, i as int);
                reveal(Seq::filter);
            }
            if self.data[i].topic == t {
                r.push(self.data[i]);
            }
            i = i + 1;
        }
        assert(self.data@.subrange(0, i as int) =~= self.data@);
        r
    }
}

/// The activities' payloads, one slot each, and their active flags.
///
/// Slots are appended and never reused: a deleted activity leaves its slot
/// empty for good.
pub struct ActivityContainer<P> {
    data: Vec<Option<P>>,
    active: Vec<bool>,
}

impl<P> ActivityContainer<P> {
    pub closed spec fn slots(&self) -> Seq<Option<P>> {
        self.data@
    }

    pub closed spec fn flags(&self) -> Seq<bool> {
        self.active@
    }

    /// Every slot has its flag.
    pub open spec fn wf(&self) -> bool {
        self.slots().len() == self.flags().len()
    }

    /// Whether slot `i` holds a live activity.
    pub open spec fn is_live(&self, i: int) -> bool {
        0 <= i < self.slots().len() && self.slots()[i].is_some()
    }

    pub fn new() -> (r: Self)
        ensures
            r.wf(),
            r.slots().len() == 0,
    {
        ActivityContainer { data: Vec::new(), active: Vec::new() }
    }

    pub fn len(&self) -> (r: usize)
        requires
            self.wf(),
        ensures
            r == self.slots().len(),
    {
        self.data.len()
    }

    /// Appends a slot holding `a`, with its flag set to `start_active`.
    pub fn add<A: Activity>(&mut self, a: P, domain: DomainId, start_active: bool) -> (r:
        ActivityId<A>)
        requires
            old(self).wf(),
        ensures
            final(self).wf(),
            r.index == old(self).slots().len(),
            r.domain_index == domain,
            final(self).slots() == old(self).slots().push(Some(a)),
            final(self).flags() == old(self).flags().push(start_active),
    {
        let i = self.data.len();
        self.data.push(Some(a));
        self.active.push(start_active);
        ActivityId::new(i, domain)
    }

    pub fn is_active<A: Activity>(&self, id: ActivityId<A>) -> (r: bool)
        requires
            self.wf(),
            id.index < self.slots().len(),
        ensures
            r == self.flags()[id.index as int],
    {
        self.active[id.index]
    }

    pub fn set_active<A: Activity>(&mut self, id: ActivityId<A>, active: bool)
        requires
            old(self).wf(),
            id.index < old(self).slots().len(),
        ensures
            final(self).wf(),
            final(self).slots() == old(self).slots(),
            final(self).flags() == old(self).flags().update(id.index as int, active),
    {
        self.active.set(id.index, active);
    }

    /// The payload of a live activity.
    pub fn get<A: Activity>(&self, id: ActivityId<A>) -> (r: &P)
        requires
            self.is_live(id.index as int),
        ensures
            Some(*r) == self.slots()[id.index as int],
    {
        self.data[id.index].as_ref().unwrap()
    }

    /// Exclusive access to the payload of a live activity.
    pub fn get_mut<A: Activity>(&mut self, id: ActivityId<A>) -> (r: &mut P)
        requires
            old(self).wf(),
            old(self).is_live(id.index as int),
        ensures
            Some(*r) == old(self).slots()[id.index as int],
            final(self).wf(),
            final(self).slots() == old(self).slots().update(id.index as int, Some(*final(r))),
            final(self).flags() == old(self).flags(),
    {
        self.data[id.index].as_mut().unwrap()
    }

    /// Whether slot `i` holds a live activity.
    pub fn live(&self, i: usize) -> (r: bool)
        requires
            self.wf(),
        ensures
            r == self.is_live(i as int),
    {
        i < self.data.len() && self.data[i].is_some()
    }

    /// Whether the handler of `s` runs now.
    pub fn admits(&self, s: &Subscription) -> (r: bool)
        requires
            self.wf(),
        ensures
            r == deliverable(*s, *self),
    {
        if s.activity < self.data.len() && self.data[s.activity].is_some() {
            s.filter.passes(self.active[s.activity])
        } else {
            false
        }
    }

    /// Takes the payload out of a live activity's slot, leaving it empty for good.
    pub fn remove<A: Activity>(&mut self, id: ActivityId<A>) -> (r: P)
        requires
            old(self).wf(),
            old(self).is_live(id.index as int),
        ensures
            final(self).wf(),
            Some(r) == old(self).slots()[id.index as int],
            final(self).slots() == old(self).slots().update(id.index as int, None),
            final(self).flags() == old(self).flags(),
    {
        let mut slot: Option<P> = None;
        std::mem::swap(&mut slot, &mut self.data[id.index]);
        slot.unwrap()
    }
}

/// Whether a registration's handler runs for the activities in `c` right now:
/// its activity is live and its filter passes on the activity's flag.
pub open spec fn deliverable<P>(s: Subscription, c: ActivityContainer<P>) -> bool {
    c.is_live(s.activity as int) && filter_passes(s.filter, c.flags()[s.activity as int])
}

/// The handlers that a broadcast on topic `t` runs, in registration order.
pub open spec fn delivery_plan<P>(
    subs: Seq<Subscription>,
    t: Topic,
    c: ActivityContainer<P>,
) -> Seq<Subscription> {
    on_topic(subs, t).filter(|s: Subscription| deliverable(s, c))
}

/// A handler registered after the others runs after them: on its own topic
/// the new registration comes last in the delivery plan, behind the earlier
/// ones in their order, and the plans of other topics do not change.
pub proof fn lemma_registration_order<P>(subs: Seq<Subscription>, s: Subscription, c: ActivityContainer<P>)
    requires
        deliverable(s, c),
    ensures
        delivery_plan(subs.push(s), s.topic, c) == delivery_plan(subs, s.topic, c).push(s),
        forall|t: Topic|
            t != s.topic ==> #[trigger] delivery_plan(subs.push(s), t, c) == delivery_plan(subs, t, c),
{
    reveal(Seq::filter);
    assert(subs.push(s).drop_last() =~= subs);
    assert(on_topic(subs.push(s), s.topic) == on_topic(subs, s.topic).push(s));
    assert(on_topic(subs, s.topic).push(s).drop_last() =~= on_topic(subs, s.topic));
    assert forall|t: Topic| t != s.topic implies #[trigger] delivery_plan(subs.push(s), t, c)
        == delivery_plan(subs, t, c) by {
        assert(on_topic(subs.push(s), t) == on_topic(subs, t));
    }
}

proof fn lemma_on_topic_empty(subs: Seq<Subscription>, t: Topic)
    requires
        forall|i: int| 0 <= i < subs.len() ==> (#[trigger] subs[i]).topic != t,
    ensures
        on_topic(subs, t).len() == 0,
    decreases subs.len(),
{
    reveal(Seq::filter);
    if subs.len() > 0 {
        let rest = subs.drop_last();
        assert forall|i: int| 0 <= i < rest.len() implies (#[trigger] rest[i]).topic != t by {
            assert(rest[i] == subs[i]);
        }
        lemma_on_topic_empty(rest, t);
        assert(subs.last() == subs[subs.len() - 1]);
    }
}

/// A topic without subscribers has an empty delivery plan: a broadcast on
/// it runs no handler.
pub proof fn lemma_no_subscribers<P>(subs: Seq<Subscription>, t: Topic, c: ActivityContainer<P>)
    requires
        forall|i: int| 0 <= i < subs.len() ==> (#[trigger] subs[i]).topic != t,
    ensures
        delivery_plan(subs, t, c).len() == 0,
{
    lemma_on_topic_empty(subs, t);
    on_topic(subs, t).lemma_filter_len(|x: Subscription| deliverable(x, c));
}

/// A handler under the default policy, bound to a live activity, is in a
/// topic's delivery plan exactly when the activity is active: never while it
/// is inactive, and again once it is active.
pub proof fn lemma_default_filter<P>(subs: Seq<Subscription>, s: Subscription, c: ActivityContainer<P>)
    requires
        subs.contains(s),
        s.filter == SubscriptionFilter::ActiveOnly,
        c.is_live(s.activity as int),
    ensures
        delivery_plan(subs, s.topic, c).contains(s) == c.flags()[s.activity as int],
{
    broadcast use group_filter_ensures;

    let pred = |x: Subscription| deliverable(x, c);
    let tp = |x: Subscription| x.topic == s.topic;
    let i = choose|i: int| 0 <= i < subs.len() && subs[i] == s;
    subs.lemma_filter_contains(tp, i);
    let on = on_topic(subs, s.topic);
    let j = choose|j: int| 0 <= j < on.len() && on[j] == s;
    if c.flags()[s.activity as int] {
        on.lemma_filter_contains(pred, j);
    } else {
        if on.filter(pred).contains(s) {
            let k = choose|k: int| 0 <= k < on.filter(pred).len() && on.filter(pred)[k] == s;
            on.lemma_filter_pred(pred, k);
        }
    }
}

} // verus!