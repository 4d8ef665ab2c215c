use crate::activity::{
    delivery_plan, of_activity, deliverable, Activity, ActivityContainer, ActivityHandlerContainer,
    ActivityId, DomainId, MessageAccess, Subscription, bound_to, lemma_default_filter,
};
use crate::domain::{stored, DomainState, ManagedState};
use crate::response::{completed, polled, ReplyPoll, ReplySlot, ResponseTracker};
use crate::topic::{SubscriptionFilter, Topic};
use std::collections::HashMap;
use vstd::prelude::*;

verus! {

broadcast use vstd::std_specs::hash::group_hash_axioms;

/// The hook an activity's deletion hands its payload to.
#[derive(Clone, Copy, Debug, PartialEq, Eq, Structural)]
pub struct OnDelete {
    pub handler: u64,
    /// Whether the hook also gets the activity's domain bag.
    pub domained: bool,
}

/// The core storage: activities, domain bags and deletion hooks. A broadcast
/// holds it exclusively from its start to its end.
pub struct Core<P, V> {
    activities: ActivityContainer<P>,
    managed_state: ManagedState<V>,
    on_delete: HashMap<usize, OnDelete>,
}

impl<P, V> Core<P, V> {
    pub closed spec fn activities(&self) -> ActivityContainer<P> {
        self.activities
    }

    pub closed spec fn bags(&self) -> Seq<Map<u64, V>> {
        self.managed_state.bags()
    }

    pub closed spec fn hooks(&self) -> Map<usize, OnDelete> {
        self.on_delete@
    }

    pub open spec fn wf(&self) -> bool {
        self.activities().wf()
    }

    /// The number of activity slots, empty ones included.
    pub fn len(&self) -> (r: usize)
        requires
            self.wf(),
        ensures
            r == self.activities().slots().len(),
    {
        self.activities.len()
    }

    pub fn is_active<A: Activity>(&self, id: ActivityId<A>) -> (r: bool)
        requires
            self.wf(),
            id.index < self.activities().slots().len(),
        ensures
            r == self.activities().flags()[id.index as int],
    {
        self.activities.is_active(id)
    }

    /// The payload of a live activity.
    pub fn activity<A: Activity>(&self, id: ActivityId<A>) -> (r: &P)
        requires
            self.activities().is_live(id.index as int),
        ensures
            Some(*r) == self.activities().slots()[id.index as int],
    {
        self.activities.get(id)
    }

    /// Exclusive access to the payload of a live activity.
    pub fn activity_mut<A: Activity>(&mut self, id: ActivityId<A>) -> (r: &mut P)
        requires
            old(self).wf(),
            old(self).activities().is_live(id.index as int),
        ensures
            Some(*r) == old(self).activities().slots()[id.index as int],
            final(self).wf(),
            final(self).activities().slots() == old(self).activities().slots().update(
                id.index as int,
                Some(*final(r)),
            ),
            final(self).activities().flags() == old(self).activities().flags(),
            final(self).bags() == old(self).bags(),
            final(self).hooks() == old(self).hooks(),
    {
        self.activities.get_mut(id)
    }

    /// The number of prepared domains.
    pub fn domain_count(&self) -> (r: usize)
        ensures
            r == self.bags().len(),
    {
        self.managed_state.len()
    }

    /// The bag of a prepared domain.
    pub fn domain(&self, d: usize) -> (r: &DomainState<V>)
        requires
            d < self.bags().len(),
        ensures
            r@ == self.bags()[d as int],
    {
        self.managed_state.get(d)
    }

    /// Exclusive access to the bag of a prepared domain.
    pub fn domain_mut(&mut self, d: usize) -> (r: &mut DomainState<V>)
        requires
            d < old(self).bags().len(),
        ensures
            r@ == old(self).bags()[d as int],
            final(self).bags() == old(self).bags().update(d as int, final(r)@),
            final(self).activities() == old(self).activities(),
            final(self).hooks() == old(self).hooks(),
    {
        self.managed_state.get_mut(d)
    }
}

/// An activity created while a broadcast holds the core storage.
pub struct StagedActivity<P> {
    pub payload: P,
    pub domain: DomainId,
    pub active: bool,
}

/// A mutation requested while it could not be applied, replayed in order once
/// the engine is idle again.
pub enum Deferred<V> {
    Subscription(Subscription),
    DomainStore(usize, u64, V),
    FlushInchoateActivities,
    LifecycleChange(usize, bool),
}

/// What replaying one deferred operation asks of the caller.
pub enum Step {
    /// Nothing: the operation is applied.
    Applied,
    /// An activity changed status: broadcast to these Enter or Leave handlers.
    Notify(Vec<Subscription>),
}

/// The core storage was held by a broadcast in progress.
#[derive(Clone, Copy, Debug, PartialEq, Eq, Structural)]
pub struct Unavailable;

/// The queue holds a flush of the staged activities.
pub open spec fn flush_queued<V>(q: Seq<Deferred<V>>) -> bool {
    exists|j: int| 0 <= j < q.len() && (#[trigger] q[j]) is FlushInchoateActivities
}

proof fn lemma_flush_queued_push<V>(q: Seq<Deferred<V>>, x: Deferred<V>)
    requires
        flush_queued(q) || x is FlushInchoateActivities,
    ensures
        flush_queued(q.push(x)),
{
    if x is FlushInchoateActivities {
        assert(q.push(x)[q.len() as int] is FlushInchoateActivities);
    } else {
        let j = choose|j: int| 0 <= j < q.len() && (#[trigger] q[j]) is FlushInchoateActivities;
        assert(q.push(x)[j] == q[j]);
    }
}

proof fn lemma_flush_queued_drop_first<V>(q: Seq<Deferred<V>>)
    requires
        flush_queued(q),
        !(q[0] is FlushInchoateActivities),
    ensures
        flush_queued(q.drop_first()),
{
    let j = choose|j: int| 0 <= j < q.len() && (#[trigger] q[j]) is FlushInchoateActivities;
    assert(q.drop_first()[j - 1] == q[j]);
}

/// The topic that announces a change of an activity's flag to `active`.
pub open spec fn lifecycle_topic(active: bool) -> Topic {
    if active {
        Topic::Enter
    } else {
        Topic::Leave
    }
}

/// A domain number leaves room to prepare the domain.
pub open spec fn valid_domain(d: DomainId) -> bool {
    d.index.is_some() ==> d.index.unwrap() < usize::MAX
}

pub open spec fn staged_slots<P>(s: Seq<StagedActivity<P>>) -> Seq<Option<P>> {
    s.map_values(|x: StagedActivity<P>| Some(x.payload))
}

pub open spec fn staged_flags<P>(s: Seq<StagedActivity<P>>) -> Seq<bool> {
    s.map_values(|x: StagedActivity<P>| x.active)
}

/// `b` is `a` with zero or more empty bags added at the end.
pub open spec fn grown<V>(a: Seq<Map<u64, V>>, b: Seq<Map<u64, V>>) -> bool {
    &&& a.len() <= b.len()
    &&& forall|i: int| 0 <= i < a.len() ==> #[trigger] b[i] == a[i]
    &&& forall|i: int| a.len() <= i < b.len() ==> #[trigger] b[i] == Map::<u64, V>::empty()
}

/// Every domain named in `s` is prepared in `bags`.
pub open spec fn domains_prepared<P, V>(s: Seq<StagedActivity<P>>, bags: Seq<Map<u64, V>>) -> bool {
    forall|i: int|
        0 <= i < s.len() && (#[trigger] s[i]).domain.index.is_some() ==> s[i].domain.index.unwrap()
            < bags.len()
}

/// The engine: core storage, subscriptions, the deferred-operation queue, the
/// staging area for activities created during a broadcast, and the tracker of
/// outstanding requests.
pub struct Nut<P, V> {
    storage: Option<Core<P, V>>,
    subscriptions: ActivityHandlerContainer,
    deferred: Vec<Deferred<V>>,
    offset: usize,
    staged: Vec<StagedActivity<P>>,
    response_tracker: ResponseTracker<V>,
}

impl<P, V> Nut<P, V> {
    /// A broadcast holds the core storage.
    pub closed spec fn executing(&self) -> bool {
        self.storage.is_none()
    }

    /// The core storage, while no broadcast holds it.
    pub closed spec fn storage(&self) -> Core<P, V> {
        self.storage.unwrap()
    }

    pub closed spec fn subs(&self) -> Seq<Subscription> {
        self.subscriptions@
    }

    pub closed spec fn queue(&self) -> Seq<Deferred<V>> {
        self.deferred@
    }

    pub closed spec fn staged(&self) -> Seq<StagedActivity<P>> {
        self.staged@
    }

    /// The number of slots the core storage has, staged activities aside.
    pub closed spec fn offset(&self) -> int {
        self.offset as int
    }

    pub closed spec fn tracker(&self) -> ResponseTracker<V> {
        self.response_tracker
    }

    /// The slot index the next activity gets.
    pub open spec fn next_index(&self) -> int {
        self.offset() + self.staged().len()
    }

    /// Idle, with nothing left to replay: mutations apply at once.
    pub open spec fn quiescent(&self) -> bool {
        !self.executing() && self.queue().len() == 0
    }

    pub open spec fn wf(&self) -> bool {
        &&& self.wf_storage()
        &&& self.staged().len() > 0 ==> flush_queued(self.queue())
        &&& self.quiescent() ==> self.staged().len() == 0
    }

    /// The invariant, leaving aside how staged activities relate to the queue.
    pub open spec fn wf_storage(&self) -> bool {
        &&& !self.executing() ==> self.storage().wf() && self.offset()
            == self.storage().activities().slots().len()
        &&& self.tracker().wf()
        &&& self.next_index() <= usize::MAX
        &&& forall|i: int| 0 <= i < self.staged().len() ==> valid_domain(#[trigger] self.staged()[i].domain)
    }

    /// `self` and `o` agree on everything but the subscriptions and the queue.
    pub open spec fn same_storage(&self, o: &Self) -> bool {
        &&& self.executing() == o.executing()
        &&& !self.executing() ==> self.storage() == o.storage()
        &&& self.staged() == o.staged()
        &&& self.offset() == o.offset()
        &&& self.tracker() == o.tracker()
    }

    /// `self` and `o` agree on everything but the response tracker.
    pub open spec fn same_storage_but_tracker(&self, o: &Self) -> bool {
        &&& self.executing() == o.executing()
        &&& !self.executing() ==> self.storage() == o.storage()
        &&& self.staged() == o.staged()
        &&& self.offset() == o.offset()
        &&& self.subs() == o.subs()
        &&& self.queue() == o.queue()
    }

    /// `self` is `o` after `s` was registered: appended to the subscriptions
    /// when `o` is quiescent, else queued.
    pub open spec fn registered(&self, o: &Self, s: Subscription) -> bool {
        &&& self.same_storage(o)
        &&& o.quiescent() ==> self.subs() == o.subs().push(s) && self.queue() == o.queue()
        &&& !o.quiescent() ==> self.subs() == o.subs() && self.queue() == o.queue().push(
            Deferred::Subscription(s),
        )
    }

    pub fn new() -> (r: Self)
        ensures
            r.wf(),
            r.quiescent(),
            r.storage().activities().slots().len() == 0,
            r.storage().activities().flags().len() == 0,
            r.storage().bags().len() == 0,
            r.storage().hooks() == Map::<usize, OnDelete>::empty(),
            r.subs().len() == 0,
            r.staged().len() == 0,
            r.next_index() == 0,
            r.tracker().entries() == Map::<u64, ReplySlot<V>>::empty(),
            r.tracker().next_id() == 0,
    {
        Nut {
            storage: Some(
                Core {
                    activities: ActivityContainer::new(),
                    managed_state: ManagedState::new(),
                    on_delete: HashMap::new(),
                },
            ),
            subscriptions: ActivityHandlerContainer::new(),
            deferred: Vec::new(),
            offset: 0,
            staged: Vec::new(),
            response_tracker: ResponseTracker::new(),
        }
    }

    /// Whether a broadcast holds the core storage.
    pub fn is_executing(&self) -> (r: bool)
        ensures
            r == self.executing(),
    {
        self.storage.is_none()
    }

    /// Whether slot `i` holds a live activity; `None` during a broadcast.
    pub fn is_live(&self, i: usize) -> (r: Option<bool>)
        requires
            self.wf(),
        ensures
            self.executing() ==> r.is_none(),
            !self.executing() ==> r == Some(self.storage().activities().is_live(i as int)),
    {
        match &self.storage {
            Some(held) => Some(held.activities.live(i)),
            None => None,
        }
    }

    /// The slot index the next activity gets.
    pub fn next_activity_index(&self) -> (r: usize)
        requires
            self.wf(),
        ensures
            r == self.next_index(),
    {
        self.offset + self.staged.len()
    }

    /// Starts a broadcast. The outermost one receives the core storage and
    /// holds it until `end_broadcast`; a nested one receives nothing and runs
    /// on the storage its enclosing broadcast holds.
    pub fn begin_broadcast(&mut self) -> (r: Option<Core<P, V>>)
        requires
            old(self).wf(),
        ensures
            final(self).wf(),
            final(self).executing(),
            old(self).executing() ==> r.is_none() && *final(self) == *old(self),
            !old(self).executing() ==> r == Some(old(self).storage()),
            final(self).subs() == old(self).subs(),
            final(self).queue() == old(self).queue(),
            final(self).staged() == old(self).staged(),
            final(self).offset() == old(self).offset(),
            final(self).tracker() == old(self).tracker(),
    {
        let mut r: Option<Core<P, V>> = None;
        std::mem::swap(&mut r, &mut self.storage);
        r
    }

    /// Ends the outermost broadcast, handing the core storage back.
    pub fn end_broadcast(&mut self, held: Core<P, V>)
        requires
            old(self).wf(),
            old(self).executing(),
            held.wf(),
            held.activities().slots().len() == old(self).offset(),
        ensures
            final(self).wf(),
            !final(self).executing(),
            final(self).storage() == held,
            final(self).subs() == old(self).subs(),
            final(self).queue() == old(self).queue(),
            final(self).staged() == old(self).staged(),
            final(self).offset() == old(self).offset(),
            final(self).tracker() == old(self).tracker(),
    {
        self.storage = Some(held);
    }

    /// The handlers that a broadcast on `topic` runs over `held`, in
    /// registration order: those whose activity is live and whose filter
    /// passes on its active flag.
    pub fn delivery_list(&self, held: &Core<P, V>, topic: Topic) -> (r: Vec<Subscription>)
        requires
            held.wf(),
        ensures
            r@ == delivery_plan(self.subs(), topic, held.activities()),
    {
        let all = self.subscriptions.iter_topic(topic);
        let mut r: Vec<Subscription> = Vec::new();
        let mut i: usize = 0;
        while i < all.len()
            invariant
                held.wf(),
                i <= all@.len(),
                r@ == all@.subrange(0, i as int).filter(
                    |s: Subscription| deliverable(s, held.activities()),
                ),
            decreases all@.len() - i,
        {
            proof {
                assert(all@.subrange(0, i + 1).drop_last() =~= all@.subrange(0, i as int));
                reveal(Seq::filter);
            }
            if held.activities.admits(&all[i]) {
                r.push(all[i]);
            }
            i = i + 1;
        }
        assert(all@.subrange(0, i as int) =~= all@);
        r
    }

    /// Registers a handler: at once when quiescent, else queued for replay.
    pub fn push_closure(&mut self, s: Subscription)
        requires
            old(self).wf(),
        ensures
            final(self).wf(),
            final(self).registered(old(self), s),
    {
        if self.storage.is_some() && self.deferred.len() == 0 {
            self.subscriptions.push(s);
        } else {
            proof {
                if self.staged@.len() > 0 {
                    lemma_flush_queued_push(self.deferred@, Deferred::Subscription(s));
                }
            }
            self.deferred.push(Deferred::Subscription(s));
        }
    }

    /// Moves the staged activities into the core storage, in staging order,
    /// preparing their domains.
    fn flush_staged(&mut self)
        requires
            old(self).wf_storage(),
            !old(self).executing(),
        ensures
            final(self).wf(),
            !final(self).executing(),
            final(self).storage().activities().slots() == old(self).storage().activities().slots()
                + staged_slots(old(self).staged()),
            final(self).storage().activities().flags() == old(self).storage().activities().flags()
                + staged_flags(old(self).staged()),
            grown(old(self).storage().bags(), final(self).storage().bags()),
            domains_prepared(old(self).staged(), final(self).storage().bags()),
            final(self).storage().hooks() == old(self).storage().hooks(),
            final(self).staged().len() == 0,
            final(self).next_index() == old(self).next_index(),
            final(self).subs() == old(self).subs(),
            final(self).queue() == old(self).queue(),
            final(self).tracker() == old(self).tracker(),
    {
        let mut items: Vec<StagedActivity<P>> = Vec::new();
        std::mem::swap(&mut items, &mut self.staged);
        let mut slot: Option<Core<P, V>> = None;
        std::mem::swap(&mut slot, &mut self.storage);
        let mut held = slot.unwrap();
        let ghost orig = items@;
        let ghost c0 = held;
        let ghost mut i: int = 0;
        while items.len() > 0
            invariant
                0 <= i <= orig.len(),
                items@ == orig.subrange(i, orig.len() as int),
                forall|j: int| 0 <= j < orig.len() ==> valid_domain(#[trigger] orig[j].domain),
                held.wf(),
                held.activities().slots() == c0.activities().slots() + staged_slots(
                    orig.subrange(0, i),
                ),
                held.activities().flags() == c0.activities().flags() + staged_flags(
                    orig.subrange(0, i),
                ),
                grown(c0.bags(), held.bags()),
                domains_prepared(orig.subrange(0, i), held.bags()),
                held.hooks() == c0.hooks(),
            decreases items@.len(),
        {
            let it = items.remove(0);
            proof {
                assert(it == orig[i]);
                assert(items@ =~= orig.subrange(i + 1, orig.len() as int));
            }
            let ghost b0 = held.bags();
            match it.domain.index {
                Some(d) => {
                    held.managed_state.prepare(d);
                },
                None => {},
            }
            let _id: ActivityId<()> = held.activities.add(it.payload, it.domain, it.active);
            proof {
                assert(staged_slots(orig.subrange(0, i + 1)) =~= staged_slots(
                    orig.subrange(0, i),
                ).push(Some(it.payload)));
                assert(staged_flags(orig.subrange(0, i + 1)) =~= staged_flags(
                    orig.subrange(0, i),
                ).push(it.active));
                assert forall|j: int|
                    0 <= j < i + 1 && (#[trigger] orig.subrange(0, i + 1)[j]).domain.index.is_some()
                    implies orig.subrange(0, i + 1)[j].domain.index.unwrap() < held.bags().len() by {
                    if j < i {
                        assert(orig.subrange(0, i + 1)[j] == orig.subrange(0, i)[j]);
                    }
                }
                i = i + 1;
            }
        }
        proof {
            assert(orig.subrange(0, i) =~= orig);
        }
        self.offset = held.len();
        self.storage = Some(held);
    }

    /// Creates an activity and returns its id at once. When quiescent the
    /// activity enters the core storage now; otherwise it is staged, and
    /// enters when the queued flush is replayed.
    pub fn new_activity<A: Activity>(&mut self, a: P, domain: DomainId, active: bool) -> (r:
        ActivityId<A>)
        requires
            old(self).wf(),
            valid_domain(domain),
            old(self).next_index() < usize::MAX,
        ensures
            final(self).wf(),
            r.index == old(self).next_index(),
            r.domain_index == domain,
            final(self).next_index() == old(self).next_index() + 1,
            final(self).executing() == old(self).executing(),
            final(self).subs() == old(self).subs(),
            final(self).tracker() == old(self).tracker(),
            old(self).quiescent() ==> {
                &&& r.index == old(self).storage().activities().slots().len()
                &&& final(self).storage().activities().slots() == old(
                    self,
                ).storage().activities().slots().push(Some(a))
                &&& final(self).storage().activities().flags() == old(
                    self,
                ).storage().activities().flags().push(active)
                &&& domain.index.is_some() ==> domain.index.unwrap()
                    < final(self).storage().bags().len()
            },
            old(self).quiescent() ==> {
                let all = old(self).staged().push(
                    (StagedActivity { payload: a, domain: domain, active: active }),
                );
                &&& final(self).quiescent()
                &&& final(self).staged().len() == 0
                &&& final(self).storage().activities().slots() == old(
                    self,
                ).storage().activities().slots() + staged_slots(all)
                &&& final(self).storage().activities().flags() == old(
                    self,
                ).storage().activities().flags() + staged_flags(all)
                &&& grown(old(self).storage().bags(), final(self).storage().bags())
                &&& domains_prepared(all, final(self).storage().bags())
                &&& final(self).storage().hooks() == old(self).storage().hooks()
            },
            !old(self).quiescent() ==> {
                &&& final(self).staged() == old(self).staged().push(
                    (StagedActivity { payload: a, domain: domain, active: active }),
                )
                &&& final(self).queue() == old(self).queue().push(
                    Deferred::FlushInchoateActivities,
                )
                &&& final(self).offset() == old(self).offset()
                &&& !old(self).executing() ==> final(self).storage() == old(self).storage()
            },
    {
        let i = self.offset + self.staged.len();
        self.staged.push(StagedActivity { payload: a, domain, active });
        if self.storage.is_some() && self.deferred.len() == 0 {
            self.flush_staged();
            proof {
                let all = old(self).staged@.push(
                    (StagedActivity { payload: a, domain: domain, active: active }),
                );
                assert(staged_slots(all) =~= seq![Some(a)]);
                assert(staged_flags(all) =~= seq![active]);
                assert(all[0].domain == domain);
            }
        } else {
            proof {
                lemma_flush_queued_push(old(self).deferred@, Deferred::FlushInchoateActivities);
            }
            self.deferred.push(Deferred::FlushInchoateActivities);
        }
        ActivityId::new(i, domain)
    }

    /// Stores `value` as domain `d`'s value of type `tag`: at once when
    /// quiescent, else queued for replay.
    pub fn write_domain(&mut self, d: usize, tag: u64, value: V)
        requires
            old(self).wf(),
            d < usize::MAX,
        ensures
            final(self).wf(),
            final(self).subs() == old(self).subs(),
            final(self).executing() == old(self).executing(),
            final(self).staged() == old(self).staged(),
            final(self).offset() == old(self).offset(),
            final(self).tracker() == old(self).tracker(),
            old(self).quiescent() ==> {
                &&& final(self).queue() == old(self).queue()
                &&& final(self).storage().bags() == stored(
                    old(self).storage().bags(),
                    d as int,
                    tag,
                    value,
                )
                &&& final(self).storage().activities() == old(self).storage().activities()
                &&& final(self).storage().hooks() == old(self).storage().hooks()
            },
            !old(self).quiescent() ==> {
                &&& final(self).queue() == old(self).queue().push(Deferred::DomainStore(d, tag, value))
                &&& !old(self).executing() ==> final(self).storage() == old(self).storage()
            },
    {
        if self.storage.is_some() && self.deferred.len() == 0 {
            let mut slot: Option<Core<P, V>> = None;
            std::mem::swap(&mut slot, &mut self.storage);
            let mut held = slot.unwrap();
            held.managed_state.store(d, tag, value);
            self.storage = Some(held);
        } else {
            proof {
                if self.staged@.len() > 0 {
                    lemma_flush_queued_push(self.deferred@, Deferred::DomainStore(d, tag, value));
                }
            }
            self.deferred.push(Deferred::DomainStore(d, tag, value));
        }
    }

    /// `self` is `o` after slot `i`'s flag was set to `active`, which asked
    /// `step` of the caller: when the slot exists, its flag is set and, if the
    /// flag changed, the activity's handlers of the Enter topic (turned
    /// active) or the Leave topic (turned inactive) that may run now are
    /// named, in registration order; no handler is named when it did not
    /// change. A slot that does not exist is left alone.
    pub open spec fn lifecycle_applied(&self, o: &Self, i: usize, active: bool, step: &Step) -> bool {
        let c0 = o.storage();
        let c1 = self.storage();
        &&& self.subs() == o.subs()
        &&& c1.activities().slots() == c0.activities().slots()
        &&& c1.bags() == c0.bags()
        &&& c1.hooks() == c0.hooks()
        &&& self.staged() == o.staged()
        &&& self.offset() == o.offset()
        &&& if i < c0.activities().slots().len() {
            &&& c1.activities().flags() == c0.activities().flags().update(i as int, active)
            &&& match step {
                Step::Notify(l) => l@ == if c0.activities().flags()[i as int] != active {
                    of_activity(delivery_plan(o.subs(), lifecycle_topic(active), c1.activities()), i)
                } else {
                    Seq::<Subscription>::empty()
                },
                Step::Applied => false,
            }
        } else {
            &&& c1.activities().flags() == c0.activities().flags()
            &&& step is Applied
        }
    }

    /// Sets slot `i`'s flag on the idle engine and names the lifecycle
    /// handlers to run.
    fn apply_lifecycle(&mut self, i: usize, active: bool) -> (r: Step)
        requires
            old(self).wf(),
            !old(self).executing(),
        ensures
            final(self).wf(),
            !final(self).executing(),
            final(self).queue() == old(self).queue(),
            final(self).tracker() == old(self).tracker(),
            final(self).lifecycle_applied(old(self), i, active, &r),
    {
        let mut slot: Option<Core<P, V>> = None;
        std::mem::swap(&mut slot, &mut self.storage);
        let mut held = slot.unwrap();
        if i < held.len() {
            let id: ActivityId<()> = ActivityId::new(i, DomainId::none());
            let before = held.activities.is_active(id);
            held.activities.set_active(id, active);
            let list = if before != active {
                let topic = if active {
                    Topic::Enter
                } else {
                    Topic::Leave
                };
                let all = self.delivery_list(&held, topic);
                bound_to(&all, i)
            } else {
                Vec::new()
            };
            self.storage = Some(held);
            Step::Notify(list)
        } else {
            self.storage = Some(held);
            Step::Applied
        }
    }

    /// Makes an activity active or inactive. When quiescent the flag is set
    /// at once and the Enter or Leave handlers to run are returned; otherwise
    /// the change is queued, and replaying it does the same.
    pub fn set_status<A: Activity>(&mut self, id: ActivityId<A>, active: bool) -> (r: Step)
        requires
            old(self).wf(),
        ensures
            final(self).wf(),
            final(self).tracker() == old(self).tracker(),
            final(self).executing() == old(self).executing(),
            old(self).quiescent() ==> {
                &&& final(self).queue() == old(self).queue()
                &&& final(self).lifecycle_applied(old(self), id.index, active, &r)
            },
            !old(self).quiescent() ==> {
                &&& r is Applied
                &&& final(self).same_storage(old(self))
                &&& final(self).subs() == old(self).subs()
                &&& final(self).queue() == old(self).queue().push(
                    Deferred::LifecycleChange(id.index, active),
                )
            },
    {
        if self.storage.is_some() && self.deferred.len() == 0 {
            self.apply_lifecycle(id.index, active)
        } else {
            proof {
                if self.staged@.len() > 0 {
                    lemma_flush_queued_push(self.deferred@, Deferred::LifecycleChange(id.index, active));
                }
            }
            self.deferred.push(Deferred::LifecycleChange(id.index, active));
            Step::Applied
        }
    }

    /// Deletes a live activity: its slot becomes empty for good, and its
    /// payload is handed back together with its deletion hook, if one was
    /// registered (the hook is then forgotten). Unavailable during a broadcast.
    pub fn delete<A: Activity>(&mut self, id: ActivityId<A>) -> (r: Result<
        (P, Option<OnDelete>),
        Unavailable,
    >)
        requires
            old(self).wf(),
            !old(self).executing() ==> old(self).storage().activities().is_live(id.index as int),
        ensures
            final(self).wf(),
            old(self).executing() ==> r == Err::<(P, Option<OnDelete>), Unavailable>(Unavailable)
                && *final(self) == *old(self),
            !old(self).executing() ==> {
                let c0 = old(self).storage();
                let c1 = final(self).storage();
                &&& r.is_ok()
                &&& Some(r.unwrap().0) == c0.activities().slots()[id.index as int]
                &&& r.unwrap().1 == if c0.hooks().contains_key(id.index) {
                    Some(c0.hooks()[id.index])
                } else {
                    None
                }
                &&& !final(self).executing()
                &&& c1.activities().slots() == c0.activities().slots().update(id.index as int, None)
                &&& c1.activities().flags() == c0.activities().flags()
                &&& c1.bags() == c0.bags()
                &&& c1.hooks() == c0.hooks().remove(id.index)
            },
            final(self).subs() == old(self).subs(),
            final(self).queue() == old(self).queue(),
            final(self).staged() == old(self).staged(),
            final(self).offset() == old(self).offset(),
            final(self).tracker() == old(self).tracker(),
    {
        let mut slot: Option<Core<P, V>> = None;
        std::mem::swap(&mut slot, &mut self.storage);
        match slot {
            Some(mut held) => {
                let payload = held.activities.remove(id);
                let hook = held.on_delete.remove(&id.index);
                self.storage = Some(held);
                Ok((payload, hook))
            },
            None => Err(Unavailable),
        }
    }

    fn add_on_delete(&mut self, i: usize, hook: OnDelete) -> (r: Result<(), Unavailable>)
        requires
            old(self).wf(),
        ensures
            final(self).wf(),
            old(self).executing() ==> r == Err::<(), Unavailable>(Unavailable) && *final(self)
                == *old(self),
            !old(self).executing() ==> {
                &&& r == Ok::<(), Unavailable>(())
                &&& !final(self).executing()
                &&& final(self).storage().activities() == old(self).storage().activities()
                &&& final(self).storage().bags() == old(self).storage().bags()
                &&& final(self).storage().hooks() == old(self).storage().hooks().insert(i, hook)
            },
            final(self).subs() == old(self).subs(),
            final(self).queue() == old(self).queue(),
            final(self).staged() == old(self).staged(),
            final(self).offset() == old(self).offset(),
            final(self).tracker() == old(self).tracker(),
    {
        let mut slot: Option<Core<P, V>> = None;
        std::mem::swap(&mut slot, &mut self.storage);
        match slot {
            Some(mut held) => {
                held.on_delete.insert(i, hook);
                self.storage = Some(held);
                Ok(())
            },
            None => Err(Unavailable),
        }
    }

    /// Registers the hook that receives the activity's payload when it is
    /// deleted, replacing an earlier one. Unavailable during a broadcast.
    pub fn register_on_delete<A: Activity>(&mut self, id: ActivityId<A>, handler: u64) -> (r:
        Result<(), Unavailable>)
        requires
            old(self).wf(),
        ensures
            final(self).wf(),
            old(self).executing() ==> r == Err::<(), Unavailable>(Unavailable) && *final(self)
                == *old(self),
            !old(self).executing() ==> {
                &&& r == Ok::<(), Unavailable>(())
                &&& !final(self).executing()
                &&& final(self).storage().activities() == old(self).storage().activities()
                &&& final(self).storage().bags() == old(self).storage().bags()
                &&& final(self).storage().hooks() == old(self).storage().hooks().insert(
                    id.index,
                    (OnDelete { handler: handler, domained: false }),
                )
            },
            final(self).subs() == old(self).subs(),
            final(self).queue() == old(self).queue(),
            final(self).staged() == old(self).staged(),
            final(self).offset() == old(self).offset(),
            final(self).tracker() == old(self).tracker(),
    {
        self.add_on_delete(id.index, OnDelete { handler, domained: false })
    }

    /// Like `register_on_delete`, for a hook that also gets the activity's
    /// domain bag; the activity must belong to a domain.
    pub fn register_domained_on_delete<A: Activity>(&mut self, id: ActivityId<A>, handler: u64) -> (r:
        Result<(), Unavailable>)
        requires
            old(self).wf(),
            id.domain_index.index.is_some(),
        ensures
            final(self).wf(),
            old(self).executing() ==> r == Err::<(), Unavailable>(Unavailable) && *final(self)
                == *old(self),
            !old(self).executing() ==> {
                &&& r == Ok::<(), Unavailable>(())
                &&& !final(self).executing()
                &&& final(self).storage().activities() == old(self).storage().activities()
                &&& final(self).storage().bags() == old(self).storage().bags()
                &&& final(self).storage().hooks() == old(self).storage().hooks().insert(
                    id.index,
                    (OnDelete { handler: handler, domained: true }),
                )
            },
            final(self).subs() == old(self).subs(),
            final(self).queue() == old(self).queue(),
            final(self).staged() == old(self).staged(),
            final(self).offset() == old(self).offset(),
            final(self).tracker() == old(self).tracker(),
    {
        self.add_on_delete(id.index, OnDelete { handler, domained: true })
    }

    /// Starts a request: a fresh identifier, tracked as pending, to publish
    /// the request under. `None` once the identifiers are used up.
    pub fn new_request(&mut self) -> (r: Option<u64>)
        requires
            old(self).wf(),
        ensures
            final(self).wf(),
            final(self).same_storage_but_tracker(old(self)),
            old(self).tracker().next_id() < u64::MAX ==> {
                &&& r == Some(old(self).tracker().next_id())
                &&& final(self).tracker().entries() == old(self).tracker().entries().insert(
                    old(self).tracker().next_id(),
                    ReplySlot::Pending,
                )
            },
            old(self).tracker().next_id() == u64::MAX ==> r.is_none() && final(self).tracker()
                == old(self).tracker(),
    {
        self.response_tracker.allocate()
    }

    /// Observes a reply for request `id`; returns whether it was awaited
    /// (a reply for an untracked request is discarded).
    pub fn reply(&mut self, id: u64, value: V) -> (r: bool)
        requires
            old(self).wf(),
        ensures
            final(self).wf(),
            final(self).same_storage_but_tracker(old(self)),
            r == (old(self).tracker().entries().contains_key(id) && old(self).tracker().entries()[id]
                == ReplySlot::<V>::Pending),
            final(self).tracker().entries() == completed(old(self).tracker().entries(), id, value),
    {
        self.response_tracker.complete(id, value)
    }

    /// Looks at request `id`, handing out its reply once it has come.
    pub fn poll_reply(&mut self, id: u64) -> (r: ReplyPoll<V>)
        requires
            old(self).wf(),
        ensures
            final(self).wf(),
            final(self).same_storage_but_tracker(old(self)),
            (final(self).tracker().entries(), r) == polled(old(self).tracker().entries(), id),
    {
        self.response_tracker.poll(id)
    }

    /// Gives up on request `id`: a later reply for it is discarded.
    pub fn abandon_request(&mut self, id: u64)
        requires
            old(self).wf(),
        ensures
            final(self).wf(),
            final(self).same_storage_but_tracker(old(self)),
            final(self).tracker().entries() == old(self).tracker().entries().remove(id),
    {
        self.response_tracker.abandon(id)
    }

    /// Registers handler `handler` of activity `id` for messages of type
    /// `msg`, handed a shared borrow of the message.
    pub fn register<A: Activity>(
        &mut self,
        id: ActivityId<A>,
        msg: u64,
        handler: u64,
        filter: SubscriptionFilter,
    )
        requires
            old(self).wf(),
        ensures
            final(self).wf(),
            final(self).registered(
                old(self),
                (Subscription {
                    topic: Topic::Message(msg),
                    activity: id.index,
                    filter: filter,
                    handler: handler,
                    access: MessageAccess::Shared,
                    domained: false,
                }),
            ),
    {
        self.push_closure(
            Subscription {
                topic: Topic::Message(msg),
                activity: id.index,
                filter,
                handler,
                access: MessageAccess::Shared,
                domained: false,
            },
        )
    }

    /// Registers handler `handler` of activity `id` for messages of type
    /// `msg`, handed a exclusive borrow of the message.
    pub fn register_mut<A: Activity>(
        &mut self,
        id: ActivityId<A>,
        msg: u64,
        handler: u64,
        filter: SubscriptionFilter,
    )
        requires
            old(self).wf(),
        ensures
            final(self).wf(),
            final(self).registered(
                old(self),
                (Subscription {
                    topic: Topic::Message(msg),
                    activity: id.index,
                    filter: filter,
                    handler: handler,
                    access: MessageAccess::Exclusive,
                    domained: false,
                }),
            ),
    {
        self.push_closure(
            Subscription {
                topic: Topic::Message(msg),
                activity: id.index,
                filter,
                handler,
                access: MessageAccess::Exclusive,
                domained: false,
            },
        )
    }

    /// Registers handler `handler` of activity `id` for messages of type
    /// `msg`, handed a message by value.
    pub fn register_owned<A: Activity>(
        &mut self,
        id: ActivityId<A>,
        msg: u64,
        handler: u64,
        filter: SubscriptionFilter,
    )
        requires
            old(self).wf(),
        ensures
            final(self).wf(),
            final(self).registered(
                old(self),
                (Subscription {
                    topic: Topic::Message(msg),
                    activity: id.index,
                    filter: filter,
                    handler: handler,
                    access: MessageAccess::Owned,
                    domained: false,
                }),
            ),
    {
        self.push_closure(
            Subscription {
                topic: Topic::Message(msg),
                activity: id.index,
                filter,
                handler,
                access: MessageAccess::Owned,
                domained: false,
            },
        )
    }

    /// Registers handler `handler` of activity `id` for messages of type
    /// `msg`, handed a shared borrow of the message and the domain bag.
    pub fn register_domained<A: Activity>(
        &mut self,
        id: ActivityId<A>,
        msg: u64,
        handler: u64,
        filter: SubscriptionFilter,
    )
        requires
            old(self).wf(),
            id.domain_index.index.is_some(),
        ensures
            final(self).wf(),
            final(self).registered(
                old(self),
                (Subscription {
                    topic: Topic::Message(msg),
                    activity: id.index,
                    filter: filter,
                    handler: handler,
                    access: MessageAccess::Shared,
                    domained: true,
                }),
            ),
    {
        self.push_closure(
            Subscription {
                topic: Topic::Message(msg),
                activity: id.index,
                filter,
                handler,
                access: MessageAccess::Shared,
                domained: true,
            },
        )
    }

    /// Registers handler `handler` of activity `id` for messages of type
    /// `msg`, handed a exclusive borrow of the message and the domain bag.
    pub fn register_domained_mut<A: Activity>(
        &mut self,
        id: ActivityId<A>,
        msg: u64,
        handler: u64,
        filter: SubscriptionFilter,
    )
        requires
            old(self).wf(),
            id.domain_index.index.is_some(),
        ensures
            final(self).wf(),
            final(self).registered(
                old(self),
                (Subscription {
                    topic: Topic::Message(msg),
                    activity: id.index,
                    filter: filter,
                    handler: handler,
                    access: MessageAccess::Exclusive,
                    domained: true,
                }),
            ),
    {
        self.push_closure(
            Subscription {
                topic: Topic::Message(msg),
                activity: id.index,
                filter,
                handler,
                access: MessageAccess::Exclusive,
                domained: true,
            },
        )
    }

    /// Registers handler `handler` of activity `id` for messages of type
    /// `msg`, handed a message by value and the domain bag.
    pub fn register_domained_owned<A: Activity>(
        &mut self,
        id: ActivityId<A>,
        msg: u64,
        handler: u64,
        filter: SubscriptionFilter,
    )
        requires
            old(self).wf(),
            id.domain_index.index.is_some(),
        ensures
            final(self).wf(),
            final(self).registered(
                old(self),
                (Subscription {
                    topic: Topic::Message(msg),
                    activity: id.index,
                    filter: filter,
                    handler: handler,
                    access: MessageAccess::Owned,
                    domained: true,
                }),
            ),
    {
        self.push_closure(
            Subscription {
                topic: Topic::Message(msg),
                activity: id.index,
                filter,
                handler,
                access: MessageAccess::Owned,
                domained: true,
            },
        )
    }

    /// Registers handler `handler` of activity `id` for `topic`, handed no
    /// message.
    pub fn register_no_payload<A: Activity>(
        &mut self,
        id: ActivityId<A>,
        handler: u64,
        topic: Topic,
        filter: SubscriptionFilter,
    )
        requires
            old(self).wf(),
        ensures
            final(self).wf(),
            final(self).registered(
                old(self),
                (Subscription {
                    topic: topic,
                    activity: id.index,
                    filter: filter,
                    handler: handler,
                    access: MessageAccess::NoPayload,
                    domained: false,
                }),
            ),
    {
        self.push_closure(
            Subscription {
                topic,
                activity: id.index,
                filter,
                handler,
                access: MessageAccess::NoPayload,
                domained: false,
            },
        )
    }

    /// Registers handler `handler` of activity `id` for `topic`, handed no
    /// message and with the domain bag.
    pub fn register_domained_no_payload<A: Activity>(
        &mut self,
        id: ActivityId<A>,
        handler: u64,
        topic: Topic,
        filter: SubscriptionFilter,
    )
        requires
            old(self).wf(),
            id.domain_index.index.is_some(),
        ensures
            final(self).wf(),
            final(self).registered(
                old(self),
                (Subscription {
                    topic: topic,
                    activity: id.index,
                    filter: filter,
                    handler: handler,
                    access: MessageAccess::NoPayload,
                    domained: true,
                }),
            ),
    {
        self.push_closure(
            Subscription {
                topic,
                activity: id.index,
                filter,
                handler,
                access: MessageAccess::NoPayload,
                domained: true,
            },
        )
    }

    /// `self` is `o` after its first deferred operation `ev` was replayed,
    /// which asked `step` of the caller.
    pub open spec fn replayed(&self, o: &Self, ev: Deferred<V>, step: &Step) -> bool {
        let c0 = o.storage();
        let c1 = self.storage();
        match ev {
            Deferred::Subscription(s) => {
                &&& self.subs() == o.subs().push(s)
                &&& c1 == c0
                &&& self.staged() == o.staged()
                &&& self.offset() == o.offset()
                &&& step is Applied
            },
            Deferred::DomainStore(d, tag, v) => {
                &&& self.subs() == o.subs()
                &&& c1.activities() == c0.activities()
                &&& c1.hooks() == c0.hooks()
                &&& c1.bags() == if d < usize::MAX {
                    stored(c0.bags(), d as int, tag, v)
                } else {
                    c0.bags()
                }
                &&& self.staged() == o.staged()
                &&& self.offset() == o.offset()
                &&& step is Applied
            },
            Deferred::FlushInchoateActivities => {
                &&& self.subs() == o.subs()
                &&& c1.activities().slots() == c0.activities().slots() + staged_slots(o.staged())
                &&& c1.activities().flags() == c0.activities().flags() + staged_flags(o.staged())
                &&& grown(c0.bags(), c1.bags())
                &&& domains_prepared(o.staged(), c1.bags())
                &&& c1.hooks() == c0.hooks()
                &&& self.staged().len() == 0
                &&& self.next_index() == o.next_index()
                &&& step is Applied
            },
            Deferred::LifecycleChange(i, active) => self.lifecycle_applied(o, i, active, step),
        }
    }

    /// Replays the oldest deferred operation, if any, on the idle engine.
    pub fn apply_next_deferred(&mut self) -> (r: Option<Step>)
        requires
            old(self).wf(),
            !old(self).executing(),
        ensures
            final(self).wf(),
            !final(self).executing(),
            final(self).tracker() == old(self).tracker(),
            old(self).queue().len() == 0 ==> r.is_none() && *final(self) == *old(self),
            old(self).queue().len() > 0 ==> {
                &&& r.is_some()
                &&& final(self).queue() == old(self).queue().drop_first()
                &&& final(self).replayed(old(self), old(self).queue()[0], &r.unwrap())
            },
    {
        if self.deferred.len() == 0 {
            return None;
        }
        let flush = match &self.deferred[0] {
            Deferred::FlushInchoateActivities => true,
            _ => false,
        };
        if flush {
            self.flush_staged();
        }
        let ghost q = self.deferred@;
        let ev = self.deferred.remove(0);
        proof {
            assert(self.deferred@ =~= q.drop_first());
            if !flush && self.staged@.len() > 0 {
                lemma_flush_queued_drop_first(q);
            }
        }
        match ev {
            Deferred::Subscription(s) => {
                self.subscriptions.push(s);
                Some(Step::Applied)
            },
            Deferred::DomainStore(d, tag, v) => {
                if d < usize::MAX {
                    let mut slot: Option<Core<P, V>> = None;
                    std::mem::swap(&mut slot, &mut self.storage);
                    let mut held = slot.unwrap();
                    held.managed_state.store(d, tag, v);
                    self.storage = Some(held);
                }
                Some(Step::Applied)
            },
            Deferred::FlushInchoateActivities => Some(Step::Applied),
            Deferred::LifecycleChange(i, active) => Some(self.apply_lifecycle(i, active)),
        }
    }
}

impl<A: Activity> ActivityId<A> {
    /// Registers handler `handler`, run whenever an activity turns from inactive to active.
    pub fn on_enter<P, V>(&self, nut: &mut Nut<P, V>, handler: u64)
        requires
            old(nut).wf(),
        ensures
            final(nut).wf(),
            final(nut).registered(
                old(nut),
                (Subscription {
                    topic: Topic::Enter,
                    activity: self.index,
                    filter: SubscriptionFilter::NoFilter,
                    handler: handler,
                    access: MessageAccess::NoPayload,
                    domained: false,
                }),
            ),
    {
        nut.register_no_payload(*self, handler, Topic::Enter, SubscriptionFilter::no_filter())
    }

    /// Registers handler `handler`, run whenever an activity turns from inactive to active, with domain access.
    pub fn on_enter_domained<P, V>(&self, nut: &mut Nut<P, V>, handler: u64)
        requires
            old(nut).wf(),
            self.domain_index.index.is_some(),
        ensures
            final(nut).wf(),
            final(nut).registered(
                old(nut),
                (Subscription {
                    topic: Topic::Enter,
                    activity: self.index,
                    filter: SubscriptionFilter::NoFilter,
                    handler: handler,
                    access: MessageAccess::NoPayload,
                    domained: true,
                }),
            ),
    {
        nut.register_domained_no_payload(*self, handler, Topic::Enter, SubscriptionFilter::no_filter())
    }

    /// Registers handler `handler`, run whenever an activity turns from active to inactive.
    pub fn on_leave<P, V>(&self, nut: &mut Nut<P, V>, handler: u64)
        requires
            old(nut).wf(),
        ensures
            final(nut).wf(),
            final(nut).registered(
                old(nut),
                (Subscription {
                    topic: Topic::Leave,
                    activity: self.index,
                    filter: SubscriptionFilter::NoFilter,
                    handler: handler,
                    access: MessageAccess::NoPayload,
                    domained: false,
                }),
            ),
    {
        nut.register_no_payload(*self, handler, Topic::Leave, SubscriptionFilter::no_filter())
    }

    /// Registers handler `handler`, run whenever an activity turns from active to inactive, with domain access.
    pub fn on_leave_domained<P, V>(&self, nut: &mut Nut<P, V>, handler: u64)
        requires
            old(nut).wf(),
            self.domain_index.index.is_some(),
        ensures
            final(nut).wf(),
            final(nut).registered(
                old(nut),
                (Subscription {
                    topic: Topic::Leave,
                    activity: self.index,
                    filter: SubscriptionFilter::NoFilter,
                    handler: handler,
                    access: MessageAccess::NoPayload,
                    domained: true,
                }),
            ),
    {
        nut.register_domained_no_payload(*self, handler, Topic::Leave, SubscriptionFilter::no_filter())
    }

    /// Registers handler `handler` for messages of type `msg`, handed a shared
    /// borrow of the message.
    /// It is delivered only while the activity is active.
    pub fn subscribe<P, V>(&self, nut: &mut Nut<P, V>, msg: u64, handler: u64)
        requires
            old(nut).wf(),
        ensures
            final(nut).wf(),
            final(nut).registered(
                old(nut),
                (Subscription {
                    topic: Topic::Message(msg),
                    activity: self.index,
                    filter: SubscriptionFilter::ActiveOnly,
                    handler: handler,
                    access: MessageAccess::Shared,
                    domained: false,
                }),
            ),
    {
        nut.register(*self, msg, handler, SubscriptionFilter::default())
    }

    /// Registers handler `handler` for messages of type `msg`, handed an exclusive
    /// borrow of the message.
    /// It is delivered only while the activity is active.
    pub fn subscribe_mut<P, V>(&self, nut: &mut Nut<P, V>, msg: u64, handler: u64)
        requires
            old(nut).wf(),
        ensures
            final(nut).wf(),
            final(nut).registered(
                old(nut),
                (Subscription {
                    topic: Topic::Message(msg),
                    activity: self.index,
                    filter: SubscriptionFilter::ActiveOnly,
                    handler: handler,
                    access: MessageAccess::Exclusive,
                    domained: false,
                }),
            ),
    {
        nut.register_mut(*self, msg, handler, SubscriptionFilter::default())
    }

    /// Registers handler `handler` for messages of type `msg`, handed a shared
    /// borrow of the message and the domain bag.
    /// It is delivered only while the activity is active.
    pub fn subscribe_domained<P, V>(&self, nut: &mut Nut<P, V>, msg: u64, handler: u64)
        requires
            old(nut).wf(),
            self.domain_index.index.is_some(),
        ensures
            final(nut).wf(),
            final(nut).registered(
                old(nut),
                (Subscription {
                    topic: Topic::Message(msg),
                    activity: self.index,
                    filter: SubscriptionFilter::ActiveOnly,
                    handler: handler,
                    access: MessageAccess::Shared,
                    domained: true,
                }),
            ),
    {
        nut.register_domained(*self, msg, handler, SubscriptionFilter::default())
    }

    /// Registers handler `handler` for messages of type `msg`, handed an exclusive
    /// borrow of the message and the domain bag.
    /// It is delivered only while the activity is active.
    pub fn subscribe_domained_mut<P, V>(&self, nut: &mut Nut<P, V>, msg: u64, handler: u64)
        requires
            old(nut).wf(),
            self.domain_index.index.is_some(),
        ensures
            final(nut).wf(),
            final(nut).registered(
                old(nut),
                (Subscription {
                    topic: Topic::Message(msg),
                    activity: self.index,
                    filter: SubscriptionFilter::ActiveOnly,
                    handler: handler,
                    access: MessageAccess::Exclusive,
                    domained: true,
                }),
            ),
    {
        nut.register_domained_mut(*self, msg, handler, SubscriptionFilter::default())
    }

    /// Registers handler `handler` for messages of type `msg`, handed a shared
    /// borrow of the message.
    /// `mask` says when it is delivered.
    pub fn subscribe_masked<P, V>(&self, nut: &mut Nut<P, V>, mask: SubscriptionFilter, msg: u64, handler: u64)
        requires
            old(nut).wf(),
        ensures
            final(nut).wf(),
            final(nut).registered(
                old(nut),
                (Subscription {
                    topic: Topic::Message(msg),
                    activity: self.index,
                    filter: mask,
                    handler: handler,
                    access: MessageAccess::Shared,
                    domained: false,
                }),
            ),
    {
        nut.register(*self, msg, handler, mask)
    }

    /// Registers handler `handler` for messages of type `msg`, handed an exclusive
    /// borrow of the message.
    /// `mask` says when it is delivered.
    pub fn subscribe_masked_mut<P, V>(&self, nut: &mut Nut<P, V>, mask: SubscriptionFilter, msg: u64, handler: u64)
        requires
            old(nut).wf(),
        ensures
            final(nut).wf(),
            final(nut).registered(
                old(nut),
                (Subscription {
                    topic: Topic::Message(msg),
                    activity: self.index,
                    filter: mask,
                    handler: handler,
                    access: MessageAccess::Exclusive,
                    domained: false,
                }),
            ),
    {
        nut.register_mut(*self, msg, handler, mask)
    }

    /// Registers handler `handler` for messages of type `msg`, handed a shared
    /// borrow of the message and the domain bag.
    /// `mask` says when it is delivered.
    pub fn subscribe_domained_masked<P, V>(&self, nut: &mut Nut<P, V>, mask: SubscriptionFilter, msg: u64, handler: u64)
        requires
            old(nut).wf(),
            self.domain_index.index.is_some(),
        ensures
            final(nut).wf(),
            final(nut).registered(
                old(nut),
                (Subscription {
                    topic: Topic::Message(msg),
                    activity: self.index,
                    filter: mask,
                    handler: handler,
                    access: MessageAccess::Shared,
                    domained: true,
                }),
            ),
    {
        nut.register_domained(*self, msg, handler, mask)
    }

    /// Registers handler `handler` for messages of type `msg`, handed an exclusive
    /// borrow of the message and the domain bag.
    /// `mask` says when it is delivered.
    pub fn subscribe_domained_masked_mut<P, V>(&self, nut: &mut Nut<P, V>, mask: SubscriptionFilter, msg: u64, handler: u64)
        requires
            old(nut).wf(),
            self.domain_index.index.is_some(),
        ensures
            final(nut).wf(),
            final(nut).registered(
                old(nut),
                (Subscription {
                    topic: Topic::Message(msg),
                    activity: self.index,
                    filter: mask,
                    handler: handler,
                    access: MessageAccess::Exclusive,
                    domained: true,
                }),
            ),
    {
        nut.register_domained_mut(*self, msg, handler, mask)
    }
}


/// Indices are handed out in strictly increasing order: `first` was created
/// on `n0`, giving `n1`; `second` on `n2`, reached from `n1` by operations
/// none of which lowers the next index (deletion, replay and the others keep
/// it), so `second` comes after `first`.
pub proof fn lemma_indices_increase<P, V, A, B>(
    n0: Nut<P, V>,
    n1: Nut<P, V>,
    n2: Nut<P, V>,
    first: ActivityId<A>,
    second: ActivityId<B>,
)
    requires
        first.index == n0.next_index(),
        n1.next_index() == n0.next_index() + 1,
        n1.next_index() <= n2.next_index(),
        second.index == n2.next_index(),
    ensures
        first.index < second.index,
{
}

/// A deleted activity's slot stays empty: creation and flushing only append
/// slots, so the slot never holds another activity's payload.
pub proof fn lemma_deleted_slot_stays_empty<P>(slots: Seq<Option<P>>, added: Seq<Option<P>>, i: int)
    requires
        0 <= i < slots.len(),
        slots[i].is_none(),
    ensures
        (slots + added)[i].is_none(),
{
}

/// An activity staged during a broadcast, under index `offset + k`, holds
/// its payload at that index once the staged activities are flushed into a
/// core storage of `offset` slots.
pub proof fn lemma_staged_visible<P>(slots: Seq<Option<P>>, staged: Seq<StagedActivity<P>>, k: int)
    requires
        0 <= k < staged.len(),
    ensures
        (slots + staged_slots(staged))[slots.len() + k] == Some(staged[k].payload),
{
}

/// A deferred domain write, once replayed, is what a read of that domain and
/// type observes.
pub proof fn lemma_stored_visible<V>(bags: Seq<Map<u64, V>>, d: usize, tag: u64, value: V)
    ensures
        d < stored(bags, d as int, tag, value).len(),
        stored(bags, d as int, tag, value)[d as int].contains_key(tag),
        stored(bags, d as int, tag, value)[d as int][tag] == value,
{
}

/// An activity created during a broadcast gets its index at once (`n0` to
/// `n1`); once the engine is idle again (`m`, with the staging area as `n1`
/// left it) and the queued flush is replayed (`n2`), the activity is live in
/// the core storage under that index, with its payload.
pub proof fn lemma_created_during_broadcast<P, V, A>(
    n0: Nut<P, V>,
    n1: Nut<P, V>,
    m: Nut<P, V>,
    n2: Nut<P, V>,
    id: ActivityId<A>,
    a: StagedActivity<P>,
    step: Step,
)
    requires
        id.index == n0.next_index(),
        n1.staged() == n0.staged().push(a),
        n1.offset() == n0.offset(),
        m.wf(),
        !m.executing(),
        m.staged() == n1.staged(),
        m.offset() == n1.offset(),
        n2.replayed(&m, Deferred::FlushInchoateActivities, &step),
    ensures
        n2.storage().activities().is_live(id.index as int),
        n2.storage().activities().slots()[id.index as int] == Some(a.payload),
{
    let k = n0.staged().len() as int;
    assert(m.staged()[k] == a);
    lemma_staged_visible(m.storage().activities().slots(), m.staged(), k);
}

/// A domain write queued during a broadcast leaves the core storage as it
/// was until it is replayed on the idle engine (`m` to `n2`); a read of that
/// domain and type then observes the written value.
pub proof fn lemma_written_during_broadcast<P, V>(
    m: Nut<P, V>,
    n2: Nut<P, V>,
    d: usize,
    tag: u64,
    value: V,
    step: Step,
)
    requires
        d < usize::MAX,
        n2.replayed(&m, Deferred::DomainStore(d, tag, value), &step),
    ensures
        d < n2.storage().bags().len(),
        n2.storage().bags()[d as int].contains_key(tag),
        n2.storage().bags()[d as int][tag] == value,
{
    lemma_stored_visible(m.storage().bags(), d, tag, value);
}

/// Indices are handed out in strictly increasing order over any run: the
/// `k`-th creation got `ids[k]`, the next index of the engine before it
/// (`before[k]`), and left that index one higher (`after[k]`); the
/// operations between two creations (deletions included) never lower it.
pub proof fn lemma_run_indices_increase(ids: Seq<int>, before: Seq<int>, after: Seq<int>)
    requires
        ids.len() == before.len(),
        ids.len() == after.len(),
        forall|k: int| 0 <= k < ids.len() ==> #[trigger] ids[k] == before[k],
        forall|k: int| 0 <= k < ids.len() ==> #[trigger] after[k] == before[k] + 1,
        forall|k: int| 0 <= k < ids.len() - 1 ==> #[trigger] after[k] <= before[k + 1],
    ensures
        forall|i: int, j: int| 0 <= i < j < ids.len() ==> ids[i] < ids[j],
{
    assert forall|i: int, j: int| 0 <= i < j < ids.len() implies ids[i] < ids[j] by {
        lemma_run_step(ids, before, after, i, j);
    }
}

proof fn lemma_run_step(ids: Seq<int>, before: Seq<int>, after: Seq<int>, i: int, j: int)
    requires
        ids.len() == before.len(),
        ids.len() == after.len(),
        forall|k: int| 0 <= k < ids.len() ==> #[trigger] ids[k] == before[k],
        forall|k: int| 0 <= k < ids.len() ==> #[trigger] after[k] == before[k] + 1,
        forall|k: int| 0 <= k < ids.len() - 1 ==> #[trigger] after[k] <= before[k + 1],
        0 <= i < j < ids.len(),
    ensures
        ids[i] + (j - i) <= ids[j],
    decreases j - i,
{
    assert(after[j - 1] <= before[j]);
    if j - 1 > i {
        lemma_run_step(ids, before, after, i, j - 1);
    }
}

/// Turning an activity active on the idle engine (`o` to `n`) brings its
/// default-policy handlers back into the delivery plan of their topic.
pub proof fn lemma_reactivated_delivered<P, V>(o: Nut<P, V>, n: Nut<P, V>, s: Subscription, step: Step)
    requires
        o.wf(),
        !o.executing(),
        o.subs().contains(s),
        s.filter == SubscriptionFilter::ActiveOnly,
        o.storage().activities().is_live(s.activity as int),
        n.lifecycle_applied(&o, s.activity, true, &step),
    ensures
        delivery_plan(n.subs(), s.topic, n.storage().activities()).contains(s),
{
    lemma_default_filter(n.subs(), s, n.storage().activities());
}

} // verus!