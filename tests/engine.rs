use nuts::activity::{ActivityHandlerContainer, ActivityId, DomainId, MessageAccess, Subscription};
use nuts::domain::{DomainState, ManagedState};
use nuts::nut::{Nut, OnDelete, Step, Unavailable};
use nuts::response::ReplyPoll;
use nuts::topic::{SubscriptionFilter, Topic};

type Engine = Nut<String, u64>;

const MSG: u64 = 7;
const OTHER_MSG: u64 = 8;

/// Replays every deferred operation, collecting the lifecycle deliveries.
fn drain(nut: &mut Engine) -> Vec<Vec<Subscription>> {
    let mut notified = Vec::new();
    while let Some(step) = nut.apply_next_deferred() {
        if let Step::Notify(list) = step {
            notified.push(list);
        }
    }
    notified
}

fn handlers_for(nut: &mut Engine, topic: Topic) -> Vec<u64> {
    let held = nut.begin_broadcast().expect("idle engine");
    let list = nut.delivery_list(&held, topic);
    nut.end_broadcast(held);
    list.iter().map(|s| s.handler).collect()
}

#[test]
fn indices_increase_and_are_not_reused() {
    let mut nut = Engine::new();
    let a: ActivityId<String> = nut.new_activity("a".to_string(), DomainId::none(), true);
    let b: ActivityId<String> = nut.new_activity("b".to_string(), DomainId::none(), true);
    assert_eq!((a.index, b.index), (0, 1));
    let (payload, hook) = nut.delete(b).expect("idle engine");
    assert_eq!(payload, "b");
    assert_eq!(hook, None);
    let c: ActivityId<String> = nut.new_activity("c".to_string(), DomainId::none(), true);
    assert_eq!(c.index, 2);
    let held = nut.begin_broadcast().unwrap();
    assert_eq!(held.len(), 3);
    assert_eq!(held.activity(c), "c");
    assert_eq!(held.activity(a), "a");
    nut.end_broadcast(held);
}

#[test]
fn handlers_fire_in_registration_order() {
    let mut nut = Engine::new();
    let a: ActivityId<String> = nut.new_activity("a".to_string(), DomainId::none(), true);
    let b: ActivityId<String> = nut.new_activity("b".to_string(), DomainId::none(), true);
    b.subscribe(&mut nut, MSG, 10);
    a.subscribe(&mut nut, MSG, 11);
    a.subscribe(&mut nut, OTHER_MSG, 12);
    b.subscribe_mut(&mut nut, MSG, 13);
    assert_eq!(handlers_for(&mut nut, Topic::message(MSG)), vec![10, 11, 13]);
    assert_eq!(handlers_for(&mut nut, Topic::message(MSG)), vec![10, 11, 13]);
    assert_eq!(handlers_for(&mut nut, Topic::message(OTHER_MSG)), vec![12]);
}

#[test]
fn publish_without_subscribers_is_a_no_op() {
    let mut nut = Engine::new();
    let a: ActivityId<String> = nut.new_activity("a".to_string(), DomainId::none(), true);
    a.subscribe(&mut nut, MSG, 1);
    assert!(handlers_for(&mut nut, Topic::message(OTHER_MSG)).is_empty());
    assert!(!nut.is_executing());
    assert!(drain(&mut nut).is_empty());
}

#[test]
fn inactive_activity_is_skipped_by_default_filter() {
    let mut nut = Engine::new();
    let a: ActivityId<String> = nut.new_activity("a".to_string(), DomainId::none(), false);
    a.subscribe(&mut nut, MSG, 1);
    a.subscribe_masked(&mut nut, SubscriptionFilter::inactive_only(), MSG, 2);
    a.subscribe_masked(&mut nut, SubscriptionFilter::no_filter(), MSG, 3);
    assert_eq!(handlers_for(&mut nut, Topic::message(MSG)), vec![2, 3]);
    nut.set_status(a, true);
    drain(&mut nut);
    assert_eq!(handlers_for(&mut nut, Topic::message(MSG)), vec![1, 3]);
}

fn notified(step: Step) -> Vec<u64> {
    match step {
        Step::Notify(list) => list.iter().map(|s| s.handler).collect(),
        Step::Applied => panic!("no lifecycle step"),
    }
}

#[test]
fn status_changes_notify_enter_and_leave() {
    let mut nut = Engine::new();
    let a: ActivityId<String> = nut.new_activity("a".to_string(), DomainId::none(), true);
    let b: ActivityId<String> = nut.new_activity("b".to_string(), DomainId::none(), true);
    a.on_enter(&mut nut, 1);
    a.on_leave(&mut nut, 2);
    b.on_leave(&mut nut, 3);
    assert_eq!(notified(nut.set_status(a, false)), vec![2]);
    // Setting the same status again notifies nobody.
    assert_eq!(notified(nut.set_status(a, false)), Vec::<u64>::new());
    assert_eq!(notified(nut.set_status(a, true)), vec![1]);
    assert!(drain(&mut nut).is_empty());
}

#[test]
fn set_status_applies_at_once_when_idle() {
    let mut nut = Engine::new();
    let a: ActivityId<String> = nut.new_activity("a".to_string(), DomainId::none(), true);
    nut.set_status(a, false);
    let held = nut.begin_broadcast().unwrap();
    assert!(!held.is_active(a));
    nut.end_broadcast(held);
}

#[test]
fn set_status_during_broadcast_is_deferred() {
    let mut nut = Engine::new();
    let a: ActivityId<String> = nut.new_activity("a".to_string(), DomainId::none(), true);
    a.on_leave(&mut nut, 4);
    let held = nut.begin_broadcast().unwrap();
    assert!(matches!(nut.set_status(a, false), Step::Applied));
    assert!(held.is_active(a));
    nut.end_broadcast(held);
    let notified = drain(&mut nut);
    assert_eq!(notified.len(), 1);
    assert_eq!(notified[0][0].handler, 4);
    let held = nut.begin_broadcast().unwrap();
    assert!(!held.is_active(a));
    nut.end_broadcast(held);
}

#[test]
fn activity_created_during_broadcast_appears_at_quiescence() {
    let mut nut = Engine::new();
    let a: ActivityId<String> = nut.new_activity("a".to_string(), DomainId::none(), true);
    let held = nut.begin_broadcast().unwrap();
    assert!(nut.begin_broadcast().is_none());
    let b: ActivityId<String> = nut.new_activity("b".to_string(), DomainId::new(2), true);
    assert_eq!(b.index, 1);
    b.subscribe(&mut nut, MSG, 5);
    assert_eq!(held.len(), 1);
    assert!(nut.delivery_list(&held, Topic::message(MSG)).is_empty());
    nut.end_broadcast(held);
    drain(&mut nut);
    let held = nut.begin_broadcast().unwrap();
    assert_eq!(held.len(), 2);
    assert_eq!(held.activity(b), "b");
    assert_eq!(held.activity(a), "a");
    assert!(held.domain(2).read(1).is_none());
    let list = nut.delivery_list(&held, Topic::message(MSG));
    assert_eq!(list.len(), 1);
    assert_eq!(list[0].activity, 1);
    nut.end_broadcast(held);
}

#[test]
fn domain_write_during_broadcast_is_deferred() {
    let mut nut = Engine::new();
    let _a: ActivityId<String> = nut.new_activity("a".to_string(), DomainId::new(0), true);
    nut.write_domain(0, 1, 10);
    let held = nut.begin_broadcast().unwrap();
    nut.write_domain(0, 1, 20);
    assert_eq!(held.domain(0).read(1), Some(&10));
    nut.end_broadcast(held);
    drain(&mut nut);
    let held = nut.begin_broadcast().unwrap();
    assert_eq!(held.domain(0).read(1), Some(&20));
    nut.end_broadcast(held);
}

#[test]
fn reply_resolves_request() {
    let mut nut = Engine::new();
    let first = nut.new_request().unwrap();
    let second = nut.new_request().unwrap();
    assert_eq!((first, second), (0, 1));
    assert_eq!(nut.poll_reply(first), ReplyPoll::Pending);
    assert!(nut.reply(first, 42));
    assert_eq!(nut.poll_reply(first), ReplyPoll::Ready(42));
    assert_eq!(nut.poll_reply(first), ReplyPoll::Gone);
    assert!(!nut.reply(first, 43));
}

#[test]
fn abandoned_request_never_resolves() {
    let mut nut = Engine::new();
    let id = nut.new_request().unwrap();
    nut.abandon_request(id);
    assert!(!nut.reply(id, 1));
    assert_eq!(nut.poll_reply(id), ReplyPoll::Gone);
    assert!(!nut.reply(99, 1));
}

#[test]
fn delete_hands_payload_to_hook_once() {
    let mut nut = Engine::new();
    let a: ActivityId<String> = nut.new_activity("payload".to_string(), DomainId::new(1), true);
    let b: ActivityId<String> = nut.new_activity("other".to_string(), DomainId::new(1), true);
    assert_eq!(nut.register_domained_on_delete(a, 9), Ok(()));
    let (payload, hook) = nut.delete(a).unwrap();
    assert_eq!(payload, "payload");
    assert_eq!(hook, Some(OnDelete { handler: 9, domained: true }));
    let (payload, hook) = nut.delete(b).unwrap();
    assert_eq!(payload, "other");
    assert_eq!(hook, None);
}

#[test]
fn core_operations_are_unavailable_during_broadcast() {
    let mut nut = Engine::new();
    let a: ActivityId<String> = nut.new_activity("a".to_string(), DomainId::none(), true);
    let held = nut.begin_broadcast().unwrap();
    assert_eq!(nut.register_on_delete(a, 1), Err(Unavailable));
    assert!(matches!(nut.delete(a), Err(Unavailable)));
    nut.end_broadcast(held);
    assert_eq!(nut.register_on_delete(a, 1), Ok(()));
    let (_, hook) = nut.delete(a).unwrap();
    assert_eq!(hook, Some(OnDelete { handler: 1, domained: false }));
}

#[test]
fn subscription_during_broadcast_waits_for_quiescence() {
    let mut nut = Engine::new();
    let a: ActivityId<String> = nut.new_activity("a".to_string(), DomainId::new(0), true);
    a.subscribe(&mut nut, MSG, 1);
    let held = nut.begin_broadcast().unwrap();
    a.subscribe_domained(&mut nut, MSG, 2);
    assert_eq!(
        nut.delivery_list(&held, Topic::message(MSG)).iter().map(|s| s.handler).collect::<Vec<_>>(),
        vec![1]
    );
    nut.end_broadcast(held);
    drain(&mut nut);
    let list = {
        let held = nut.begin_broadcast().unwrap();
        let l = nut.delivery_list(&held, Topic::message(MSG));
        nut.end_broadcast(held);
        l
    };
    assert_eq!(list.len(), 2);
    assert_eq!(list[1].handler, 2);
    assert!(list[1].domained);
    assert_eq!(list[1].access, MessageAccess::Shared);
}

#[test]
fn scenario_deactivate_and_reactivate() {
    let mut nut = Engine::new();
    let earlier: ActivityId<String> = nut.new_activity("e".to_string(), DomainId::new(0), true);
    let a: ActivityId<String> = nut.new_activity("A".to_string(), DomainId::new(0), true);
    earlier.subscribe(&mut nut, MSG, 100);
    a.subscribe(&mut nut, MSG, 200);
    assert_eq!(handlers_for(&mut nut, Topic::message(MSG)), vec![100, 200]);
    nut.set_status(a, false);
    drain(&mut nut);
    assert_eq!(handlers_for(&mut nut, Topic::message(MSG)), vec![100]);
    nut.set_status(a, true);
    drain(&mut nut);
    assert_eq!(handlers_for(&mut nut, Topic::message(MSG)), vec![100, 200]);
}

#[test]
fn filters_and_topics() {
    let f: SubscriptionFilter = Default::default();
    assert_eq!(f, SubscriptionFilter::ActiveOnly);
    assert!(f.passes(true) && !f.passes(false));
    assert!(SubscriptionFilter::no_filter().passes(false));
    assert!(SubscriptionFilter::inactive_only().passes(false));
    assert!(!SubscriptionFilter::inactive_only().passes(true));
    assert_ne!(Topic::message(1), Topic::message(2));
    assert_ne!(Topic::enter(), Topic::leave());
}

#[test]
fn domain_bags_replace_and_take() {
    let mut bag: DomainState<u64> = DomainState::new();
    bag.store(1, 10);
    bag.store(1, 11);
    bag.store(2, 20);
    assert_eq!(bag.read(1), Some(&11));
    assert_eq!(bag.take(1), Some(11));
    assert_eq!(bag.take(1), None);
    assert_eq!(bag.read(2), Some(&20));
    let mut state: ManagedState<u64> = ManagedState::new();
    state.prepare(3);
    assert_eq!(state.len(), 4);
    state.prepare(1);
    assert_eq!(state.len(), 4);
    state.store(5, 1, 7);
    assert_eq!(state.len(), 6);
    assert_eq!(state.get(5).read(1), Some(&7));
    assert!(state.get(4).read(1).is_none());
}

#[test]
fn handler_container_filters_by_activity() {
    let mut c = ActivityHandlerContainer::new();
    let mk = |activity: usize, handler: u64| Subscription {
        topic: Topic::message(MSG),
        activity,
        filter: SubscriptionFilter::ActiveOnly,
        handler,
        access: MessageAccess::Owned,
        domained: false,
    };
    c.push(mk(0, 1));
    c.push(mk(1, 2));
    c.push(mk(0, 3));
    let id: ActivityId<String> = ActivityId::new(0, DomainId::none());
    assert_eq!(c.iter().len(), 3);
    assert_eq!(c.iter_for(id).iter().map(|s| s.handler).collect::<Vec<_>>(), vec![1, 3]);
    assert!(c.iter_topic(Topic::enter()).is_empty());
}
