//! Direct checks of the dispatcher's pieces: delivery counts, filters,
//! faults, response slots, the subscription table and the domain store.

use nuts::{
    DeleteCall,
    Dispatcher,
    DomainState,
    Fault,
    Invocation,
    LifecycleStatus,
    NotAnActivity,
    Step,
    SubscriptionContainer,
    Subscription,
    SubscriptionFilter,
    Topic,
    UncheckedActivityId,
};

type D = Dispatcher<(), u32>;

const K_MSG: u64 = 1;
const K_OTHER: u64 = 2;

const T_TEST: u64 = 10;

const H_SUM: usize = 1;
const H_SUM_TENS: usize = 2;

struct TestState {
    sum: u32,
    order: Vec<usize>,
}

fn run_handler(d: &mut D, st: &mut TestState, call: &Invocation, msg: &mut Option<u32>) {
    match call.handler {
        H_SUM => {
            let a = d.take_activity(call.activity).expect("Missing activity");
            st.sum += msg.as_ref().copied().unwrap_or(0);
            st.order.push(H_SUM);
            d.put_activity(call.activity, a);
        }
        H_SUM_TENS => {
            let a = d.take_activity(call.activity).expect("Missing activity");
            st.sum += 10 * msg.as_ref().copied().unwrap_or(0);
            st.order.push(H_SUM_TENS);
            d.put_activity(call.activity, a);
        }
        _ => unreachable!("unknown handler"),
    }
}

fn run_delete(_d: &mut D, _st: &mut TestState, _del: DeleteCall<()>) {
    unreachable!("no deletion hooks in this suite");
}

fn drive(d: &mut D, st: &mut TestState) {
    loop {
        match d.step() {
            Step::Quiescent => break,
            Step::Applied => {}
            Step::Fault(f) => panic!("dispatcher fault: {:?}", f),
            Step::Delete(del) => run_delete(d, st, del),
            Step::Invoke(batch) => {
                let mut msg = batch.msg;
                for call in batch.calls {
                    run_handler(d, st, &call, &mut msg);
                }
            }
        }
    }
}

fn drive_until_fault(d: &mut D) -> Fault {
    loop {
        match d.step() {
            Step::Quiescent => panic!("expected a fault"),
            Step::Applied => {}
            Step::Fault(f) => return f,
            Step::Delete(_) => {}
            Step::Invoke(_) => {}
        }
    }
}

#[test]
fn three_publishes_three_deliveries() {
    let mut d: D = Dispatcher::new();
    let mut st = TestState { sum: 0, order: Vec::new() };
    let id = nuts::new_activity(&mut d, T_TEST, ());
    id.subscribe(&mut d, K_MSG, H_SUM);
    nuts::publish(&mut d, K_MSG, 1);
    nuts::publish(&mut d, K_MSG, 2);
    nuts::publish(&mut d, K_MSG, 4);
    drive(&mut d, &mut st);
    assert_eq!(st.sum, 7);
    assert_eq!(st.order.len(), 3);
}

#[test]
fn delivery_in_registration_order() {
    let mut d: D = Dispatcher::new();
    let mut st = TestState { sum: 0, order: Vec::new() };
    let a = nuts::new_activity(&mut d, T_TEST, ());
    let b = nuts::new_activity(&mut d, 11, ());
    a.subscribe(&mut d, K_MSG, H_SUM);
    b.subscribe(&mut d, K_MSG, H_SUM_TENS);
    a.subscribe(&mut d, K_MSG, H_SUM);
    nuts::publish(&mut d, K_MSG, 1);
    drive(&mut d, &mut st);
    assert_eq!(st.order, vec![H_SUM, H_SUM_TENS, H_SUM]);
    assert_eq!(st.sum, 12);
}

#[test]
fn masked_subscription_reaches_inactive_activity() {
    let mut d: D = Dispatcher::new();
    let mut st = TestState { sum: 0, order: Vec::new() };
    let id = nuts::new_activity(&mut d, T_TEST, ());
    id.subscribe_masked(&mut d, SubscriptionFilter::no_filter(), K_MSG, H_SUM);
    id.set_status(&mut d, LifecycleStatus::Inactive);
    drive(&mut d, &mut st);
    nuts::publish(&mut d, K_MSG, 3);
    drive(&mut d, &mut st);
    assert_eq!(st.sum, 3);
}

#[test]
fn status_change_after_delete_faults() {
    let mut d: D = Dispatcher::new();
    let mut st = TestState { sum: 0, order: Vec::new() };
    let id = nuts::new_activity(&mut d, T_TEST, ());
    id.set_status(&mut d, LifecycleStatus::Deleted);
    drive(&mut d, &mut st);
    id.set_status(&mut d, LifecycleStatus::Inactive);
    assert_eq!(drive_until_fault(&mut d), Fault::StatusChangeAfterDelete);
}

#[test]
fn unknown_activity_faults() {
    let mut d: D = Dispatcher::new();
    let forged = UncheckedActivityId::forge_from_usize(99);
    forged.set_status(&mut d, LifecycleStatus::Active);
    assert_eq!(drive_until_fault(&mut d), Fault::UnknownActivity);
}

#[test]
fn unprepared_domain_store_faults() {
    // A deferred store into a domain that was never prepared cannot be
    // applied. The direct path prepares the domain itself, so the deferred
    // path is reached by queueing the event while the dispatcher executes;
    // here the raw dispatcher method stands in for a handler doing so.
    let mut d: D = Dispatcher::new();
    nuts::publish(&mut d, K_MSG, 0);
    match d.step() {
        Step::Invoke(_) => {}
        _ => panic!("expected the broadcast"),
    }
    d.store_to_domain(4, K_OTHER, 5);
    assert_eq!(drive_until_fault(&mut d), Fault::UnknownDomain);
}

#[test]
fn capsule_refused_while_executing() {
    let mut d: D = Dispatcher::new();
    let id = nuts::new_activity(&mut d, T_TEST, ());
    let capsule = id.encapsulate(H_SUM);
    nuts::publish(&mut d, K_MSG, 0);
    match d.step() {
        Step::Invoke(_) => {}
        _ => panic!("expected the broadcast"),
    }
    assert_eq!(capsule.execute(&d), Err(nuts::ExecError::NutsAlreadyActive));
    let mut st = TestState { sum: 0, order: Vec::new() };
    drive(&mut d, &mut st);
    assert!(capsule.execute(&d).is_ok());
}

#[test]
fn awaited_response_resolves_after_drain() {
    let mut d: D = Dispatcher::new();
    let mut st = TestState { sum: 0, order: Vec::new() };
    let id = nuts::new_activity(&mut d, T_TEST, ());
    id.subscribe(&mut d, K_MSG, H_SUM);
    let response = nuts::publish_awaiting_response(&mut d, K_MSG, 6);
    assert!(!d.poll_response(&response));
    drive(&mut d, &mut st);
    assert_eq!(st.sum, 6);
    assert!(d.poll_response(&response));
    assert!(!d.poll_response(&response));
}

#[test]
fn response_slots_are_reused() {
    let mut d: D = Dispatcher::new();
    let mut st = TestState { sum: 0, order: Vec::new() };
    let first = nuts::publish_awaiting_response(&mut d, K_MSG, 0);
    let second = nuts::publish_awaiting_response(&mut d, K_MSG, 0);
    assert_eq!(first.index, 0);
    assert_eq!(second.index, 1);
    drive(&mut d, &mut st);
    assert!(d.poll_response(&first));
    let third = nuts::publish_awaiting_response(&mut d, K_MSG, 0);
    assert_eq!(third.index, 0);
}

#[test]
fn subscription_table_accessors() {
    let mut table = SubscriptionContainer::new();
    let sub = |topic: Topic, activity: usize, handler: usize| Subscription {
        topic,
        activity,
        handler,
        domain: None,
        filter: SubscriptionFilter::no_filter(),
    };
    table.force_push(sub(Topic::public_message(K_MSG), 1, 7));
    table.force_push(sub(Topic::public_message(K_MSG), 2, 8));
    table.force_push(sub(Topic::public_message(K_OTHER), 1, 9));
    table.force_push(sub(Topic::public_message(K_MSG), 1, 10));

    let all = table.shared_subscriptions(Topic::public_message(K_MSG));
    let handlers: Vec<usize> = all.iter().map(|s| s.handler).collect();
    assert_eq!(handlers, vec![7, 8, 10]);

    let of_one = table.shared_subscriptions_of_single_activity(Topic::public_message(K_MSG), 1);
    let handlers: Vec<usize> = of_one.iter().map(|s| s.handler).collect();
    assert_eq!(handlers, vec![7, 10]);

    table.force_push(sub(Topic::private_message(K_MSG), 1, 21));
    table.force_push(sub(Topic::private_message(K_MSG), 1, 22));
    let channel = table.private_subscription(Topic::private_message(K_MSG), 1);
    assert_eq!(channel.expect("channel missing").handler, 22);
    assert!(table.private_subscription(Topic::private_message(K_OTHER), 1).is_none());
}

#[test]
fn domain_store_round_trip() {
    let mut ds: DomainState<u32> = DomainState::new();
    assert!(ds.try_get(K_MSG).is_none());
    assert!(!ds.contains_key(K_MSG));
    ds.store(K_MSG, 7);
    assert_eq!(ds.try_get(K_MSG), Some(&7));
    assert_eq!(*ds.get(K_MSG), 7);
    ds.store(K_OTHER, 30);
    *ds.get_mut(K_MSG) = 8;
    assert_eq!(ds.try_get(K_MSG), Some(&8));
    if let Some(v) = ds.try_get_mut(K_OTHER) {
        *v = 31;
    }
    assert_eq!(ds.try_get(K_OTHER), Some(&31));
    assert!(ds.try_get_mut(999).is_none());
    assert_eq!(ds.entries.len(), 2);

    let (a, b) = ds.try_get_2_mut(K_MSG, K_OTHER);
    *a.expect("first key missing") = 5;
    *b.expect("second key missing") = 6;
    assert_eq!(ds.try_get(K_MSG), Some(&5));
    assert_eq!(ds.try_get(K_OTHER), Some(&6));
    let (present, absent) = ds.try_get_2_mut(K_MSG, 999);
    assert!(present.is_some());
    assert!(absent.is_none());
    assert_eq!(ds.entries.len(), 2);
}

#[test]
fn handles_count_up_and_expose_their_index() {
    let mut d: D = Dispatcher::new();
    let a = nuts::new_activity(&mut d, T_TEST, ());
    let b = nuts::new_activity(&mut d, 11, ());
    assert_eq!(a.unchecked().as_usize(), 1);
    assert_eq!(b.unchecked().as_usize(), 2);
    assert_eq!(UncheckedActivityId::forge_from_usize(2), b.unchecked());
    assert_eq!(NotAnActivity::id().unchecked().as_usize(), 0);
}

#[test]
fn status_reads_and_panic_info() {
    let mut d: D = Dispatcher::new();
    let id = nuts::new_activity(&mut d, T_TEST, ());
    assert_eq!(d.status(id.unchecked().as_usize()), Some(LifecycleStatus::Active));
    assert!(LifecycleStatus::Active.is_active());
    assert!(!LifecycleStatus::Inactive.is_active());
    assert!(!LifecycleStatus::Deleted.is_active());
    assert_eq!(
        nuts::panic_info(&d),
        "NUTS panic hook: Panicked while no activity was active."
    );
}
