//! Creating and managing activities while a broadcast is in flight.

use nuts::{ActivityId, DeleteCall, Dispatcher, Invocation, LifecycleStatus, OnDelete, Step, UncheckedActivityId};

type D = Dispatcher<(), Msg>;

#[derive(Clone, Debug, PartialEq)]
enum Msg {
    Main,
    Update,
    ForInt(usize),
    Message(u32),
    Num(usize),
    NumU32(u32),
}

const K_MAIN: u64 = 1;
const K_UPDATE: u64 = 2;
const K_FORINT: u64 = 3;
const K_MESSAGE: u64 = 4;
const K_FORINT_REF: u64 = 5;
const K_USIZE: u64 = 100;
const K_U32: u64 = 101;

const T_MAIN: u64 = 10;
const T_TEST: u64 = 11;
const T_TUPLE: u64 = 12;
const T_B: u64 = 13;
const T_C: u64 = 14;

const H_CREATE: usize = 1;
const H_CREATE_SUB: usize = 2;
const H_CREATE_SUB_DOM: usize = 3;
const H_CREATE_SUB_DOM_PUB: usize = 4;
const H_BID_FORINT: usize = 5;
const H_CREATE_SUB2_PUB: usize = 6;
const H_QUEUE_MSG_THEN_SUB: usize = 7;
const H_DELETE_INCHOATE: usize = 8;
const H_ONDELETE_INCHOATE: usize = 9;
const H_CREATE_FULL: usize = 10;
const H_BIG_CREATE: usize = 11;
const H_PRIV_CREATE: usize = 12;
const H_CREATE_DELETE_COMPARE: usize = 13;
const H_INC1: usize = 20;
const H_DOM7_INC1: usize = 21;
const H_FORINT_EQ_DOM: usize = 22;
const H_SUB_PANIC: usize = 23;
const H_PRIV_DOM7_INC1: usize = 24;
const H_ENTER_DOM7_INC1: usize = 25;
const H_LEAVE_DOM7_INC10: usize = 26;
const H_DEL_INC10: usize = 30;
const H_DEL_DOM_U32_PLUS5: usize = 31;
const H_DEL_DOM7_INC100: usize = 32;
const H_DEL_A: usize = 33;
const H_DEL_B: usize = 34;

#[derive(Clone, Copy)]
enum TestDomains {
    DomainA,
}

impl nuts::DomainEnumeration for TestDomains {
    fn id(&self) -> usize {
        *self as usize
    }
}

struct TestState {
    counter: u32,
    aid: Option<ActivityId>,
    id_a: Option<ActivityId>,
    num_b: Option<UncheckedActivityId>,
}

fn fresh() -> (D, TestState) {
    (Dispatcher::new(), TestState { counter: 0, aid: None, id_a: None, num_b: None })
}

fn domain_usize(d: &mut D, dom: usize) -> usize {
    let ds = d.take_domain(dom).expect("missing domain");
    let x = match ds.try_get(K_USIZE).expect("Not in domain") {
        Msg::Num(n) => *n,
        _ => panic!("wrong type in domain"),
    };
    d.put_domain(dom, ds);
    x
}

fn run_handler(d: &mut D, st: &mut TestState, call: &Invocation, msg: &mut Option<Msg>) {
    match call.handler {
        H_CREATE => {
            let aid = nuts::new_activity(&mut *d, T_TEST, ());
            st.aid = Some(aid);
        }
        H_CREATE_SUB => {
            let id = nuts::new_activity(&mut *d, T_TEST, ());
            id.subscribe(d, K_UPDATE, H_INC1);
        }
        H_CREATE_SUB_DOM => {
            let id = nuts::new_domained_activity(&mut *d, T_TEST, (), &TestDomains::DomainA);
            id.subscribe_domained(d, K_UPDATE, H_DOM7_INC1);
        }
        H_CREATE_SUB_DOM_PUB => {
            let id = nuts::new_domained_activity(&mut *d, T_TEST, (), &TestDomains::DomainA);
            id.subscribe_domained(d, K_UPDATE, H_DOM7_INC1);
            nuts::publish(d, K_FORINT, Msg::ForInt(7));
        }
        H_BID_FORINT => {
            let a = d.take_activity(call.activity).expect("Missing activity");
            let m = match msg.as_ref().expect("missing message") {
                Msg::ForInt(n) => *n,
                _ => panic!("wrong message type"),
            };
            let dom = call.domain.expect("activity has no domain");
            let x = domain_usize(d, dom);
            assert_eq!(m, x);
            d.put_activity(call.activity, a);
        }
        H_CREATE_SUB2_PUB => {
            let id = nuts::new_domained_activity(&mut *d, T_TEST, (), &TestDomains::DomainA);
            id.subscribe_domained(d, K_FORINT, H_FORINT_EQ_DOM);
            id.subscribe_domained(d, K_UPDATE, H_DOM7_INC1);
            nuts::publish(d, K_FORINT, Msg::ForInt(7));
        }
        H_QUEUE_MSG_THEN_SUB => {
            nuts::publish(d, K_FORINT, Msg::ForInt(7));
            let id = nuts::new_activity(&mut *d, T_TEST, ());
            id.subscribe_domained(d, K_FORINT, H_FORINT_EQ_DOM);
            id.subscribe_domained(d, K_UPDATE, H_DOM7_INC1);
        }
        H_DELETE_INCHOATE => {
            let id = nuts::new_activity(&mut *d, T_TEST, ());
            id.set_status(d, LifecycleStatus::Deleted);
        }
        H_ONDELETE_INCHOATE => {
            nuts::publish(d, K_FORINT, Msg::ForInt(7));
            let id = nuts::new_activity(&mut *d, T_TEST, ());
            id.on_delete(d, H_DEL_INC10);
            id.set_status(d, LifecycleStatus::Deleted);
        }
        H_CREATE_FULL => {
            nuts::publish(d, K_FORINT, Msg::ForInt(7));
            let id = nuts::new_domained_activity(&mut *d, T_TEST, (), &TestDomains::DomainA);
            id.subscribe_domained(d, K_MESSAGE, H_SUB_PANIC);
            id.on_delete_domained(d, H_DEL_DOM_U32_PLUS5);
            id.set_status(d, LifecycleStatus::Deleted);
        }
        H_BIG_CREATE => {
            let id = nuts::new_domained_activity(&mut *d, T_TEST, (), &TestDomains::DomainA);
            id.on_enter_domained(d, H_ENTER_DOM7_INC1);
            id.on_leave_domained(d, H_LEAVE_DOM7_INC10);
            id.on_delete_domained(d, H_DEL_DOM7_INC100);
            id.set_status(d, LifecycleStatus::Inactive);
            id.set_status(d, LifecycleStatus::Active);
            st.aid = Some(id);
        }
        H_PRIV_CREATE => {
            let _owned = msg.take().expect("missing message");
            let id = nuts::new_domained_activity(&mut *d, T_TEST, (), &TestDomains::DomainA);
            id.private_domained_channel(d, K_UPDATE, H_PRIV_DOM7_INC1);
            nuts::send_to(d, T_TUPLE, K_FORINT, Msg::ForInt(7));
        }
        H_CREATE_DELETE_COMPARE => {
            let _owned = msg.take().expect("missing message");
            let id_a = nuts::new_activity(&mut *d, T_TEST, ());
            id_a.set_status(d, LifecycleStatus::Deleted);
            let num_a: UncheckedActivityId = id_a.unchecked();

            let id_b = nuts::new_activity(&mut *d, T_TUPLE, ());
            let num_b: UncheckedActivityId = id_b.unchecked();

            assert_ne!(num_a, num_b);
        }
        H_INC1 => {
            let a = d.take_activity(call.activity).expect("Missing activity");
            st.counter += 1;
            d.put_activity(call.activity, a);
        }
        H_DOM7_INC1 => {
            let a = d.take_activity(call.activity).expect("Missing activity");
            let dom = call.domain.expect("activity has no domain");
            let x = domain_usize(d, dom);
            assert_eq!(7, x);
            st.counter += 1;
            d.put_activity(call.activity, a);
        }
        H_FORINT_EQ_DOM => {
            let a = d.take_activity(call.activity).expect("Missing activity");
            let m = match msg.as_ref().expect("missing message") {
                Msg::ForInt(n) => *n,
                _ => panic!("wrong message type"),
            };
            let dom = call.domain.expect("activity has no domain");
            let x = domain_usize(d, dom);
            assert_eq!(m, x);
            d.put_activity(call.activity, a);
        }
        H_SUB_PANIC => {
            panic!("Activity should be deleted by now, why is the subscriber called?");
        }
        H_PRIV_DOM7_INC1 => {
            let a = d.take_activity(call.activity).expect("Missing activity");
            let _owned = msg.take().expect("missing message");
            let dom = call.domain.expect("activity has no domain");
            let x = domain_usize(d, dom);
            assert_eq!(7, x);
            st.counter += 1;
            d.put_activity(call.activity, a);
        }
        H_ENTER_DOM7_INC1 => {
            let a = d.take_activity(call.activity).expect("Missing activity");
            let dom = call.domain.expect("activity has no domain");
            let x = domain_usize(d, dom);
            assert_eq!(7, x);
            st.counter += 1;
            d.put_activity(call.activity, a);
        }
        H_LEAVE_DOM7_INC10 => {
            let a = d.take_activity(call.activity).expect("Missing activity");
            let dom = call.domain.expect("activity has no domain");
            let x = domain_usize(d, dom);
            assert_eq!(7, x);
            st.counter += 10;
            d.put_activity(call.activity, a);
        }
        _ => unreachable!("unknown handler"),
    }
}

fn run_delete(d: &mut D, st: &mut TestState, del: DeleteCall<()>) {
    match del.hook {
        OnDelete::Simple { handler } => match handler {
            H_DEL_INC10 => {
                st.counter += 10;
            }
            H_DEL_A => {
                let id_b = nuts::new_activity(&mut *d, T_B, ());
                let num_b: UncheckedActivityId = id_b.unchecked();
                let id_a = st.id_a.expect("missing first handle");
                assert_ne!(num_b, id_a.unchecked());
                st.num_b = Some(num_b);
                id_b.on_delete(d, H_DEL_B);
                id_b.set_status(d, LifecycleStatus::Deleted);
            }
            H_DEL_B => {
                let id_c = nuts::new_activity(&mut *d, T_C, ());
                let num_c: UncheckedActivityId = id_c.unchecked();
                let num_b = st.num_b.expect("missing second handle");
                let id_a = st.id_a.expect("missing first handle");
                assert_ne!(num_c, num_b);
                assert_ne!(num_c, id_a.unchecked());
            }
            _ => unreachable!("unknown deletion hook"),
        },
        OnDelete::WithDomain { handler, domain } => match handler {
            H_DEL_DOM_U32_PLUS5 => {
                let dom = domain.expect("activity has no domain");
                let ds = d.take_domain(dom).expect("missing domain");
                let number = match ds.try_get(K_U32).expect("Not in domain") {
                    Msg::NumU32(n) => *n,
                    _ => panic!("wrong type in domain"),
                };
                d.put_domain(dom, ds);
                st.counter += number + 5;
            }
            H_DEL_DOM7_INC100 => {
                let dom = domain.expect("activity has no domain");
                let x = domain_usize(d, dom);
                assert_eq!(7, x);
                st.counter += 100;
            }
            _ => unreachable!("unknown deletion hook"),
        },
        OnDelete::Unregistered => unreachable!("hook missing"),
    }
}

fn drive(d: &mut D, st: &mut TestState) {
    loop {
        match d.step() {
            Step::Quiescent => break,
            Step::Applied => {}
            Step::Fault(f) => panic!("dispatcher fault: {:?}", f),
            Step::Delete(del) => run_delete(d, st, del),
            Step::Invoke(batch) => {
                let mut msg = batch.msg;
                for call in batch.calls {
                    run_handler(d, st, &call, &mut msg);
                }
            }
        }
    }
}

#[test]
fn inchoate_tests_create_inchoate_activity() {
    let (mut d, mut st) = fresh();
    let main = nuts::new_activity(&mut d, T_MAIN, ());
    main.subscribe(&mut d, K_MAIN, H_CREATE);

    nuts::publish(&mut d, K_MAIN, Msg::Main);
    drive(&mut d, &mut st);

    let id = st.aid.expect("activity was not created");
    id.subscribe(&mut d, K_UPDATE, H_INC1);
    assert_eq!(st.counter, 0, "Closure called before update call");
    nuts::publish(&mut d, K_UPDATE, Msg::Update);
    drive(&mut d, &mut st);
    assert_eq!(st.counter, 1);
    nuts::publish(&mut d, K_UPDATE, Msg::Update);
    drive(&mut d, &mut st);
    assert_eq!(st.counter, 2);
}

#[test]
fn inchoate_tests_create_inchoate_activity_and_subscribe() {
    let (mut d, mut st) = fresh();
    let main = nuts::new_activity(&mut d, T_MAIN, ());
    main.subscribe(&mut d, K_MAIN, H_CREATE_SUB);

    nuts::publish(&mut d, K_MAIN, Msg::Main);
    drive(&mut d, &mut st);

    assert_eq!(st.counter, 0, "Closure called before update call");
    nuts::publish(&mut d, K_UPDATE, Msg::Update);
    drive(&mut d, &mut st);
    assert_eq!(st.counter, 1);
    nuts::publish(&mut d, K_UPDATE, Msg::Update);
    drive(&mut d, &mut st);
    assert_eq!(st.counter, 2);
}

#[test]
fn inchoate_tests_create_inchoate_domained_activity_and_subscribe() {
    let (mut d, mut st) = fresh();
    let main = nuts::new_activity(&mut d, T_MAIN, ());
    nuts::store_to_domain(&mut d, &TestDomains::DomainA, K_USIZE, Msg::Num(7));

    main.subscribe(&mut d, K_MAIN, H_CREATE_SUB_DOM);

    nuts::publish(&mut d, K_MAIN, Msg::Main);
    drive(&mut d, &mut st);

    assert_eq!(st.counter, 0, "Closure called before update call");
    nuts::publish(&mut d, K_UPDATE, Msg::Update);
    drive(&mut d, &mut st);
    assert_eq!(st.counter, 1);
    nuts::publish(&mut d, K_UPDATE, Msg::Update);
    drive(&mut d, &mut st);
    assert_eq!(st.counter, 2);
}

#[test]
fn inchoate_tests_create_inchoate_domained_activity_and_subscribe_and_publish() {
    let (mut d, mut st) = fresh();
    let main = nuts::new_activity(&mut d, T_MAIN, ());
    nuts::store_to_domain(&mut d, &TestDomains::DomainA, K_USIZE, Msg::Num(7));

    let bid = nuts::new_domained_activity(&mut d, T_TUPLE, (), &TestDomains::DomainA);
    bid.subscribe_domained(&mut d, K_FORINT, H_BID_FORINT);

    main.subscribe(&mut d, K_MAIN, H_CREATE_SUB_DOM_PUB);

    nuts::publish(&mut d, K_MAIN, Msg::Main);
    drive(&mut d, &mut st);

    assert_eq!(st.counter, 0, "Closure called before update call");
    nuts::publish(&mut d, K_UPDATE, Msg::Update);
    drive(&mut d, &mut st);
    assert_eq!(st.counter, 1);
    nuts::publish(&mut d, K_UPDATE, Msg::Update);
    drive(&mut d, &mut st);
    assert_eq!(st.counter, 2);
}

#[test]
fn inchoate_tests_create_inchoate_domained_activity_and_subscribe_and_publish_to_inchoate_activity() {
    let (mut d, mut st) = fresh();
    let main = nuts::new_activity(&mut d, T_MAIN, ());
    nuts::store_to_domain(&mut d, &TestDomains::DomainA, K_USIZE, Msg::Num(7));

    main.subscribe(&mut d, K_MAIN, H_CREATE_SUB2_PUB);

    nuts::publish(&mut d, K_MAIN, Msg::Main);
    drive(&mut d, &mut st);

    assert_eq!(st.counter, 0, "Closure called before update call");
    nuts::publish(&mut d, K_UPDATE, Msg::Update);
    drive(&mut d, &mut st);
    assert_eq!(st.counter, 1);
    nuts::publish(&mut d, K_UPDATE, Msg::Update);
    drive(&mut d, &mut st);
    assert_eq!(st.counter, 2);
}

#[test]
fn inchoate_tests_queue_message_and_add_inchoate_subscriber() {
    let (mut d, mut st) = fresh();
    let main = nuts::new_activity(&mut d, T_MAIN, ());
    nuts::store_to_domain(&mut d, &TestDomains::DomainA, K_USIZE, Msg::Num(7));

    main.subscribe(&mut d, K_MAIN, H_QUEUE_MSG_THEN_SUB);

    nuts::publish(&mut d, K_MAIN, Msg::Main);
    drive(&mut d, &mut st);
}

#[test]
fn inchoate_tests_delete_inchoate_activity() {
    let (mut d, mut st) = fresh();
    let main = nuts::new_activity(&mut d, T_MAIN, ());
    nuts::store_to_domain(&mut d, &TestDomains::DomainA, K_U32, Msg::NumU32(7));

    main.subscribe(&mut d, K_MAIN, H_DELETE_INCHOATE);
    nuts::publish(&mut d, K_MAIN, Msg::Main);
    drive(&mut d, &mut st);
}

#[test]
fn inchoate_tests_inchoate_ondelete() {
    let (mut d, mut st) = fresh();
    let main = nuts::new_activity(&mut d, T_MAIN, ());
    nuts::store_to_domain(&mut d, &TestDomains::DomainA, K_U32, Msg::NumU32(7));

    main.subscribe(&mut d, K_MAIN, H_ONDELETE_INCHOATE);
    assert_eq!(st.counter, 0);
    nuts::publish(&mut d, K_MAIN, Msg::Main);
    drive(&mut d, &mut st);
    assert_eq!(st.counter, 10);
}

#[test]
fn inchoate_tests_delete_inchoate_activity_with_subscriber_and_on_delete() {
    let (mut d, mut st) = fresh();
    let main = nuts::new_activity(&mut d, T_MAIN, ());
    nuts::store_to_domain(&mut d, &TestDomains::DomainA, K_U32, Msg::NumU32(7));

    main.subscribe(&mut d, K_MAIN, H_CREATE_FULL);

    assert_eq!(st.counter, 0);
    nuts::publish(&mut d, K_MAIN, Msg::Main);
    drive(&mut d, &mut st);
    assert_eq!(st.counter, 12);
    nuts::publish(&mut d, K_MESSAGE, Msg::Message(0));
    drive(&mut d, &mut st);
}

#[test]
fn on_enter_and_leave_and_delete_for_inchoate_activity() {
    let (mut d, mut st) = fresh();
    let main = nuts::new_activity(&mut d, T_MAIN, ());
    nuts::store_to_domain(&mut d, &TestDomains::DomainA, K_USIZE, Msg::Num(7));

    main.subscribe(&mut d, K_MAIN, H_BIG_CREATE);

    assert_eq!(st.counter, 0);
    nuts::publish(&mut d, K_MAIN, Msg::Main);
    drive(&mut d, &mut st);
    assert_eq!(st.counter, 11);

    let aid = st.aid.expect("activity was not created");
    aid.set_status(&mut d, LifecycleStatus::Inactive);
    drive(&mut d, &mut st);
    assert_eq!(st.counter, 21);

    aid.set_status(&mut d, LifecycleStatus::Active);
    drive(&mut d, &mut st);
    assert_eq!(st.counter, 22);

    aid.set_status(&mut d, LifecycleStatus::Deleted);
    drive(&mut d, &mut st);
    assert_eq!(st.counter, 132);
}

#[test]
fn create_inchoate_domained_activity_and_subscribe_and_publish_privately() {
    let (mut d, mut st) = fresh();
    let main = nuts::new_activity(&mut d, T_MAIN, ());
    nuts::store_to_domain(&mut d, &TestDomains::DomainA, K_USIZE, Msg::Num(7));

    let bid = nuts::new_domained_activity(&mut d, T_TUPLE, (), &TestDomains::DomainA);
    bid.private_domained_channel(&mut d, K_FORINT_REF, H_BID_FORINT);

    main.private_channel(&mut d, K_MAIN, H_PRIV_CREATE);

    nuts::send_to(&mut d, T_MAIN, K_MAIN, Msg::Main);
    drive(&mut d, &mut st);

    assert_eq!(st.counter, 0, "Closure called before update call");
    nuts::send_to(&mut d, T_TEST, K_UPDATE, Msg::Update);
    drive(&mut d, &mut st);
    assert_eq!(st.counter, 1);
    nuts::send_to(&mut d, T_TEST, K_UPDATE, Msg::Update);
    drive(&mut d, &mut st);
    assert_eq!(st.counter, 2);
}

#[test]
fn inchoate_tests_create_new_after_delete() {
    let (mut d, mut st) = fresh();
    let main = nuts::new_activity(&mut d, T_MAIN, ());

    main.private_channel(&mut d, K_MAIN, H_CREATE_DELETE_COMPARE);
    nuts::send_to(&mut d, T_MAIN, K_MAIN, Msg::Main);
    drive(&mut d, &mut st);
}

#[test]
fn complex_scenario_0() {
    let (mut d, mut st) = fresh();
    let id_a = nuts::new_activity(&mut d, T_TEST, ());
    st.id_a = Some(id_a);

    id_a.on_delete(&mut d, H_DEL_A);

    id_a.set_status(&mut d, LifecycleStatus::Deleted);
    drive(&mut d, &mut st);
    assert!(st.num_b.is_some());
}
