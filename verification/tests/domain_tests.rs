//! Domain usage from inside handlers, including deferred stores.

use nuts::{DeleteCall, Dispatcher, Invocation, Step};

type D = Dispatcher<(), Msg>;

#[derive(Clone, Debug, PartialEq)]
enum Msg {
    Update,
    ForInt(usize),
    Num(usize),
}

const K_UPDATE: u64 = 1;
const K_FORINT: u64 = 2;
const K_USIZE: u64 = 100;

const T_TEST: u64 = 10;

const H_FORINT_EQ_DOM: usize = 1;
const H_DOM_RW: usize = 2;

#[derive(Clone, Copy)]
enum TestDomains {
    DomainA,
}

impl nuts::DomainEnumeration for TestDomains {
    fn id(&self) -> usize {
        *self as usize
    }
}

fn domain_usize(ds: &nuts::DomainState<Msg>) -> usize {
    match ds.try_get(K_USIZE).expect("Not in domain") {
        Msg::Num(n) => *n,
        _ => panic!("wrong type in domain"),
    }
}

fn run_handler(d: &mut D, call: &Invocation, msg: &mut Option<Msg>) {
    match call.handler {
        H_FORINT_EQ_DOM => {
            let a = d.take_activity(call.activity).expect("Missing activity");
            let m = match msg.as_ref().expect("missing message") {
                Msg::ForInt(n) => *n,
                _ => panic!("wrong message type"),
            };
            let dom = call.domain.expect("activity has no domain");
            let ds = d.take_domain(dom).expect("missing domain");
            assert_eq!(m, domain_usize(&ds));
            d.put_domain(dom, ds);
            d.put_activity(call.activity, a);
        }
        H_DOM_RW => {
            let a = d.take_activity(call.activity).expect("Missing activity");
            let dom = call.domain.expect("activity has no domain");
            let mut ds = d.take_domain(dom).expect("missing domain");
            assert_eq!(7, domain_usize(&ds));
            *ds.get_mut(K_USIZE) = Msg::Num(8);
            assert_eq!(8, domain_usize(&ds));
            nuts::store_to_domain(d, &TestDomains::DomainA, K_USIZE, Msg::Num(9));
            assert_eq!(8, domain_usize(&ds));
            d.put_domain(dom, ds);
            d.put_activity(call.activity, a);
        }
        _ => unreachable!("unknown handler"),
    }
}

fn run_delete(_d: &mut D, _del: DeleteCall<()>) {
    unreachable!("no deletion hooks in this suite");
}

fn drive(d: &mut D) {
    loop {
        match d.step() {
            Step::Quiescent => break,
            Step::Applied => {}
            Step::Fault(f) => panic!("dispatcher fault: {:?}", f),
            Step::Delete(del) => run_delete(d, del),
            Step::Invoke(batch) => {
                let mut msg = batch.msg;
                for call in batch.calls {
                    run_handler(d, &call, &mut msg);
                }
            }
        }
    }
}

#[test]
fn store_to_domain_inside_activity() {
    let mut d: D = Dispatcher::new();
    let dom = TestDomains::DomainA;
    nuts::store_to_domain(&mut d, &dom, K_USIZE, Msg::Num(7));
    let id = nuts::new_domained_activity(&mut d, T_TEST, (), &dom);
    id.subscribe_domained(&mut d, K_FORINT, H_FORINT_EQ_DOM);
    id.subscribe_domained(&mut d, K_UPDATE, H_DOM_RW);

    nuts::publish(&mut d, K_FORINT, Msg::ForInt(7));
    drive(&mut d);
    nuts::publish(&mut d, K_UPDATE, Msg::Update);
    drive(&mut d);
    nuts::publish(&mut d, K_FORINT, Msg::ForInt(9));
    drive(&mut d);
}
