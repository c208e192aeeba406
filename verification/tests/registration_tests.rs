//! Registration of a handler and repeated update delivery.

use nuts::{DeleteCall, Dispatcher, Invocation, Step};

type D = Dispatcher<u32, ()>;

const K_UPDATE: u64 = 1;

const T_TEST: u64 = 10;

const H_ASSERT0_ADD1: usize = 1;

fn run_handler(d: &mut D, call: &Invocation, _msg: &mut Option<()>) {
    match call.handler {
        H_ASSERT0_ADD1 => {
            let mut inner = d.take_activity(call.activity).expect("Missing activity");
            assert_eq!(inner, 0);
            inner += 1;
            d.put_activity(call.activity, inner);
        }
        _ => unreachable!("unknown handler"),
    }
}

fn run_delete(_d: &mut D, _del: DeleteCall<u32>) {
    unreachable!("no deletion hooks in this suite");
}

fn drive(d: &mut D) {
    loop {
        match d.step() {
            Step::Quiescent => break,
            Step::Applied => {}
            Step::Fault(f) => panic!("dispatcher fault: {:?}", f),
            Step::Delete(del) => run_delete(d, del),
            Step::Invoke(batch) => {
                let mut msg = batch.msg;
                for call in batch.calls {
                    run_handler(d, &call, &mut msg);
                }
            }
        }
    }
}

#[test]
fn test_closure_registration() {
    let mut d: D = Dispatcher::new();
    let id = nuts::new_activity(&mut d, T_TEST, 0u32);
    id.subscribe(&mut d, K_UPDATE, H_ASSERT0_ADD1);
    nuts::publish(&mut d, K_UPDATE, ());
    drive(&mut d);
}

#[test]
#[should_panic]
fn closure_registration_negative() {
    let mut d: D = Dispatcher::new();
    let id = nuts::new_activity(&mut d, T_TEST, 0u32);
    id.subscribe(&mut d, K_UPDATE, H_ASSERT0_ADD1);
    nuts::publish(&mut d, K_UPDATE, ());
    drive(&mut d);
    nuts::publish(&mut d, K_UPDATE, ());
    drive(&mut d);
}
