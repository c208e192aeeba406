//! An in-process publish/subscribe dispatcher.
//!
//! Independently created components ("activities") register message handlers
//! for topics without either side knowing about the other beforehand.  The
//! dispatcher owns the activity registry, the subscription table, a deferred
//! execution queue and a per-domain data store.  All state lives in one
//! [`Dispatcher`] value that is passed explicitly to every operation; the
//! caller drives delivery by repeatedly calling [`Dispatcher::step`] and
//! invoking the handlers named by the returned work items.
//!
//! Message types and activity types are identified by caller-chosen integer
//! type keys; the payloads themselves are generic parameters of the
//! dispatcher, so the dispatch core is independent of any concrete message
//! representation.

use vstd::prelude::*;

pub mod topic;
pub mod lifecycle;
pub mod filter;
pub mod activity;
pub mod registry;
pub mod subscription;
pub mod deferred;
pub mod response;
pub mod dispatch;
pub mod domain;
pub mod capsule;
pub mod laws;

pub use crate::activity::{ActivityId, NotAnActivity, UncheckedActivityId};
pub use crate::capsule::{Capsule, ExecError};
pub use crate::dispatch::{Batch, DeleteCall, Dispatcher, Fault, Step};
pub use crate::domain::{DefaultDomain, DomainEnumeration, DomainState};
pub use crate::filter::SubscriptionFilter;
pub use crate::lifecycle::LifecycleStatus;
pub use crate::registry::OnDelete;
pub use crate::response::NutsResponse;
pub use crate::subscription::{Invocation, Subscription, SubscriptionContainer};
pub use crate::topic::Topic;

use crate::dispatch::{new_activity_model, register_model, store_to_domain_model, DispatcherModel};
use crate::deferred::{BroadcastAddress, BroadcastInfo, Deferred};

verus! {

/// Consumes a value and registers it as an activity with the given type key.
///
/// The activity starts active and joins no domain. The returned handle is
/// used to register handlers on the activity; it is valid at once, even when
/// the call is made while the dispatcher is draining its queue.
pub fn new_activity<A, M>(d: &mut Dispatcher<A, M>, type_key: u64, activity: A) -> (r: ActivityId)
    ensures
        ({
            let (s2, id) = new_activity_model(
                old(d)@,
                type_key,
                activity,
                None,
                LifecycleStatus::Active,
            );
            final(d)@ == s2 && r == id
        }),
        old(d).wf() ==> final(d).wf(),
{
    d.new_activity(type_key, activity, None, LifecycleStatus::Active)
}

/// Consumes a value and registers it as an activity that has access to the
/// given domain.
///
/// The domain's integer id is whatever the [`DomainEnumeration`]
/// implementation returns; the dispatcher's domain storage is grown so that
/// the domain exists.
pub fn new_domained_activity<A, M, D: DomainEnumeration>(
    d: &mut Dispatcher<A, M>,
    type_key: u64,
    activity: A,
    domain: &D,
) -> (r: ActivityId)
    ensures
        exists|n: usize|
            final(d)@ == (#[trigger] new_activity_model(
                old(d)@,
                type_key,
                activity,
                Some(n),
                LifecycleStatus::Active,
            )).0 && r == new_activity_model(
                old(d)@,
                type_key,
                activity,
                Some(n),
                LifecycleStatus::Active,
            ).1,
        old(d).wf() ==> final(d).wf(),
{
    let n = domain.id();
    let ghost pre = d@;
    let r = d.new_activity(type_key, activity, Some(n), LifecycleStatus::Active);
    proof {
        assert(d@ == new_activity_model(pre, type_key, activity, Some(n), LifecycleStatus::Active).0
            && r == new_activity_model(pre, type_key, activity, Some(n), LifecycleStatus::Active).1);
    }
    r
}

/// Puts a value into the domain's store, where all activities of the domain
/// can reach it, under the given type key.
///
/// The store happens at once when the dispatcher is quiescent and is
/// deferred otherwise; either way, any message published after this call
/// observes the completed write when its subscribers run.
pub fn store_to_domain<A, M, D: DomainEnumeration>(
    d: &mut Dispatcher<A, M>,
    domain: &D,
    type_key: u64,
    data: M,
)
    ensures
        exists|n: usize| final(d)@ == #[trigger] store_to_domain_model(old(d)@, n, type_key, data),
        old(d).wf() ==> final(d).wf(),
{
    let n = domain.id();
    let ghost pre = d@;
    d.store_to_domain(n, type_key, data);
    proof {
        assert(d@ == store_to_domain_model(pre, n, type_key, data));
    }
}

/// Queues a broadcast of `msg` under the public topic with the given type
/// key; every shared subscription of that topic that passes its filter is
/// invoked when the caller drives [`Dispatcher::step`] past the event.
pub fn publish<A, M>(d: &mut Dispatcher<A, M>, type_key: u64, msg: M)
    ensures
        final(d)@ == (DispatcherModel {
            queue: old(d)@.queue.push(
                Deferred::Broadcast(
                    BroadcastInfo {
                        address: BroadcastAddress::Global,
                        topic: Topic::PublicMessage(type_key),
                        msg: Some(msg),
                    },
                ),
            ),
            ..old(d)@
        }),
        old(d).wf() ==> final(d).wf(),
{
    d.publish(type_key, msg);
}

/// Like [`publish`], and additionally returns a response that can be polled
/// against the dispatcher; it resolves once the broadcast has been
/// dispatched and every effect queued before it has been applied.
pub fn publish_awaiting_response<A, M>(d: &mut Dispatcher<A, M>, type_key: u64, msg: M) -> (r:
    NutsResponse)
    ensures
        ({
            let queued = old(d)@.queue.push(
                Deferred::BroadcastAwaitingResponse(
                    BroadcastInfo {
                        address: BroadcastAddress::Global,
                        topic: Topic::PublicMessage(type_key),
                        msg: Some(msg),
                    },
                    r.index,
                ),
            );
            match crate::response::first_available(old(d)@.slots) {
                Some(i) => r.index == i && final(d)@ == (DispatcherModel {
                    slots: old(d)@.slots.update(i, crate::response::SlotState::Occupied),
                    queue: queued,
                    ..old(d)@
                }),
                None => r.index == old(d)@.slots.len() && final(d)@ == (DispatcherModel {
                    slots: old(d)@.slots.push(crate::response::SlotState::Occupied),
                    queue: queued,
                    ..old(d)@
                }),
            }
        }),
        old(d).wf() ==> final(d).wf(),
{
    d.publish_awaiting_response(type_key, msg)
}

/// Sends a message to exactly one activity: the first live one registered
/// with `receiver_key`, through its private channel for the message's type
/// key. The message is silently dropped when no such activity exists or it
/// has no private channel for that type key.
pub fn send_to<A, M>(d: &mut Dispatcher<A, M>, receiver_key: u64, type_key: u64, msg: M)
    ensures
        final(d)@ == (DispatcherModel {
            queue: old(d)@.queue.push(
                Deferred::Broadcast(
                    BroadcastInfo {
                        address: BroadcastAddress::LocalByType(receiver_key),
                        topic: Topic::PrivateMessage(type_key),
                        msg: Some(msg),
                    },
                ),
            ),
            ..old(d)@
        }),
        old(d).wf() ==> final(d).wf(),
{
    d.send_to(receiver_key, type_key, msg);
}

/// Registers a handler for a public topic without binding it to any
/// activity: the subscription is attached to the reserved sentinel record,
/// which is always present and active, and so receives every broadcast of
/// the topic.
pub fn subscribe<A, M>(d: &mut Dispatcher<A, M>, type_key: u64, handler: usize)
    ensures
        final(d)@ == register_model(
            old(d)@,
            Subscription {
                topic: Topic::PublicMessage(type_key),
                activity: 0,
                handler,
                domain: None,
                filter: SubscriptionFilter { active_only: false },
            },
        ),
        old(d).wf() ==> final(d).wf(),
{
    d.register(
        Subscription {
            topic: Topic::public_message(type_key),
            activity: 0,
            handler,
            domain: None,
            filter: SubscriptionFilter::no_filter(),
        },
    );
}

/// A line for a panic hook: reports whether the dispatcher was executing a
/// drain when it was read.
pub fn panic_info<A, M>(d: &Dispatcher<A, M>) -> (r: &'static str)
    ensures
        d@.executing ==> r == "NUTS panic hook: Panicked while an activity was active.",
        !d@.executing ==> r == "NUTS panic hook: Panicked while no activity was active.",
{
    if d.quiescent() {
        "NUTS panic hook: Panicked while no activity was active."
    } else {
        "NUTS panic hook: Panicked while an activity was active."
    }
}

} // verus!
