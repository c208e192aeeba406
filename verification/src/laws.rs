//! The dispatcher's guarantees, stated and proved over the model.

use vstd::prelude::*;
use crate::deferred::{BroadcastAddress, BroadcastInfo, Deferred};
use crate::dispatch::{
    batch_model,
    private_calls,
    statuses_of,
    step_model,
    DispatcherModel,
    Fault,
    StepModel,
};
use crate::lifecycle::{boundary_event, LifecycleChange, LifecycleStatus};
use crate::subscription::{
    invocation_of,
    lemma_private_replace_lookup,
    private_lookup,
    private_replace,
    shared_calls,
    sub_matches,
    sub_passes,
    Invocation,
    Subscription,
};
use crate::domain::{domain_lookup, domain_store, lemma_domain_store_get, lemma_domain_store_len};
use crate::topic::Topic;

verus! {

/// How much drain work one queued event can still cause: a lifecycle change
/// may emit a notification broadcast and a removal, everything else emits
/// nothing.
pub open spec fn event_weight<M>(ev: Deferred<M>) -> nat {
    match ev {
        Deferred::LifecycleChange(_) => 3,
        _ => 1,
    }
}

/// The total drain work still in the queue.
pub open spec fn queue_weight<M>(q: Seq<Deferred<M>>) -> nat
    decreases q.len(),
{
    if q.len() == 0 {
        0
    } else {
        event_weight(q[0]) + queue_weight(q.skip(1))
    }
}

/// Queue weight adds up over concatenation.
proof fn lemma_queue_weight_concat<M>(a: Seq<Deferred<M>>, b: Seq<Deferred<M>>)
    ensures
        queue_weight(a + b) == queue_weight(a) + queue_weight(b),
    decreases a.len(),
{
    if a.len() == 0 {
        assert(a + b =~= b);
    } else {
        lemma_queue_weight_concat(a.skip(1), b);
        assert((a + b)[0] == a[0]);
        assert((a + b).skip(1) =~= a.skip(1) + b);
    }
}

/// Weight of a queue with one event appended.
proof fn lemma_queue_weight_push<M>(q: Seq<Deferred<M>>, ev: Deferred<M>)
    ensures
        queue_weight(q.push(ev)) == queue_weight(q) + event_weight(ev),
{
    lemma_queue_weight_concat(q, seq![ev]);
    assert(q + seq![ev] =~= q.push(ev));
    assert(queue_weight(seq![ev]) == event_weight(ev) + queue_weight(
        seq![ev].skip(1),
    ));
    assert(seq![ev].skip(1) =~= Seq::<Deferred<M>>::empty());
}

/// Every step on a non-empty queue strictly reduces the remaining drain
/// work: the drain loop terminates unless new operations arrive from
/// outside.
pub proof fn lemma_step_reduces_weight<A, M>(s: DispatcherModel<A, M>)
    requires
        s.queue.len() > 0,
    ensures
        queue_weight(step_model(s).0.queue) < queue_weight(s.queue),
{
    let ev = s.queue[0];
    let rest = s.queue.skip(1);
    assert(queue_weight(s.queue) == event_weight(ev) + queue_weight(rest));
    match ev {
        Deferred::LifecycleChange(lc) => {
            if lc.activity >= s.recs.len() {
            } else {
                let before = s.recs[lc.activity as int].status;
                if before == lc.status {
                    if lc.status is Deleted {
                        lemma_queue_weight_push(rest, Deferred::RemoveActivity(lc.activity));
                    }
                } else if before is Deleted {
                } else {
                    let q1 = match boundary_event(before, lc.status) {
                        Some(topic) => rest.push(
                            Deferred::Broadcast(
                                BroadcastInfo {
                                    address: BroadcastAddress::Local(lc.activity),
                                    topic,
                                    msg: None,
                                },
                            ),
                        ),
                        None => rest,
                    };
                    match boundary_event(before, lc.status) {
                        Some(topic) => {
                            lemma_queue_weight_push(
                                rest,
                                Deferred::Broadcast(
                                    BroadcastInfo {
                                        address: BroadcastAddress::Local(lc.activity),
                                        topic,
                                        msg: None,
                                    },
                                ),
                            );
                        },
                        None => {},
                    }
                    if lc.status is Deleted {
                        lemma_queue_weight_push(q1, Deferred::RemoveActivity(lc.activity));
                    }
                }
            }
        },
        _ => {},
    }
}

/// The invocations one step asks the caller to perform.
pub open spec fn invocations_of<A, M>(out: StepModel<A, M>) -> Seq<Invocation> {
    match out {
        StepModel::Invoke { calls, .. } => calls,
        _ => Seq::empty(),
    }
}

/// Draining to quiescence without outside interference: steps are taken
/// until the queue is empty, collecting every handler invocation in order.
/// The recursion is well-founded by [`lemma_step_reduces_weight`]: absent
/// reentrant operations, every drain terminates.
pub open spec fn drain_model<A, M>(s: DispatcherModel<A, M>) -> (DispatcherModel<A, M>, Seq<
    Invocation,
>)
    decreases queue_weight(s.queue),
    via drain_model_decreases::<A, M>
{
    if s.queue.len() == 0 {
        (step_model(s).0, Seq::empty())
    } else {
        let first = step_model(s);
        let rest = drain_model(first.0);
        (rest.0, invocations_of(first.1) + rest.1)
    }
}

#[via_fn]
proof fn drain_model_decreases<A, M>(s: DispatcherModel<A, M>) {
    if s.queue.len() != 0 {
        lemma_step_reduces_weight(s);
    }
}

/// First-in first-out processing: a step on a non-empty queue consumes
/// exactly the front event, and everything the event emits is appended at
/// the back, behind all events queued earlier. Reentrant operations observe
/// the same discipline: each of them appends one event at the back.
pub proof fn law_fifo_step<A, M>(s: DispatcherModel<A, M>)
    requires
        s.queue.len() > 0,
    ensures
        exists|emitted: Seq<Deferred<M>>|
            step_model(s).0.queue == #[trigger] (s.queue.skip(1) + emitted),
{
    let ev = s.queue[0];
    let rest = s.queue.skip(1);
    match ev {
        Deferred::LifecycleChange(lc) => {
            let q2 = step_model(s).0.queue;
            if lc.activity >= s.recs.len() {
                assert(q2 =~= rest + Seq::<Deferred<M>>::empty());
            } else {
                let before = s.recs[lc.activity as int].status;
                if before == lc.status {
                    if lc.status is Deleted {
                        assert(q2 =~= rest + seq![Deferred::RemoveActivity(lc.activity)]);
                    } else {
                        assert(q2 =~= rest + Seq::<Deferred<M>>::empty());
                    }
                } else if before is Deleted {
                    assert(q2 =~= rest + Seq::<Deferred<M>>::empty());
                } else {
                    let notification = boundary_event(before, lc.status);
                    match notification {
                        Some(topic) => {
                            let b = Deferred::Broadcast(
                                BroadcastInfo {
                                    address: BroadcastAddress::Local(lc.activity),
                                    topic,
                                    msg: None,
                                },
                            );
                            if lc.status is Deleted {
                                assert(q2 =~= rest + seq![
                                    b,
                                    Deferred::RemoveActivity(lc.activity),
                                ]);
                            } else {
                                assert(q2 =~= rest + seq![b]);
                            }
                        },
                        None => {
                            if lc.status is Deleted {
                                assert(q2 =~= rest + seq![Deferred::RemoveActivity(lc.activity)]);
                            } else {
                                assert(q2 =~= rest + Seq::<Deferred<M>>::empty());
                            }
                        },
                    }
                }
            }
        },
        _ => {
            assert(step_model(s).0.queue =~= rest + Seq::<Deferred<M>>::empty());
        },
    }
}

/// What a broadcast delivers, exactly: the addressed subscriptions that pass
/// their filter, in registration order, one invocation each.
pub proof fn law_delivery_is_filtered_registration_order(
    subs: Seq<Subscription>,
    topic: Topic,
    target: Option<usize>,
    sts: Seq<LifecycleStatus>,
)
    ensures
        shared_calls(subs, topic, target, sts) =~= subs.filter(
            |s: Subscription| sub_matches(s, topic, target) && sub_passes(s, sts),
        ).map_values(|s: Subscription| invocation_of(s)),
    decreases subs.len(),
{
    reveal(Seq::filter);
    let pred = |s: Subscription| sub_matches(s, topic, target) && sub_passes(s, sts);
    let f = |s: Subscription| invocation_of(s);
    if subs.len() == 0 {
    } else {
        law_delivery_is_filtered_registration_order(subs.drop_last(), topic, target, sts);
        let prefix = subs.drop_last();
        if pred(subs.last()) {
            assert(prefix.filter(pred).push(subs.last()).map_values(f) =~= prefix.filter(
                pred,
            ).map_values(f).push(f(subs.last())));
        }
    }
}

/// Exactly-once delivery: with one subscription for a topic, which passes
/// its filter, a queue of `n` broadcasts of that topic drains to exactly
/// `n` invocations of that handler, and the rest of the state is untouched.
pub proof fn law_exactly_once_delivery<A, M>(
    s: DispatcherModel<A, M>,
    sub: Subscription,
    key: u64,
    msg: M,
    n: nat,
)
    requires
        s.shared == seq![sub],
        sub.topic == Topic::PublicMessage(key),
        sub_passes(sub, statuses_of(s.recs)),
        s.queue == Seq::new(
            n,
            |i: int|
                Deferred::Broadcast(
                    BroadcastInfo {
                        address: BroadcastAddress::Global,
                        topic: Topic::PublicMessage(key),
                        msg: Some(msg),
                    },
                ),
        ),
    ensures
        drain_model(s).1 =~= Seq::new(n, |i: int| invocation_of(sub)),
        drain_model(s).0 =~~= (DispatcherModel {
            queue: Seq::empty(),
            executing: false,
            ..s
        }),
    decreases n,
{
    let topic = Topic::PublicMessage(key);
    let publish_event = Deferred::Broadcast(
        BroadcastInfo { address: BroadcastAddress::Global, topic, msg: Some(msg) },
    );
    if n == 0 {
        assert(s.queue.len() == 0);
    } else {
        assert(s.queue.len() == n);
        assert(s.queue[0] == publish_event);
        let (s1, out) = step_model(s);
        let sts = statuses_of(s.recs);
        assert(s.shared.drop_last() =~= Seq::<Subscription>::empty());
        assert(shared_calls(Seq::<Subscription>::empty(), topic, None, sts) =~= Seq::<
            Invocation,
        >::empty());
        assert(s.shared.last() == sub);
        assert(shared_calls(s.shared, topic, None, sts) =~= seq![invocation_of(sub)]);
        assert(s1.queue =~= Seq::new(
            (n - 1) as nat,
            |i: int|
                Deferred::Broadcast(
                    BroadcastInfo {
                        address: BroadcastAddress::Global,
                        topic: Topic::PublicMessage(key),
                        msg: Some(msg),
                    },
                ),
        ));
        law_exactly_once_delivery(s1, sub, key, msg, (n - 1) as nat);
        assert(invocations_of(out) =~= seq![invocation_of(sub)]);
        assert(drain_model(s).1 =~= seq![invocation_of(sub)] + drain_model(s1).1);
        assert(drain_model(s).1 =~= Seq::new(n, |i: int| invocation_of(sub)));
        assert(drain_model(s).0 =~~= (DispatcherModel {
            queue: Seq::empty(),
            executing: false,
            ..s
        }));
    }
}

/// Active filtering: a broadcast is not delivered to an activity-bound
/// subscription while the activity is not active, and is delivered once the
/// activity is active again.
pub proof fn law_active_filtering<A, M>(s: DispatcherModel<A, M>, sub: Subscription, key: u64, msg:
    Option<M>)
    requires
        s.shared == seq![sub],
        sub.topic == Topic::PublicMessage(key),
        sub.filter.active_only,
        sub.activity < s.recs.len(),
    ensures
        !s.recs[sub.activity as int].status.spec_is_active() ==> batch_model(
            s,
            BroadcastAddress::Global,
            Topic::PublicMessage(key),
            msg,
        ) == (StepModel::<A, M>::Invoke { msg, owned: false, calls: Seq::empty() }),
        s.recs[sub.activity as int].status.spec_is_active() ==> batch_model(
            s,
            BroadcastAddress::Global,
            Topic::PublicMessage(key),
            msg,
        ) == (StepModel::<A, M>::Invoke { msg, owned: false, calls: seq![invocation_of(sub)] }),
{
    let sts = statuses_of(s.recs);
    assert(sts[sub.activity as int] == s.recs[sub.activity as int].status);
    assert(s.shared.drop_last() =~= Seq::<Subscription>::empty());
    assert(s.shared.last() == sub);
    assert(shared_calls(Seq::<Subscription>::empty(), Topic::PublicMessage(key), None, sts) =~= Seq::<
        Invocation,
    >::empty());
    if s.recs[sub.activity as int].status.spec_is_active() {
        assert(shared_calls(s.shared, Topic::PublicMessage(key), None, sts) =~= seq![
            invocation_of(sub),
        ]);
    } else {
        assert(!sub_passes(sub, sts));
        assert(shared_calls(s.shared, Topic::PublicMessage(key), None, sts) =~= Seq::<
            Invocation,
        >::empty());
    }
}

/// Enter and leave fire exactly on transitions: applying a lifecycle change
/// to a live activity emits exactly one enter notification when the activity
/// becomes active, exactly one leave notification when it stops being
/// active, and nothing at all when the status does not change.
pub proof fn law_enter_leave_on_transition<A, M>(
    s: DispatcherModel<A, M>,
    a: usize,
    st: LifecycleStatus,
)
    requires
        s.queue.len() > 0,
        s.queue[0] == Deferred::<M>::LifecycleChange(LifecycleChange { activity: a, status: st }),
        a < s.recs.len(),
        s.recs[a as int].status != LifecycleStatus::Deleted,
    ensures
        step_model(s).1 == StepModel::<A, M>::Applied,
        ({
            let before = s.recs[a as int].status;
            let notification = Deferred::Broadcast(
                BroadcastInfo {
                    address: BroadcastAddress::Local(a),
                    topic: if st.spec_is_active() {
                        Topic::Enter
                    } else {
                        Topic::Leave
                    },
                    msg: None,
                },
            );
            let removal: Seq<Deferred<M>> = if st is Deleted {
                seq![Deferred::RemoveActivity(a)]
            } else {
                Seq::empty()
            };
            if before == st {
                step_model(s).0.recs == s.recs && step_model(s).0.queue == s.queue.skip(1)
                    + removal
            } else {
                step_model(s).0.recs == s.recs.update(
                    a as int,
                    crate::registry::ActivityRecord { status: st, ..s.recs[a as int] },
                ) && step_model(s).0.queue == s.queue.skip(1) + (
                if before.spec_is_active() != st.spec_is_active() {
                    seq![notification]
                } else {
                    Seq::empty()
                }) + removal
            }
        }),
{
    let before = s.recs[a as int].status;
    let rest = s.queue.skip(1);
    if before == st {
        if st is Deleted {
            assert(step_model(s).0.queue =~= rest + seq![Deferred::RemoveActivity(a)]);
        } else {
            assert(step_model(s).0.queue =~= rest + Seq::<Deferred<M>>::empty());
        }
    } else {
        let crossing = before.spec_is_active() != st.spec_is_active();
        if crossing {
            let topic = if st.spec_is_active() {
                Topic::Enter
            } else {
                Topic::Leave
            };
            assert(boundary_event(before, st) == Some(topic));
            let b = Deferred::Broadcast(
                BroadcastInfo { address: BroadcastAddress::Local(a), topic, msg: None },
            );
            if st is Deleted {
                assert(step_model(s).0.queue =~= rest + seq![b] + seq![
                    Deferred::RemoveActivity(a),
                ]);
            } else {
                assert(step_model(s).0.queue =~= rest + seq![b] + Seq::<Deferred<M>>::empty());
            }
        } else {
            assert(boundary_event(before, st) is None);
            if st is Deleted {
                assert(step_model(s).0.queue =~= rest + Seq::<Deferred<M>>::empty() + seq![
                    Deferred::RemoveActivity(a),
                ]);
            } else {
                assert(step_model(s).0.queue =~= rest + Seq::<Deferred<M>>::empty() + Seq::<
                    Deferred<M>,
                >::empty());
            }
        }
    }
}

/// Deferred deletion visibility: applying a deletion transition marks the
/// status at once but leaves the activity's data in place — the removal runs
/// as a later queued event, behind the leave notification. And once the
/// status is deleted, a broadcast no longer reaches the activity's filtered
/// subscription.
pub proof fn law_deferred_deletion_visibility<A, M>(s: DispatcherModel<A, M>, a: usize)
    requires
        s.queue.len() > 0,
        s.queue[0] == Deferred::<M>::LifecycleChange(
            LifecycleChange { activity: a, status: LifecycleStatus::Deleted },
        ),
        a < s.recs.len(),
        s.recs[a as int].status != LifecycleStatus::Deleted,
    ensures
        step_model(s).0.recs[a as int].status is Deleted,
        step_model(s).0.recs[a as int].data == s.recs[a as int].data,
        step_model(s).0.queue.last() == Deferred::<M>::RemoveActivity(a),
        forall|sub: Subscription|
            sub.activity == a && sub.filter.active_only ==> !(#[trigger] sub_passes(
                sub,
                statuses_of(step_model(s).0.recs),
            )),
{
    let before = s.recs[a as int].status;
    law_enter_leave_on_transition(s, a, LifecycleStatus::Deleted);
    let recs2 = step_model(s).0.recs;
    assert(recs2[a as int].status is Deleted);
    assert(statuses_of(recs2)[a as int] == recs2[a as int].status);
}

/// Domain round trip: a value stored under a key is what a lookup of that
/// key yields; overwriting replaces the value without adding an entry.
pub proof fn law_domain_round_trip<M>(entries: Seq<(u64, M)>, key: u64, first: M, second: M)
    ensures
        domain_lookup(domain_store(entries, key, first), key) == Some(first),
        domain_lookup(domain_store(domain_store(entries, key, first), key, second), key) == Some(
            second,
        ),
        domain_store(domain_store(entries, key, first), key, second).len() == domain_store(
            entries,
            key,
            first,
        ).len(),
{
    lemma_domain_store_get(entries, key, first);
    lemma_domain_store_get(domain_store(entries, key, first), key, second);
    lemma_domain_store_len(domain_store(entries, key, first), key, second);
}

/// Private channel cardinality: registering two private channels on the same
/// activity for the same topic keeps only the second, and a private delivery
/// to that activity invokes it exactly once.
pub proof fn law_private_channel_cardinality(
    privs: Seq<Subscription>,
    first: Subscription,
    second: Subscription,
    sts: Seq<LifecycleStatus>,
)
    requires
        first.topic == second.topic,
        first.activity == second.activity,
        second.topic is PrivateMessage,
        sub_passes(second, sts),
    ensures
        private_lookup(
            private_replace(private_replace(privs, first), second),
            second.topic,
            second.activity,
        ) == Some(second),
        private_calls(
            private_replace(private_replace(privs, first), second),
            second.topic,
            second.activity,
            sts,
        ) =~= seq![invocation_of(second)],
{
    lemma_private_replace_lookup(private_replace(privs, first), second);
}

/// The serialization discipline: any operation requested while a drain is
/// in progress leaves every component of the state alone except the queue,
/// to which it appends exactly one event. The drain loop alone applies
/// deferred effects, so reentrant calls can never corrupt the in-flight
/// state.
pub proof fn law_operations_defer_while_executing<A, M>(
    s: DispatcherModel<A, M>,
    sub: Subscription,
    a: usize,
    hook: crate::registry::OnDelete,
    domain: usize,
    key: u64,
    data: M,
)
    requires
        s.executing,
    ensures
        crate::dispatch::register_model(s, sub) == (DispatcherModel {
            queue: s.queue.push(Deferred::Subscription(sub)),
            ..s
        }),
        crate::dispatch::add_on_delete_model(s, a, hook) == (DispatcherModel {
            queue: s.queue.push(Deferred::OnDeleteSubscription(a, hook)),
            ..s
        }),
        crate::dispatch::store_to_domain_model(s, domain, key, data) == (DispatcherModel {
            queue: s.queue.push(
                Deferred::DomainStore(crate::deferred::DomainStoreData { domain, key, data }),
            ),
            ..s
        }),
{
}

/// Deleted is terminal: applying any status but deleted to a deleted
/// activity is a fault and changes nothing; deleting again is a harmless
/// no-op, and removing an already removed record runs no hook.
pub proof fn law_deleted_is_terminal<A, M>(s: DispatcherModel<A, M>, a: usize, st: LifecycleStatus)
    requires
        s.queue.len() > 0,
        s.queue[0] == Deferred::<M>::LifecycleChange(LifecycleChange { activity: a, status: st }),
        a < s.recs.len(),
        s.recs[a as int].status is Deleted,
    ensures
        st != LifecycleStatus::Deleted ==> step_model(s).1 == StepModel::<A, M>::Fault(
            Fault::StatusChangeAfterDelete,
        ) && step_model(s).0.recs == s.recs,
        st == LifecycleStatus::Deleted ==> step_model(s).1 == StepModel::<A, M>::Applied
            && step_model(s).0.recs == s.recs && step_model(s).0.queue == s.queue.skip(1).push(
            Deferred::RemoveActivity(a),
        ),
{
}

/// The second half of safe double deletion: removing a record whose data is
/// already gone applies as a no-op and asks for no hook call.
pub proof fn law_remove_tombstone_is_noop<A, M>(s: DispatcherModel<A, M>, a: usize)
    requires
        s.queue.len() > 0,
        s.queue[0] == Deferred::<M>::RemoveActivity(a),
        a < s.recs.len() ==> s.recs[a as int].data is None,
    ensures
        step_model(s).1 == StepModel::<A, M>::Applied,
        step_model(s).0.recs == s.recs,
{
}

/// Handles are never reused: the registry and the pending buffer only ever
/// grow or merge, so one step never shrinks the space of issued indices, and
/// a fresh registration returns an index past every record issued so far.
pub proof fn law_handles_monotonic<A, M>(s: DispatcherModel<A, M>)
    requires
        s.queue.len() > 0,
    ensures
        step_model(s).0.recs.len() + step_model(s).0.pending.len() >= s.recs.len()
            + s.pending.len(),
        step_model(s).0.recs.len() >= s.recs.len(),
{
}

/// A fresh handle names no existing record: registering while quiescent
/// returns exactly the next index.
pub proof fn law_fresh_handle_is_new<A, M>(
    s: DispatcherModel<A, M>,
    type_key: u64,
    data: A,
    domain: Option<usize>,
    status: LifecycleStatus,
)
    requires
        !s.executing,
        s.recs.len() <= usize::MAX,
    ensures
        ({
            let (s2, id) = crate::dispatch::new_activity_model(s, type_key, data, domain, status);
            id.id.index == s.recs.len() && s2.recs.len() == s.recs.len() + 1
        }),
{
}

} // verus!
