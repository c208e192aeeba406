//! The dispatcher: the deferred execution queue and the drain step that
//! serializes reentrant publish, subscribe and lifecycle operations.

use vstd::prelude::*;
use crate::activity::{ActivityId, UncheckedActivityId};
use crate::deferred::{BroadcastAddress, BroadcastInfo, Deferred, DomainStoreData, Fifo};
use crate::domain::{domain_store, DomainState};
use crate::lifecycle::{boundary_event, LifecycleChange, LifecycleStatus};
use crate::registry::{
    find_by_key,
    ActivityContainer,
    ActivityRecord,
    InchoateActivityContainer,
    OnDelete,
};
use crate::response::{NutsResponse, ResponseTracker, SlotState};
use crate::subscription::{
    invocation_of,
    private_lookup,
    private_replace,
    shared_calls,
    sub_passes,
    Invocation,
    Subscription,
    SubscriptionContainer,
};
use crate::topic::Topic;

verus! {

/// The mathematical value of a dispatcher: every component as a sequence.
#[verifier::ext_equal]
pub struct DispatcherModel<A, M> {
    /// The activity records, by handle index.
    pub recs: Seq<ActivityRecord<A>>,
    /// Activities buffered while the dispatcher executes.
    pub pending: Seq<ActivityRecord<A>>,
    /// Index the first buffered record will get once merged.
    pub offset: int,
    /// Shared subscriptions in registration order.
    pub shared: Seq<Subscription>,
    /// Private channels, at most one per topic and activity.
    pub private: Seq<Subscription>,
    /// The deferred events, front of the queue first.
    pub queue: Seq<Deferred<M>>,
    /// Domain contents, by domain index.
    pub domains: Seq<Seq<(u64, M)>>,
    /// Response slots for awaited broadcasts.
    pub slots: Seq<SlotState>,
    /// Whether a drain is in progress.
    pub executing: bool,
}

/// The statuses of all records, by index.
pub open spec fn statuses_of<A>(recs: Seq<ActivityRecord<A>>) -> Seq<LifecycleStatus> {
    recs.map_values(|r: ActivityRecord<A>| r.status)
}

/// The mathematical value of one [`Step`] outcome.
#[verifier::ext_equal]
pub enum StepModel<A, M> {
    /// The queue is empty; the dispatcher left the executing state.
    Quiescent,
    /// An event was applied to the dispatcher state; nothing to do.
    Applied,
    /// A broadcast was resolved: run these handlers with this message.
    Invoke {
        /// The message payload, if the topic carries one.
        msg: Option<M>,
        /// Whether the single receiver takes ownership of the message.
        owned: bool,
        /// The handler invocations, in delivery order.
        calls: Seq<Invocation>,
    },
    /// An activity was removed and has a deletion hook: run the hook.
    Delete {
        /// Index of the removed activity.
        activity: int,
        /// The removed activity data, handed to the hook.
        data: A,
        /// The hook to run; never [`OnDelete::Unregistered`].
        hook: OnDelete,
    },
    /// The event could not be applied: a programming error by the caller.
    Fault(Fault),
}

/// The programming errors the drain loop can encounter. Each corresponds to
/// a condition the caller is expected to treat as fatal.
#[derive(Clone, Copy, PartialEq, Eq, Structural, Debug)]
pub enum Fault {
    /// A lifecycle change targeted an activity that was already deleted.
    StatusChangeAfterDelete,
    /// A lifecycle change targeted an index without record.
    UnknownActivity,
    /// A deferred domain write targeted a domain that was never prepared.
    UnknownDomain,
}

/// One batch of handler invocations for a single broadcast.
pub struct Batch<M> {
    /// The message payload, if the topic carries one.
    pub msg: Option<M>,
    /// Whether the single receiver takes ownership of the message.
    pub owned: bool,
    /// The handler invocations, in delivery order.
    pub calls: Vec<Invocation>,
}

/// A deletion hook to run: the removed activity data and the hook that was
/// registered for it.
pub struct DeleteCall<A> {
    /// Index of the removed activity.
    pub activity: usize,
    /// The removed activity data.
    pub data: A,
    /// The hook to run; never [`OnDelete::Unregistered`].
    pub hook: OnDelete,
}

/// What one call to [`Dispatcher::step`] asks the caller to do.
pub enum Step<A, M> {
    /// The queue is empty; the dispatcher is quiescent again.
    Quiescent,
    /// An event was applied internally; call `step` again.
    Applied,
    /// Run the handlers of a resolved broadcast, in order.
    Invoke(Batch<M>),
    /// Run a deletion hook with the removed activity data.
    Delete(DeleteCall<A>),
    /// A programming error was detected; treat it as fatal.
    Fault(Fault),
}

impl<A, M> View for Step<A, M> {
    type V = StepModel<A, M>;

    open spec fn view(&self) -> StepModel<A, M> {
        match self {
            Step::Quiescent => StepModel::Quiescent,
            Step::Applied => StepModel::Applied,
            Step::Invoke(b) => StepModel::Invoke { msg: b.msg, owned: b.owned, calls: b.calls@ },
            Step::Delete(d) => StepModel::Delete {
                activity: d.activity as int,
                data: d.data,
                hook: d.hook,
            },
            Step::Fault(f) => StepModel::Fault(*f),
        }
    }
}

/// The single invocation a private delivery produces: the activity's one
/// channel for the topic, if it exists and passes its filter.
pub open spec fn private_calls(
    privs: Seq<Subscription>,
    topic: Topic,
    activity: usize,
    sts: Seq<LifecycleStatus>,
) -> Seq<Invocation> {
    match private_lookup(privs, topic, activity) {
        Some(sub) => if sub_passes(sub, sts) {
            seq![invocation_of(sub)]
        } else {
            Seq::empty()
        },
        None => Seq::empty(),
    }
}

/// Resolves one broadcast against the subscription table: which handlers run,
/// in which order, and whether the message is handed over by value.
pub open spec fn batch_model<A, M>(
    s: DispatcherModel<A, M>,
    address: BroadcastAddress,
    topic: Topic,
    msg: Option<M>,
) -> StepModel<A, M> {
    let sts = statuses_of(s.recs);
    let calls = match address {
        BroadcastAddress::Global => shared_calls(s.shared, topic, None, sts),
        BroadcastAddress::Local(a) => if topic.spec_unique_per_activity() {
            private_calls(s.private, topic, a, sts)
        } else {
            shared_calls(s.shared, topic, Some(a), sts)
        },
        BroadcastAddress::LocalByType(k) => match find_by_key(s.recs, k) {
            Some(i) => private_calls(s.private, topic, i as usize, sts),
            None => Seq::empty(),
        },
    };
    StepModel::Invoke { msg, owned: topic.spec_unique_per_activity(), calls }
}

/// The table after one registration: appended for shared topics, replacing
/// the activity's previous channel for private topics.
pub open spec fn apply_subscription<A, M>(
    t: DispatcherModel<A, M>,
    sub: Subscription,
) -> DispatcherModel<A, M> {
    if sub.topic.spec_unique_per_activity() {
        DispatcherModel { private: private_replace(t.private, sub), ..t }
    } else {
        DispatcherModel { shared: t.shared.push(sub), ..t }
    }
}

/// The records after overwriting one record's deletion hook; records out of
/// range are left alone.
pub open spec fn update_hook<A>(
    recs: Seq<ActivityRecord<A>>,
    a: int,
    hook: OnDelete,
) -> Seq<ActivityRecord<A>> {
    if 0 <= a < recs.len() {
        recs.update(a, ActivityRecord { on_delete: hook, ..recs[a] })
    } else {
        recs
    }
}

/// Applies one lifecycle change to the state `t` (the event already popped).
///
/// A change to the current status does nothing; any change away from the
/// deleted status is a fault; a real transition updates the status, queues
/// the enter or leave notification for the boundary it crosses, and queues
/// the removal when the new status is deleted, so a pending leave handler
/// still observes a live record.
pub open spec fn lifecycle_model<A, M>(
    t: DispatcherModel<A, M>,
    lc: LifecycleChange,
) -> (DispatcherModel<A, M>, StepModel<A, M>) {
    if lc.activity >= t.recs.len() {
        (t, StepModel::Fault(Fault::UnknownActivity))
    } else {
        let before = t.recs[lc.activity as int].status;
        if before == lc.status {
            let q = if lc.status is Deleted {
                t.queue.push(Deferred::RemoveActivity(lc.activity))
            } else {
                t.queue
            };
            (DispatcherModel { queue: q, ..t }, StepModel::Applied)
        } else if before is Deleted {
            (t, StepModel::Fault(Fault::StatusChangeAfterDelete))
        } else {
            let recs2 = t.recs.update(
                lc.activity as int,
                ActivityRecord { status: lc.status, ..t.recs[lc.activity as int] },
            );
            let q1 = match boundary_event(before, lc.status) {
                Some(topic) => t.queue.push(
                    Deferred::Broadcast(
                        BroadcastInfo {
                            address: BroadcastAddress::Local(lc.activity),
                            topic,
                            msg: None,
                        },
                    ),
                ),
                None => t.queue,
            };
            let q2 = if lc.status is Deleted {
                q1.push(Deferred::RemoveActivity(lc.activity))
            } else {
                q1
            };
            (DispatcherModel { recs: recs2, queue: q2, ..t }, StepModel::Applied)
        }
    }
}

/// Applies one removal to the state `t` (the event already popped): the
/// record's data and hook are taken out, leaving a tombstone. Removing a
/// tombstone or an index without record is a no-op, so deleting twice is
/// safe and runs no hook a second time.
pub open spec fn remove_model<A, M>(
    t: DispatcherModel<A, M>,
    a: usize,
) -> (DispatcherModel<A, M>, StepModel<A, M>) {
    if a < t.recs.len() && t.recs[a as int].data is Some {
        let rec = t.recs[a as int];
        let t2 = DispatcherModel {
            recs: t.recs.update(
                a as int,
                ActivityRecord { data: None, on_delete: OnDelete::Unregistered, ..rec },
            ),
            ..t
        };
        if rec.on_delete is Unregistered {
            (t2, StepModel::Applied)
        } else {
            (t2, StepModel::Delete { activity: a as int, data: rec.data->Some_0, hook: rec.on_delete })
        }
    } else {
        (t, StepModel::Applied)
    }
}

/// One step of the drain loop: with an empty queue the dispatcher becomes
/// quiescent; otherwise the front event is consumed and applied, and any
/// events it gives rise to are appended at the back of the queue, so effects
/// run in first-in first-out order.
pub open spec fn step_model<A, M>(
    s: DispatcherModel<A, M>,
) -> (DispatcherModel<A, M>, StepModel<A, M>) {
    if s.queue.len() == 0 {
        (DispatcherModel { executing: false, ..s }, StepModel::Quiescent)
    } else {
        let ev = s.queue[0];
        let t = DispatcherModel { queue: s.queue.skip(1), executing: true, ..s };
        match ev {
            Deferred::Broadcast(b) => (t, batch_model(s, b.address, b.topic, b.msg)),
            Deferred::BroadcastAwaitingResponse(b, slot) => (
                DispatcherModel {
                    slots: if slot < t.slots.len() {
                        t.slots.update(slot as int, SlotState::Done)
                    } else {
                        t.slots
                    },
                    ..t
                },
                batch_model(s, b.address, b.topic, b.msg),
            ),
            Deferred::Subscription(sub) => (apply_subscription(t, sub), StepModel::Applied),
            Deferred::OnDeleteSubscription(a, hook) => (
                DispatcherModel { recs: update_hook(t.recs, a as int, hook), ..t },
                StepModel::Applied,
            ),
            Deferred::LifecycleChange(lc) => lifecycle_model(t, lc),
            Deferred::RemoveActivity(a) => remove_model(t, a),
            Deferred::DomainStore(d) => if d.domain < t.domains.len() {
                (
                    DispatcherModel {
                        domains: t.domains.update(
                            d.domain as int,
                            domain_store(t.domains[d.domain as int], d.key, d.data),
                        ),
                        ..t
                    },
                    StepModel::Applied,
                )
            } else {
                (t, StepModel::Fault(Fault::UnknownDomain))
            },
            Deferred::FlushInchoateActivities => (
                DispatcherModel {
                    recs: t.recs + t.pending,
                    pending: Seq::empty(),
                    offset: (t.recs.len() + t.pending.len()) as int,
                    ..t
                },
                StepModel::Applied,
            ),
        }
    }
}

/// The domain list grown so the given domain index exists; missing slots are
/// filled with empty domains.
pub open spec fn grow_domains<M>(
    domains: Seq<Seq<(u64, M)>>,
    domain: Option<usize>,
) -> Seq<Seq<(u64, M)>> {
    match domain {
        Some(d) => if d < domains.len() {
            domains
        } else {
            domains + Seq::new((d + 1 - domains.len()) as nat, |i: int| Seq::empty())
        },
        None => domains,
    }
}

/// The record a fresh activity gets.
pub open spec fn new_record<A>(data: A, type_key: u64, status: LifecycleStatus) -> ActivityRecord<
    A,
> {
    ActivityRecord { data: Some(data), type_key, status, on_delete: OnDelete::Unregistered }
}

/// Registering an activity: appended to the registry when quiescent (the
/// domain storage is grown first); buffered, with a pre-offset handle and a
/// queued flush, while executing. When the handle space is exhausted nothing
/// changes and the sentinel handle comes back.
pub open spec fn new_activity_model<A, M>(
    s: DispatcherModel<A, M>,
    type_key: u64,
    data: A,
    domain: Option<usize>,
    status: LifecycleStatus,
) -> (DispatcherModel<A, M>, ActivityId) {
    if !s.executing {
        (
            DispatcherModel {
                recs: s.recs.push(new_record(data, type_key, status)),
                offset: s.recs.len() as int + 1,
                domains: grow_domains(s.domains, domain),
                ..s
            },
            ActivityId {
                id: UncheckedActivityId { index: s.recs.len() as usize },
                domain_index: domain,
                type_key,
            },
        )
    } else if s.offset + s.pending.len() <= usize::MAX {
        (
            DispatcherModel {
                pending: s.pending.push(new_record(data, type_key, status)),
                queue: s.queue.push(Deferred::FlushInchoateActivities),
                ..s
            },
            ActivityId {
                id: UncheckedActivityId { index: (s.offset + s.pending.len()) as usize },
                domain_index: domain,
                type_key,
            },
        )
    } else {
        (s, ActivityId { id: UncheckedActivityId { index: 0 }, domain_index: None, type_key: 0 })
    }
}

/// Storing into a domain: applied at once when quiescent (growing the domain
/// storage first), deferred while executing.
pub open spec fn store_to_domain_model<A, M>(
    s: DispatcherModel<A, M>,
    domain: usize,
    key: u64,
    data: M,
) -> DispatcherModel<A, M> {
    if !s.executing {
        let grown = grow_domains(s.domains, Some(domain));
        DispatcherModel {
            domains: grown.update(domain as int, domain_store(grown[domain as int], key, data)),
            ..s
        }
    } else {
        DispatcherModel {
            queue: s.queue.push(Deferred::DomainStore(DomainStoreData { domain, key, data })),
            ..s
        }
    }
}

/// Registering a subscription: applied to the table at once when quiescent,
/// deferred while executing.
pub open spec fn register_model<A, M>(
    s: DispatcherModel<A, M>,
    sub: Subscription,
) -> DispatcherModel<A, M> {
    if !s.executing {
        apply_subscription(s, sub)
    } else {
        DispatcherModel { queue: s.queue.push(Deferred::Subscription(sub)), ..s }
    }
}

/// Registering a deletion hook: applied at once when quiescent, deferred
/// while executing.
pub open spec fn add_on_delete_model<A, M>(
    s: DispatcherModel<A, M>,
    a: usize,
    hook: OnDelete,
) -> DispatcherModel<A, M> {
    if !s.executing {
        DispatcherModel { recs: update_hook(s.recs, a as int, hook), ..s }
    } else {
        DispatcherModel { queue: s.queue.push(Deferred::OnDeleteSubscription(a, hook)), ..s }
    }
}

/// The dispatch core: the activity registry, the subscription table, the
/// deferred execution queue, the domain store and the response tracker,
/// together with the flag that marks an ongoing drain.
///
/// `A` is the caller's activity data type; `M` the message and domain value
/// type. The caller drives delivery: after any mutating operation, call
/// [`Dispatcher::step`] until it returns [`Step::Quiescent`], performing the
/// handler invocations each step asks for.
///
/// The fields are public so that contracts and callers can speak about the
/// whole state; mutate it through the operations, which preserve
/// [`Dispatcher::wf`].
pub struct Dispatcher<A, M> {
    /// The activity records.
    pub activities: ActivityContainer<A>,
    /// New activities buffered while executing.
    pub inchoate: InchoateActivityContainer<A>,
    /// The subscription table.
    pub subscriptions: SubscriptionContainer,
    /// The deferred events, first in first out.
    pub queue: Fifo<Deferred<M>>,
    /// One store of typed values per domain.
    pub domains: Vec<DomainState<M>>,
    /// Slots for awaited broadcasts.
    pub tracker: ResponseTracker,
    /// Whether a drain is in progress. Operations arriving while this is set
    /// are deferred.
    pub executing: bool,
}

impl<A, M> View for Dispatcher<A, M> {
    type V = DispatcherModel<A, M>;

    open spec fn view(&self) -> DispatcherModel<A, M> {
        DispatcherModel {
            recs: self.activities.recs@,
            pending: self.inchoate.activities.recs@,
            offset: self.inchoate.offset as int,
            shared: self.subscriptions.shared@,
            private: self.subscriptions.private@,
            queue: self.queue.items@,
            domains: self.domains@.map_values(|d: DomainState<M>| d.entries@),
            slots: self.tracker.slots@,
            executing: self.executing,
        }
    }
}

/// The dispatcher's internal invariant: the buffer offset equals the
/// registry length, private channels are unique per topic and activity, and
/// every domain holds each key at most once.
pub open spec fn model_wf<A, M>(s: DispatcherModel<A, M>) -> bool {
    &&& s.offset == s.recs.len()
    &&& forall|i: int, j: int|
        0 <= i < j < s.private.len() ==> !((#[trigger] s.private[i]).topic == (
        #[trigger] s.private[j]).topic && s.private[i].activity == s.private[j].activity)
    &&& forall|d: int, i: int, j: int|
        0 <= d < s.domains.len() && 0 <= i < j < s.domains[d].len() ==> (
        #[trigger] s.domains[d][i]).0 != (#[trigger] s.domains[d][j]).0
}

impl<A, M> Dispatcher<A, M> {
    /// The dispatcher's well-formedness; constructors establish it and every
    /// operation preserves it.
    pub open spec fn wf(&self) -> bool {
        model_wf(self@)
    }

    /// A fresh dispatcher: only the sentinel record, no subscriptions, no
    /// queued events, no domains, quiescent.
    pub fn new() -> (r: Dispatcher<A, M>)
        ensures
            r@.recs.len() == 1,
            r@.recs[0] == (ActivityRecord::<A> {
                data: None,
                type_key: 0,
                status: LifecycleStatus::Active,
                on_delete: OnDelete::Unregistered,
            }),
            r@.pending =~= Seq::<ActivityRecord<A>>::empty(),
            r@.offset == 1,
            r@.shared =~= Seq::<Subscription>::empty(),
            r@.private =~= Seq::<Subscription>::empty(),
            r@.queue =~= Seq::<Deferred<M>>::empty(),
            r@.domains =~= Seq::<Seq<(u64, M)>>::empty(),
            r@.slots =~= Seq::<SlotState>::empty(),
            !r@.executing,
            r.wf(),
    {
        let activities = ActivityContainer::new();
        let r = Dispatcher {
            activities,
            inchoate: InchoateActivityContainer::new(1),
            subscriptions: SubscriptionContainer::new(),
            queue: Fifo::new(),
            domains: Vec::new(),
            tracker: ResponseTracker::new(),
            executing: false,
        };
        proof {
            assert(r@.domains =~= Seq::<Seq<(u64, M)>>::empty());
        }
        r
    }

    /// Whether no drain is in progress.
    pub fn quiescent(&self) -> (r: bool)
        ensures
            r == !self@.executing,
    {
        !self.executing
    }

    /// Grows the domain storage so the given domain index exists.
    fn prepare(&mut self, domain: Option<usize>)
        ensures
            final(self)@ =~~= (DispatcherModel {
                domains: grow_domains(old(self)@.domains, domain),
                ..old(self)@
            }),
            old(self).wf() ==> final(self).wf(),
    {
        let d = match domain {
            Some(d) => d,
            None => {
                proof {
                    assert(self@ =~~= (DispatcherModel {
                        domains: grow_domains(old(self)@.domains, domain),
                        ..old(self)@
                    }));
                }
                return ;
            },
        };
        let ghost n0 = self.domains@.len() as int;
        while self.domains.len() <= d
            invariant
                n0 == old(self).domains@.len(),
                self.activities == old(self).activities,
                self.inchoate == old(self).inchoate,
                self.subscriptions == old(self).subscriptions,
                self.queue == old(self).queue,
                self.tracker == old(self).tracker,
                self.executing == old(self).executing,
                n0 <= self.domains@.len(),
                n0 <= d ==> self.domains@.len() <= d + 1,
                n0 > d ==> self.domains@.len() == n0,
                forall|i: int| 0 <= i < n0 ==> self.domains@[i] == old(self).domains@[i],
                forall|i: int|
                    n0 <= i < self.domains@.len() ==> (#[trigger] self.domains@[i]).entries@
                        =~= Seq::<(u64, M)>::empty(),
            decreases d + 1 - self.domains@.len(),
        {
            self.domains.push(DomainState::new());
        }
        proof {
            assert(self@.domains =~~= grow_domains(old(self)@.domains, domain));
            assert(self@ =~~= (DispatcherModel {
                domains: grow_domains(old(self)@.domains, domain),
                ..old(self)@
            }));
        }
    }

    /// Registers an activity with the given type key, domain binding and
    /// initial status, and returns its handle. The handle is valid at once,
    /// even while a drain is in progress and the record is only buffered.
    pub fn new_activity(
        &mut self,
        type_key: u64,
        data: A,
        domain: Option<usize>,
        status: LifecycleStatus,
    ) -> (r: ActivityId)
        ensures
            ({
                let (s2, id) = new_activity_model(old(self)@, type_key, data, domain, status);
                final(self)@ == s2 && r == id
            }),
            old(self).wf() ==> final(self).wf(),
    {
        if !self.executing {
            self.prepare(domain);
            let index = self.activities.add(data, type_key, status);
            self.inchoate.offset = self.activities.len();
            proof {
                assert(self@ =~~= new_activity_model(old(self)@, type_key, data, domain, status).0);
            }
            ActivityId { id: UncheckedActivityId { index }, domain_index: domain, type_key }
        } else {
            let pending = self.inchoate.len();
            if self.inchoate.offset > usize::MAX - pending {
                return ActivityId {
                    id: UncheckedActivityId { index: 0 },
                    domain_index: None,
                    type_key: 0,
                };
            }
            let index = self.inchoate.offset + pending;
            self.queue.push(Deferred::FlushInchoateActivities);
            let _ = self.inchoate.activities.add(data, type_key, status);
            proof {
                assert(self@ =~~= new_activity_model(old(self)@, type_key, data, domain, status).0);
            }
            ActivityId { id: UncheckedActivityId { index }, domain_index: domain, type_key }
        }
    }

    /// Queues a broadcast of `msg` to all shared subscribers of the public
    /// topic with the given type key. Delivery happens when the caller
    /// drives [`Dispatcher::step`] past the queued event.
    pub fn publish(&mut self, type_key: u64, msg: M)
        ensures
            final(self)@ == (DispatcherModel {
                queue: old(self)@.queue.push(
                    Deferred::Broadcast(
                        BroadcastInfo {
                            address: BroadcastAddress::Global,
                            topic: Topic::PublicMessage(type_key),
                            msg: Some(msg),
                        },
                    ),
                ),
                ..old(self)@
            }),
            old(self).wf() ==> final(self).wf(),
    {
        self.queue.push(
            Deferred::Broadcast(
                BroadcastInfo {
                    address: BroadcastAddress::Global,
                    topic: Topic::PublicMessage(type_key),
                    msg: Some(msg),
                },
            ),
        );
        proof {
            assert(self@ =~~= (DispatcherModel {
                queue: old(self)@.queue.push(self@.queue.last()),
                ..old(self)@
            }));
        }
    }

    /// Queues a broadcast of `msg` to the private channel of the first live
    /// activity registered with type key `receiver_key`. The message is
    /// silently dropped when no such activity exists or it has no private
    /// channel for the message's type key.
    pub fn send_to(&mut self, receiver_key: u64, type_key: u64, msg: M)
        ensures
            final(self)@ == (DispatcherModel {
                queue: old(self)@.queue.push(
                    Deferred::Broadcast(
                        BroadcastInfo {
                            address: BroadcastAddress::LocalByType(receiver_key),
                            topic: Topic::PrivateMessage(type_key),
                            msg: Some(msg),
                        },
                    ),
                ),
                ..old(self)@
            }),
            old(self).wf() ==> final(self).wf(),
    {
        self.queue.push(
            Deferred::Broadcast(
                BroadcastInfo {
                    address: BroadcastAddress::LocalByType(receiver_key),
                    topic: Topic::PrivateMessage(type_key),
                    msg: Some(msg),
                },
            ),
        );
        proof {
            assert(self@ =~~= (DispatcherModel {
                queue: old(self)@.queue.push(self@.queue.last()),
                ..old(self)@
            }));
        }
    }

    /// Queues a broadcast of `msg` to the private channel a specific
    /// activity holds for the message's type key. Silently dropped when the
    /// activity has no such channel.
    pub fn send_to_id(&mut self, id: UncheckedActivityId, type_key: u64, msg: M)
        ensures
            final(self)@ == (DispatcherModel {
                queue: old(self)@.queue.push(
                    Deferred::Broadcast(
                        BroadcastInfo {
                            address: BroadcastAddress::Local(id.index),
                            topic: Topic::PrivateMessage(type_key),
                            msg: Some(msg),
                        },
                    ),
                ),
                ..old(self)@
            }),
            old(self).wf() ==> final(self).wf(),
    {
        self.queue.push(
            Deferred::Broadcast(
                BroadcastInfo {
                    address: BroadcastAddress::Local(id.index),
                    topic: Topic::PrivateMessage(type_key),
                    msg: Some(msg),
                },
            ),
        );
        proof {
            assert(self@ =~~= (DispatcherModel {
                queue: old(self)@.queue.push(self@.queue.last()),
                ..old(self)@
            }));
        }
    }

    /// Queues a broadcast like [`Dispatcher::publish`] and allocates a
    /// response slot that is marked done when the broadcast is dispatched.
    /// Poll the returned response against the tracker to observe completion.
    pub fn publish_awaiting_response(&mut self, type_key: u64, msg: M) -> (r: NutsResponse)
        ensures
            ({
                let queued = old(self)@.queue.push(
                    Deferred::BroadcastAwaitingResponse(
                        BroadcastInfo {
                            address: BroadcastAddress::Global,
                            topic: Topic::PublicMessage(type_key),
                            msg: Some(msg),
                        },
                        r.index,
                    ),
                );
                match crate::response::first_available(old(self)@.slots) {
                    Some(i) => r.index == i && final(self)@ == (DispatcherModel {
                        slots: old(self)@.slots.update(i, SlotState::Occupied),
                        queue: queued,
                        ..old(self)@
                    }),
                    None => r.index == old(self)@.slots.len() && final(self)@ == (DispatcherModel {
                        slots: old(self)@.slots.push(SlotState::Occupied),
                        queue: queued,
                        ..old(self)@
                    }),
                }
            }),
            old(self).wf() ==> final(self).wf(),
    {
        let slot = self.tracker.allocate();
        self.queue.push(
            Deferred::BroadcastAwaitingResponse(
                BroadcastInfo {
                    address: BroadcastAddress::Global,
                    topic: Topic::PublicMessage(type_key),
                    msg: Some(msg),
                },
                slot,
            ),
        );
        proof {
            assert(self@ =~~= (DispatcherModel {
                slots: self@.slots,
                queue: old(self)@.queue.push(self@.queue.last()),
                ..old(self)@
            }));
        }
        NutsResponse { index: slot }
    }

    /// Polls a response: true exactly once, when the awaited broadcast has
    /// been dispatched; the slot is freed on that observation.
    pub fn poll_response(&mut self, response: &NutsResponse) -> (r: bool)
        ensures
            r == (response.index < old(self)@.slots.len() && old(self)@.slots[response.index as int]
                is Done),
            final(self)@ == (DispatcherModel {
                slots: if r {
                    old(self)@.slots.update(response.index as int, SlotState::Available)
                } else {
                    old(self)@.slots
                },
                ..old(self)@
            }),
            old(self).wf() ==> final(self).wf(),
    {
        let r = response.poll(&mut self.tracker);
        proof {
            assert(self@ =~~= (DispatcherModel { slots: self@.slots, ..old(self)@ }));
        }
        r
    }

    /// Queues a lifecycle change for the activity. The transition is never
    /// applied synchronously: it takes effect when the caller drives
    /// [`Dispatcher::step`] past the queued event.
    pub fn set_status(&mut self, id: UncheckedActivityId, status: LifecycleStatus)
        ensures
            final(self)@ == (DispatcherModel {
                queue: old(self)@.queue.push(
                    Deferred::LifecycleChange(LifecycleChange { activity: id.index, status }),
                ),
                ..old(self)@
            }),
            old(self).wf() ==> final(self).wf(),
    {
        self.queue.push(Deferred::LifecycleChange(LifecycleChange { activity: id.index, status }));
        proof {
            assert(self@ =~~= (DispatcherModel {
                queue: old(self)@.queue.push(self@.queue.last()),
                ..old(self)@
            }));
        }
    }

    /// Registers a subscription: applied to the table at once when
    /// quiescent, deferred while a drain is in progress.
    pub fn register(&mut self, sub: Subscription)
        ensures
            final(self)@ == register_model(old(self)@, sub),
            old(self).wf() ==> final(self).wf(),
    {
        if !self.executing {
            self.subscriptions.force_push(sub);
            proof {
                assert(self@ =~~= register_model(old(self)@, sub));
            }
        } else {
            self.queue.push(Deferred::Subscription(sub));
            proof {
                assert(self@ =~~= register_model(old(self)@, sub));
            }
        }
    }

    /// Registers (or overwrites) the deletion hook of an activity: applied
    /// at once when quiescent, deferred while a drain is in progress.
    pub fn add_on_delete(&mut self, id: UncheckedActivityId, hook: OnDelete)
        ensures
            final(self)@ == add_on_delete_model(old(self)@, id.index, hook),
            old(self).wf() ==> final(self).wf(),
    {
        if !self.executing {
            self.activities.add_on_delete(id.index, hook);
            proof {
                assert(self@ =~~= add_on_delete_model(old(self)@, id.index, hook));
            }
        } else {
            self.queue.push(Deferred::OnDeleteSubscription(id.index, hook));
            proof {
                assert(self@ =~~= add_on_delete_model(old(self)@, id.index, hook));
            }
        }
    }

    /// Writes a value into a domain: applied at once when quiescent (growing
    /// the domain storage first), deferred while a drain is in progress.
    /// Messages published after this call observe the completed write.
    pub fn store_to_domain(&mut self, domain: usize, key: u64, data: M)
        ensures
            final(self)@ == store_to_domain_model(old(self)@, domain, key, data),
            old(self).wf() ==> final(self).wf(),
    {
        if !self.executing {
            self.prepare(Some(domain));
            let ghost grown = self@.domains;
            proof {
                assert(grown.len() == self.domains@.len());
                assert(domain < grown.len());
            }
            let slot = &mut self.domains[domain];
            slot.store(key, data);
            proof {
                assert(self@.domains =~~= grown.update(
                    domain as int,
                    domain_store(grown[domain as int], key, data),
                ));
                assert(self@ =~~= store_to_domain_model(old(self)@, domain, key, data));
            }
        } else {
            self.queue.push(Deferred::DomainStore(DomainStoreData { domain, key, data }));
            proof {
                assert(self@ =~~= store_to_domain_model(old(self)@, domain, key, data));
            }
        }
    }

    /// Whether a subscription passes its filter right now.
    fn passes(&self, s: &Subscription) -> (r: bool)
        ensures
            r == sub_passes(*s, statuses_of(self@.recs)),
    {
        if !s.filter.active_only {
            true
        } else {
            let st = self.activities.status(s.activity);
            match st {
                Some(st) => st.is_active(),
                None => false,
            }
        }
    }

    /// Collects the invocations of all addressed shared subscriptions that
    /// pass their filter, in registration order.
    fn collect_shared(&self, topic: Topic, target: Option<usize>) -> (r: Vec<Invocation>)
        ensures
            r@ == shared_calls(self@.shared, topic, target, statuses_of(self@.recs)),
    {
        let ghost subs = self.subscriptions.shared@;
        let ghost sts = statuses_of(self@.recs);
        let mut r: Vec<Invocation> = Vec::new();
        let mut i: usize = 0;
        proof {
            assert(subs.take(0) =~= Seq::<Subscription>::empty());
        }
        while i < self.subscriptions.shared.len()
            invariant
                subs == self.subscriptions.shared@,
                sts == statuses_of(self@.recs),
                i <= subs.len(),
                r@ == shared_calls(subs.take(i as int), topic, target, sts),
            decreases subs.len() - i,
        {
            proof {
                assert(subs.take(i as int + 1).drop_last() =~= subs.take(i as int));
                assert(subs.take(i as int + 1).last() == subs[i as int]);
            }
            let s = self.subscriptions.shared[i];
            let addressed = s.topic == topic && (match target {
                Some(a) => s.activity == a,
                None => true,
            });
            if addressed && self.passes(&s) {
                r.push(Invocation { activity: s.activity, handler: s.handler, domain: s.domain });
            }
            i += 1;
        }
        proof {
            assert(subs.take(i as int) =~= subs);
        }
        r
    }

    /// Collects the single invocation of an activity's private channel for a
    /// topic, if the channel exists and passes its filter.
    fn collect_private(&self, topic: Topic, activity: usize) -> (r: Vec<Invocation>)
        ensures
            r@ == private_calls(self@.private, topic, activity, statuses_of(self@.recs)),
    {
        let sub = self.subscriptions.private_subscription(topic, activity);
        match sub {
            Some(s) => {
                if self.passes(&s) {
                    let mut r: Vec<Invocation> = Vec::new();
                    r.push(Invocation { activity: s.activity, handler: s.handler, domain: s.domain });
                    r
                } else {
                    Vec::new()
                }
            },
            None => Vec::new(),
        }
    }

    /// Resolves one broadcast into its batch of invocations.
    fn resolve(&self, address: BroadcastAddress, topic: Topic, msg: Option<M>) -> (r: Batch<M>)
        ensures
            batch_model(self@, address, topic, msg) == (StepModel::<A, M>::Invoke {
                msg: r.msg,
                owned: r.owned,
                calls: r.calls@,
            }),
    {
        let calls: Vec<Invocation> = match address {
            BroadcastAddress::Global => self.collect_shared(topic, None),
            BroadcastAddress::Local(a) => {
                if topic.unique_per_activity() {
                    self.collect_private(topic, a)
                } else {
                    self.collect_shared(topic, Some(a))
                }
            },
            BroadcastAddress::LocalByType(k) => {
                let found = self.activities.id_lookup(k);
                match found {
                    Some(i) => self.collect_private(topic, i),
                    None => Vec::new(),
                }
            },
        };
        Batch { msg, owned: topic.unique_per_activity(), calls }
    }

    /// Performs one step of the drain loop.
    ///
    /// With an empty queue the dispatcher leaves the executing state and
    /// reports quiescence. Otherwise the front event is consumed: pure state
    /// changes are applied internally, a broadcast is resolved into the
    /// batch of handler invocations the caller must perform, a removal with
    /// a registered hook hands back the activity data for the hook call, and
    /// a programming error surfaces as a fault. Events emitted by the
    /// consumed event go to the back of the queue, preserving first-in
    /// first-out order of effects.
    pub fn step(&mut self) -> (r: Step<A, M>)
        ensures
            final(self)@ == step_model(old(self)@).0,
            r@ == step_model(old(self)@).1,
            old(self).wf() ==> final(self).wf(),
    {
        let ev = self.queue.pop();
        let ev = match ev {
            None => {
                self.executing = false;
                proof {
                    assert(self@ =~~= step_model(old(self)@).0);
                }
                return Step::Quiescent;
            },
            Some(ev) => ev,
        };
        self.executing = true;
        match ev {
            Deferred::Broadcast(b) => {
                let BroadcastInfo { address, topic, msg } = b;
                let batch = self.resolve(address, topic, msg);
                proof {
                    assert(self@ =~~= step_model(old(self)@).0);
                    assert((StepModel::<A, M>::Invoke {
                        msg: batch.msg,
                        owned: batch.owned,
                        calls: batch.calls@,
                    }) == step_model(old(self)@).1);
                }
                Step::Invoke(batch)
            },
            Deferred::BroadcastAwaitingResponse(b, slot) => {
                let BroadcastInfo { address, topic, msg } = b;
                let batch = self.resolve(address, topic, msg);
                self.tracker.done(slot);
                proof {
                    assert(self@ =~~= step_model(old(self)@).0);
                    assert((StepModel::<A, M>::Invoke {
                        msg: batch.msg,
                        owned: batch.owned,
                        calls: batch.calls@,
                    }) == step_model(old(self)@).1);
                }
                Step::Invoke(batch)
            },
            Deferred::Subscription(sub) => {
                self.subscriptions.force_push(sub);
                proof {
                    assert(self@ =~~= step_model(old(self)@).0);
                }
                Step::Applied
            },
            Deferred::OnDeleteSubscription(a, hook) => {
                self.activities.add_on_delete(a, hook);
                proof {
                    assert(self@ =~~= step_model(old(self)@).0);
                }
                Step::Applied
            },
            Deferred::LifecycleChange(lc) => {
                let before = self.activities.status(lc.activity);
                let before = match before {
                    None => {
                        proof {
                            assert(self@ =~~= step_model(old(self)@).0);
                        }
                        return Step::Fault(Fault::UnknownActivity);
                    },
                    Some(b) => b,
                };
                if before == lc.status {
                    if matches!(lc.status, LifecycleStatus::Deleted) {
                        self.queue.push(Deferred::RemoveActivity(lc.activity));
                    }
                    proof {
                        assert(self@ =~~= step_model(old(self)@).0);
                    }
                    Step::Applied
                } else if matches!(before, LifecycleStatus::Deleted) {
                    proof {
                        assert(self@ =~~= step_model(old(self)@).0);
                    }
                    Step::Fault(Fault::StatusChangeAfterDelete)
                } else {
                    self.activities.set_status(lc.activity, lc.status);
                    let notification = if !before.is_active() && lc.status.is_active() {
                        Some(Topic::enter())
                    } else if before.is_active() && !lc.status.is_active() {
                        Some(Topic::leave())
                    } else {
                        None
                    };
                    match notification {
                        Some(topic) => {
                            self.queue.push(
                                Deferred::Broadcast(
                                    BroadcastInfo {
                                        address: BroadcastAddress::Local(lc.activity),
                                        topic,
                                        msg: None,
                                    },
                                ),
                            );
                        },
                        None => {},
                    }
                    if matches!(lc.status, LifecycleStatus::Deleted) {
                        self.queue.push(Deferred::RemoveActivity(lc.activity));
                    }
                    proof {
                        assert(self@ =~~= step_model(old(self)@).0);
                    }
                    Step::Applied
                }
            },
            Deferred::RemoveActivity(a) => {
                let removed = self.activities.remove(a);
                match removed {
                    Some((data, hook)) => {
                        proof {
                            assert(self@ =~~= step_model(old(self)@).0);
                        }
                        match hook {
                            OnDelete::Unregistered => Step::Applied,
                            _ => {
                                let call = DeleteCall { activity: a, data, hook };
                                proof {
                                    assert((StepModel::<A, M>::Delete {
                                        activity: call.activity as int,
                                        data: call.data,
                                        hook: call.hook,
                                    }) == step_model(old(self)@).1);
                                }
                                Step::Delete(call)
                            },
                        }
                    },
                    None => {
                        proof {
                            assert(self@ =~~= step_model(old(self)@).0);
                        }
                        Step::Applied
                    },
                }
            },
            Deferred::DomainStore(d) => {
                let applied = self.exec_domain_store(d);
                proof {
                    assert(self@ =~~= step_model(old(self)@).0);
                }
                if applied {
                    Step::Applied
                } else {
                    Step::Fault(Fault::UnknownDomain)
                }
            },
            Deferred::FlushInchoateActivities => {
                self.inchoate.flush(&mut self.activities);
                proof {
                    assert(self@ =~~= step_model(old(self)@).0);
                }
                Step::Applied
            },
        }
    }

    /// Applies one queued domain write: the value is stored in its domain
    /// under its type key. The write is refused — nothing changes and false
    /// comes back — when the domain was never prepared.
    pub fn exec_domain_store(&mut self, data: DomainStoreData<M>) -> (r: bool)
        ensures
            r == (data.domain < old(self)@.domains.len()),
            final(self)@ == if data.domain < old(self)@.domains.len() {
                DispatcherModel {
                    domains: old(self)@.domains.update(
                        data.domain as int,
                        domain_store(
                            old(self)@.domains[data.domain as int],
                            data.key,
                            data.data,
                        ),
                    ),
                    ..old(self)@
                }
            } else {
                old(self)@
            },
            old(self).wf() ==> final(self).wf(),
    {
        let DomainStoreData { domain, key, data } = data;
        if domain < self.domains.len() {
            let ghost doms = self@.domains;
            let slot = &mut self.domains[domain];
            slot.store(key, data);
            proof {
                assert(self@.domains =~~= doms.update(
                    domain as int,
                    domain_store(doms[domain as int], key, data),
                ));
                assert(self@ =~~= (DispatcherModel {
                    domains: doms.update(
                        domain as int,
                        domain_store(doms[domain as int], key, data),
                    ),
                    ..old(self)@
                }));
            }
            true
        } else {
            proof {
                assert(self@ =~~= old(self)@);
            }
            false
        }
    }

    /// Moves the data of an activity out, so a handler can work on it with
    /// exclusive access; put it back with [`Dispatcher::put_activity`].
    /// Yields nothing for a tombstone or an index without record.
    pub fn take_activity(&mut self, id: usize) -> (r: Option<A>)
        ensures
            if id < old(self)@.recs.len() {
                r == old(self)@.recs[id as int].data && final(self)@ == (DispatcherModel {
                    recs: old(self)@.recs.update(
                        id as int,
                        ActivityRecord { data: None, ..old(self)@.recs[id as int] },
                    ),
                    ..old(self)@
                })
            } else {
                r is None && final(self)@ == old(self)@
            },
            old(self).wf() ==> final(self).wf(),
    {
        let r = self.activities.take_data(id);
        proof {
            if id < old(self)@.recs.len() {
                assert(self@ =~~= (DispatcherModel {
                    recs: old(self)@.recs.update(
                        id as int,
                        ActivityRecord { data: None, ..old(self)@.recs[id as int] },
                    ),
                    ..old(self)@
                }));
            } else {
                assert(self@ =~~= old(self)@);
            }
        }
        r
    }

    /// Returns data taken with [`Dispatcher::take_activity`]. The data is
    /// dropped when no record exists at the index.
    pub fn put_activity(&mut self, id: usize, data: A)
        ensures
            final(self)@ == if id < old(self)@.recs.len() {
                DispatcherModel {
                    recs: old(self)@.recs.update(
                        id as int,
                        ActivityRecord { data: Some(data), ..old(self)@.recs[id as int] },
                    ),
                    ..old(self)@
                }
            } else {
                old(self)@
            },
            old(self).wf() ==> final(self).wf(),
    {
        self.activities.put_data(id, data);
        proof {
            if id < old(self)@.recs.len() {
                assert(self@ =~~= (DispatcherModel {
                    recs: old(self)@.recs.update(
                        id as int,
                        ActivityRecord { data: Some(data), ..old(self)@.recs[id as int] },
                    ),
                    ..old(self)@
                }));
            } else {
                assert(self@ =~~= old(self)@);
            }
        }
    }

    /// Borrows the data of an activity, if its record exists and still holds
    /// data.
    pub fn activity_ref(&self, id: usize) -> (r: Option<&A>)
        ensures
            match r {
                Some(a) => id < self@.recs.len() && self@.recs[id as int].data == Some(*a),
                None => id >= self@.recs.len() || self@.recs[id as int].data is None,
            },
    {
        self.activities.data_ref(id)
    }

    /// The status of an activity, or `None` for an index without record.
    pub fn status(&self, id: usize) -> (r: Option<LifecycleStatus>)
        ensures
            r == if id < self@.recs.len() {
                Some(self@.recs[id as int].status)
            } else {
                Option::<LifecycleStatus>::None
            },
    {
        self.activities.status(id)
    }

    /// Moves a domain out, so a handler can read and write it with exclusive
    /// access; put it back with [`Dispatcher::put_domain`]. While the domain
    /// is out, an empty one takes its place. Yields nothing for a domain
    /// index that was never prepared.
    pub fn take_domain(&mut self, domain: usize) -> (r: Option<DomainState<M>>)
        ensures
            if domain < old(self)@.domains.len() {
                match r {
                    Some(d) => d.entries@ == old(self)@.domains[domain as int] && final(self)@
                        == (DispatcherModel {
                        domains: old(self)@.domains.update(
                            domain as int,
                            Seq::<(u64, M)>::empty(),
                        ),
                        ..old(self)@
                    }),
                    None => false,
                }
            } else {
                r is None && final(self)@ == old(self)@
            },
            old(self).wf() ==> final(self).wf(),
    {
        if domain < self.domains.len() {
            let mut taken = DomainState::new();
            let slot = &mut self.domains[domain];
            core::mem::swap(slot, &mut taken);
            proof {
                assert(self@ =~~= (DispatcherModel {
                    domains: old(self)@.domains.update(domain as int, Seq::<(u64, M)>::empty()),
                    ..old(self)@
                }));
            }
            Some(taken)
        } else {
            proof {
                assert(self@ =~~= old(self)@);
            }
            None
        }
    }

    /// Returns a domain taken with [`Dispatcher::take_domain`]. The domain
    /// is dropped when the index was never prepared.
    pub fn put_domain(&mut self, domain: usize, state: DomainState<M>)
        ensures
            final(self)@ == if domain < old(self)@.domains.len() {
                DispatcherModel {
                    domains: old(self)@.domains.update(domain as int, state.entries@),
                    ..old(self)@
                }
            } else {
                old(self)@
            },
            old(self).wf() && state.wf() ==> final(self).wf(),
    {
        if domain < self.domains.len() {
            self.domains[domain] = state;
            proof {
                assert(self@ =~~= (DispatcherModel {
                    domains: old(self)@.domains.update(domain as int, state.entries@),
                    ..old(self)@
                }));
            }
        } else {
            proof {
                assert(self@ =~~= old(self)@);
            }
        }
    }

    /// Borrows a domain for reading, if it was prepared.
    pub fn domain_ref(&self, domain: usize) -> (r: Option<&DomainState<M>>)
        ensures
            match r {
                Some(d) => domain < self@.domains.len() && d.entries@ == self@.domains[
                    domain as int
                ],
                None => domain >= self@.domains.len(),
            },
    {
        if domain < self.domains.len() {
            Some(&self.domains[domain])
        } else {
            None
        }
    }
}

} // verus!
