//! Handles to registered activities.

use vstd::prelude::*;
use crate::dispatch::{add_on_delete_model, register_model, Dispatcher};
use crate::filter::SubscriptionFilter;
use crate::lifecycle::{LifecycleChange, LifecycleStatus};
use crate::registry::OnDelete;
use crate::subscription::Subscription;
use crate::topic::Topic;
use crate::deferred::{BroadcastAddress, BroadcastInfo, Deferred};

verus! {

/// Pointer to an activity that has been registered.
///
/// The information about the activity's type key is lost at this point, so
/// this id is used for lifecycle operations and private messaging only.
#[derive(Clone, Copy, PartialEq, Eq, Structural, Debug, Hash)]
pub struct UncheckedActivityId {
    /// Position of the activity in the registry. Index 0 is reserved for a
    /// sentinel record that stands for "no activity".
    pub index: usize,
}

impl UncheckedActivityId {
    /// A unique number for the activity. Can be used for serialization in
    /// combination with [`UncheckedActivityId::forge_from_usize`].
    pub fn as_usize(&self) -> (r: usize)
        ensures
            r == self.index,
    {
        self.index
    }

    /// Can be used for deserialization in combination with
    /// [`UncheckedActivityId::as_usize`].
    ///
    /// A handle forged from a number that was never returned by the registry
    /// names no live activity; operations on it either do nothing or end in
    /// a dispatcher fault.
    pub fn forge_from_usize(index: usize) -> (r: UncheckedActivityId)
        ensures
            r.index == index,
    {
        UncheckedActivityId { index }
    }
}

/// Handle to an activity that has been registered.
///
/// Besides the registry position it remembers the activity's integer type
/// key and the domain the activity was registered with, so it can be used to
/// add subscriptions that need domain access.
#[derive(Clone, Copy, PartialEq, Eq, Structural, Debug, Hash)]
pub struct ActivityId {
    /// The position-only part of the handle.
    pub id: UncheckedActivityId,
    /// Index of the domain the activity was bound to, if any.
    pub domain_index: Option<usize>,
    /// The caller-chosen type key of the activity.
    pub type_key: u64,
}

impl ActivityId {
    /// Builds the handle for the record at `index` with the given domain
    /// binding and type key.
    pub fn new(index: usize, domain_index: Option<usize>, type_key: u64) -> (r: ActivityId)
        ensures
            r == (ActivityId { id: UncheckedActivityId { index }, domain_index, type_key }),
    {
        ActivityId { id: UncheckedActivityId { index }, domain_index, type_key }
    }

    /// The position-only handle for this activity.
    pub fn unchecked(&self) -> (r: UncheckedActivityId)
        ensures
            r == self.id,
    {
        self.id
    }
}

/// Stands for subscriptions that do not target a specific activity: they are
/// attached to the reserved sentinel record at index 0, which is always
/// present and always active.
#[derive(Clone, Copy, PartialEq, Eq, Structural, Debug)]
pub struct NotAnActivity;

impl NotAnActivity {
    /// The handle of the reserved sentinel record.
    pub fn id() -> (r: ActivityId)
        ensures
            r == (ActivityId {
                id: UncheckedActivityId { index: 0 },
                domain_index: None,
                type_key: 0,
            }),
    {
        ActivityId { id: UncheckedActivityId { index: 0 }, domain_index: None, type_key: 0 }
    }
}

impl UncheckedActivityId {
    /// Queues a lifecycle change for the activity.
    ///
    /// The change is applied when the caller drives [`Dispatcher::step`]
    /// past it; applying any status other than deleted to an already deleted
    /// activity is a fault, while deleting twice is a harmless no-op.
    pub fn set_status<A, M>(&self, d: &mut Dispatcher<A, M>, status: LifecycleStatus)
        ensures
            final(d)@ == (crate::dispatch::DispatcherModel {
                queue: old(d)@.queue.push(
                    Deferred::LifecycleChange(LifecycleChange { activity: self.index, status }),
                ),
                ..old(d)@
            }),
            old(d).wf() ==> final(d).wf(),
    {
        d.set_status(*self, status);
    }

    /// Queues a message for the private channel this activity holds for the
    /// message's type key; silently dropped when it has no such channel.
    pub fn private_message<A, M>(&self, d: &mut Dispatcher<A, M>, type_key: u64, msg: M)
        ensures
            final(d)@ == (crate::dispatch::DispatcherModel {
                queue: old(d)@.queue.push(
                    Deferred::Broadcast(
                        BroadcastInfo {
                            address: BroadcastAddress::Local(self.index),
                            topic: Topic::PrivateMessage(type_key),
                            msg: Some(msg),
                        },
                    ),
                ),
                ..old(d)@
            }),
            old(d).wf() ==> final(d).wf(),
    {
        d.send_to_id(*self, type_key, msg);
    }
}

impl ActivityId {
    /// The subscription a registration through this handle produces.
    pub open spec fn subscription_for(
        &self,
        topic: Topic,
        handler: usize,
        filter: SubscriptionFilter,
    ) -> Subscription {
        Subscription {
            topic,
            activity: self.id.index,
            handler,
            domain: self.domain_index,
            filter,
        }
    }

    /// Registers a handler that runs when the activity changes from inactive
    /// to active. Multiple handlers can be registered.
    pub fn on_enter<A, M>(&self, d: &mut Dispatcher<A, M>, handler: usize)
        ensures
            final(d)@ == register_model(
                old(d)@,
                self.subscription_for(Topic::Enter, handler, SubscriptionFilter { active_only: false }),
            ),
            old(d).wf() ==> final(d).wf(),
    {
        d.register(Subscription {
            topic: Topic::enter(),
            activity: self.id.index,
            handler,
            domain: self.domain_index,
            filter: SubscriptionFilter::no_filter(),
        });
    }

    /// Same as [`ActivityId::on_enter`] for a handler that also takes the
    /// activity's domain.
    pub fn on_enter_domained<A, M>(&self, d: &mut Dispatcher<A, M>, handler: usize)
        ensures
            final(d)@ == register_model(
                old(d)@,
                self.subscription_for(Topic::Enter, handler, SubscriptionFilter { active_only: false }),
            ),
            old(d).wf() ==> final(d).wf(),
    {
        self.on_enter(d, handler);
    }

    /// Registers a handler that runs when the activity changes from active
    /// to inactive or deleted. Multiple handlers can be registered.
    pub fn on_leave<A, M>(&self, d: &mut Dispatcher<A, M>, handler: usize)
        ensures
            final(d)@ == register_model(
                old(d)@,
                self.subscription_for(Topic::Leave, handler, SubscriptionFilter { active_only: false }),
            ),
            old(d).wf() ==> final(d).wf(),
    {
        d.register(Subscription {
            topic: Topic::leave(),
            activity: self.id.index,
            handler,
            domain: self.domain_index,
            filter: SubscriptionFilter::no_filter(),
        });
    }

    /// Same as [`ActivityId::on_leave`] for a handler that also takes the
    /// activity's domain.
    pub fn on_leave_domained<A, M>(&self, d: &mut Dispatcher<A, M>, handler: usize)
        ensures
            final(d)@ == register_model(
                old(d)@,
                self.subscription_for(Topic::Leave, handler, SubscriptionFilter { active_only: false }),
            ),
            old(d).wf() ==> final(d).wf(),
    {
        self.on_leave(d, handler);
    }

    /// Registers the handler that runs when the activity is deleted, taking
    /// ownership of its data. Only one such hook exists per activity: a
    /// second registration overwrites the first.
    pub fn on_delete<A, M>(&self, d: &mut Dispatcher<A, M>, handler: usize)
        ensures
            final(d)@ == add_on_delete_model(
                old(d)@,
                self.id.index,
                OnDelete::Simple { handler },
            ),
            old(d).wf() ==> final(d).wf(),
    {
        d.add_on_delete(self.id, OnDelete::Simple { handler });
    }

    /// Same as [`ActivityId::on_delete`] for a hook that also takes the
    /// activity's domain.
    pub fn on_delete_domained<A, M>(&self, d: &mut Dispatcher<A, M>, handler: usize)
        ensures
            final(d)@ == add_on_delete_model(
                old(d)@,
                self.id.index,
                OnDelete::WithDomain { handler, domain: self.domain_index },
            ),
            old(d).wf() ==> final(d).wf(),
    {
        d.add_on_delete(self.id, OnDelete::WithDomain { handler, domain: self.domain_index });
    }

    /// Registers a handler for the public topic with the given type key. By
    /// default the handler only runs while the activity is active; use
    /// [`ActivityId::subscribe_masked`] for control over that.
    pub fn subscribe<A, M>(&self, d: &mut Dispatcher<A, M>, type_key: u64, handler: usize)
        ensures
            final(d)@ == register_model(
                old(d)@,
                self.subscription_for(
                    Topic::PublicMessage(type_key),
                    handler,
                    SubscriptionFilter { active_only: true },
                ),
            ),
            old(d).wf() ==> final(d).wf(),
    {
        d.register(Subscription {
            topic: Topic::public_message(type_key),
            activity: self.id.index,
            handler,
            domain: self.domain_index,
            filter: SubscriptionFilter::new(),
        });
    }

    /// Same as [`ActivityId::subscribe`] for a handler that takes the
    /// message by mutable reference.
    pub fn subscribe_mut<A, M>(&self, d: &mut Dispatcher<A, M>, type_key: u64, handler: usize)
        ensures
            final(d)@ == register_model(
                old(d)@,
                self.subscription_for(
                    Topic::PublicMessage(type_key),
                    handler,
                    SubscriptionFilter { active_only: true },
                ),
            ),
            old(d).wf() ==> final(d).wf(),
    {
        self.subscribe(d, type_key, handler);
    }

    /// Same as [`ActivityId::subscribe`] for a handler that also takes the
    /// activity's domain.
    pub fn subscribe_domained<A, M>(&self, d: &mut Dispatcher<A, M>, type_key: u64, handler: usize)
        ensures
            final(d)@ == register_model(
                old(d)@,
                self.subscription_for(
                    Topic::PublicMessage(type_key),
                    handler,
                    SubscriptionFilter { active_only: true },
                ),
            ),
            old(d).wf() ==> final(d).wf(),
    {
        self.subscribe(d, type_key, handler);
    }

    /// Same as [`ActivityId::subscribe_domained`] for a handler that takes
    /// the message by mutable reference.
    pub fn subscribe_domained_mut<A, M>(
        &self,
        d: &mut Dispatcher<A, M>,
        type_key: u64,
        handler: usize,
    )
        ensures
            final(d)@ == register_model(
                old(d)@,
                self.subscription_for(
                    Topic::PublicMessage(type_key),
                    handler,
                    SubscriptionFilter { active_only: true },
                ),
            ),
            old(d).wf() ==> final(d).wf(),
    {
        self.subscribe(d, type_key, handler);
    }

    /// Registers a handler for the public topic with an explicit filter.
    pub fn subscribe_masked<A, M>(
        &self,
        d: &mut Dispatcher<A, M>,
        mask: SubscriptionFilter,
        type_key: u64,
        handler: usize,
    )
        ensures
            final(d)@ == register_model(
                old(d)@,
                self.subscription_for(Topic::PublicMessage(type_key), handler, mask),
            ),
            old(d).wf() ==> final(d).wf(),
    {
        d.register(Subscription {
            topic: Topic::public_message(type_key),
            activity: self.id.index,
            handler,
            domain: self.domain_index,
            filter: mask,
        });
    }

    /// Same as [`ActivityId::subscribe_masked`] for a handler that takes the
    /// message by mutable reference.
    pub fn subscribe_masked_mut<A, M>(
        &self,
        d: &mut Dispatcher<A, M>,
        mask: SubscriptionFilter,
        type_key: u64,
        handler: usize,
    )
        ensures
            final(d)@ == register_model(
                old(d)@,
                self.subscription_for(Topic::PublicMessage(type_key), handler, mask),
            ),
            old(d).wf() ==> final(d).wf(),
    {
        self.subscribe_masked(d, mask, type_key, handler);
    }

    /// Same as [`ActivityId::subscribe_masked`] for a handler that also
    /// takes the activity's domain.
    pub fn subscribe_domained_masked<A, M>(
        &self,
        d: &mut Dispatcher<A, M>,
        mask: SubscriptionFilter,
        type_key: u64,
        handler: usize,
    )
        ensures
            final(d)@ == register_model(
                old(d)@,
                self.subscription_for(Topic::PublicMessage(type_key), handler, mask),
            ),
            old(d).wf() ==> final(d).wf(),
    {
        self.subscribe_masked(d, mask, type_key, handler);
    }

    /// Same as [`ActivityId::subscribe_domained_masked`] for a handler that
    /// takes the message by mutable reference.
    pub fn subscribe_domained_masked_mut<A, M>(
        &self,
        d: &mut Dispatcher<A, M>,
        mask: SubscriptionFilter,
        type_key: u64,
        handler: usize,
    )
        ensures
            final(d)@ == register_model(
                old(d)@,
                self.subscription_for(Topic::PublicMessage(type_key), handler, mask),
            ),
            old(d).wf() ==> final(d).wf(),
    {
        self.subscribe_masked(d, mask, type_key, handler);
    }

    /// Registers the activity's private channel for the given message type
    /// key. The handler takes ownership of each message. Registering a
    /// second channel for the same type key replaces the first.
    pub fn private_channel<A, M>(&self, d: &mut Dispatcher<A, M>, type_key: u64, handler: usize)
        ensures
            final(d)@ == register_model(
                old(d)@,
                self.subscription_for(
                    Topic::PrivateMessage(type_key),
                    handler,
                    SubscriptionFilter { active_only: true },
                ),
            ),
            old(d).wf() ==> final(d).wf(),
    {
        d.register(Subscription {
            topic: Topic::private_message(type_key),
            activity: self.id.index,
            handler,
            domain: self.domain_index,
            filter: SubscriptionFilter::new(),
        });
    }

    /// Same as [`ActivityId::private_channel`] for a handler that also takes
    /// the activity's domain.
    pub fn private_domained_channel<A, M>(
        &self,
        d: &mut Dispatcher<A, M>,
        type_key: u64,
        handler: usize,
    )
        ensures
            final(d)@ == register_model(
                old(d)@,
                self.subscription_for(
                    Topic::PrivateMessage(type_key),
                    handler,
                    SubscriptionFilter { active_only: true },
                ),
            ),
            old(d).wf() ==> final(d).wf(),
    {
        self.private_channel(d, type_key, handler);
    }

    /// Registers the activity's private channel with an explicit filter.
    pub fn private_channel_masked<A, M>(
        &self,
        d: &mut Dispatcher<A, M>,
        mask: SubscriptionFilter,
        type_key: u64,
        handler: usize,
    )
        ensures
            final(d)@ == register_model(
                old(d)@,
                self.subscription_for(Topic::PrivateMessage(type_key), handler, mask),
            ),
            old(d).wf() ==> final(d).wf(),
    {
        d.register(Subscription {
            topic: Topic::private_message(type_key),
            activity: self.id.index,
            handler,
            domain: self.domain_index,
            filter: mask,
        });
    }

    /// Same as [`ActivityId::private_channel_masked`] for a handler that
    /// also takes the activity's domain.
    pub fn private_domained_channel_masked<A, M>(
        &self,
        d: &mut Dispatcher<A, M>,
        mask: SubscriptionFilter,
        type_key: u64,
        handler: usize,
    )
        ensures
            final(d)@ == register_model(
                old(d)@,
                self.subscription_for(Topic::PrivateMessage(type_key), handler, mask),
            ),
            old(d).wf() ==> final(d).wf(),
    {
        self.private_channel_masked(d, mask, type_key, handler);
    }

    /// Queues a lifecycle change for the activity.
    pub fn set_status<A, M>(&self, d: &mut Dispatcher<A, M>, status: LifecycleStatus)
        ensures
            final(d)@ == (crate::dispatch::DispatcherModel {
                queue: old(d)@.queue.push(
                    Deferred::LifecycleChange(
                        LifecycleChange { activity: self.id.index, status },
                    ),
                ),
                ..old(d)@
            }),
            old(d).wf() ==> final(d).wf(),
    {
        d.set_status(self.id, status);
    }

    /// Queues a message for the private channel this activity holds for the
    /// message's type key; silently dropped when it has no such channel.
    pub fn private_message<A, M>(&self, d: &mut Dispatcher<A, M>, type_key: u64, msg: M)
        ensures
            final(d)@ == (crate::dispatch::DispatcherModel {
                queue: old(d)@.queue.push(
                    Deferred::Broadcast(
                        BroadcastInfo {
                            address: BroadcastAddress::Local(self.id.index),
                            topic: Topic::PrivateMessage(type_key),
                            msg: Some(msg),
                        },
                    ),
                ),
                ..old(d)@
            }),
            old(d).wf() ==> final(d).wf(),
    {
        d.send_to_id(self.id, type_key, msg);
    }
}

} // verus!
