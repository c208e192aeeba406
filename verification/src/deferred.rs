//! Deferred events and the FIFO queue that serializes them.

use vstd::prelude::*;
use crate::lifecycle::LifecycleChange;
use crate::registry::OnDelete;
use crate::subscription::Subscription;
use crate::topic::Topic;

verus! {

/// Where a broadcast is delivered: to all subscribers of the topic, to the
/// subscribers of one activity, or to the single private channel of the
/// activity registered with a type key.
#[derive(Clone, Copy, PartialEq, Eq, Structural, Debug)]
pub enum BroadcastAddress {
    /// All shared subscriptions of the topic.
    Global,
    /// The shared subscriptions one activity holds for the topic. Used for
    /// the built-in lifecycle events.
    Local(usize),
    /// The private channel of the first live activity whose type key
    /// matches. Used for point-to-point delivery.
    LocalByType(u64),
}

/// A queued broadcast: its address, its topic and its message payload. The
/// built-in lifecycle events carry no payload.
pub struct BroadcastInfo<M> {
    /// Where the broadcast is delivered.
    pub address: BroadcastAddress,
    /// The topic whose subscriptions are invoked.
    pub topic: Topic,
    /// The message payload, if the topic carries one.
    pub msg: Option<M>,
}

/// A queued write of a value into a domain.
pub struct DomainStoreData<M> {
    /// Index of the domain written to.
    pub domain: usize,
    /// The type key the value is stored under.
    pub key: u64,
    /// The value to store.
    pub data: M,
}

impl<M> DomainStoreData<M> {
    /// Packs a pending domain write.
    pub fn new(domain: usize, key: u64, data: M) -> (r: DomainStoreData<M>)
        ensures
            r.domain == domain,
            r.key == key,
            r.data == data,
    {
        DomainStoreData { domain, key, data }
    }
}

/// A pending effect, created at an API call site and consumed exactly once
/// by the drain loop, in first-in first-out order.
pub enum Deferred<M> {
    /// Deliver a broadcast.
    Broadcast(BroadcastInfo<M>),
    /// Deliver a broadcast, then mark a response slot as done.
    BroadcastAwaitingResponse(BroadcastInfo<M>, usize),
    /// Register a subscription in the subscription table.
    Subscription(Subscription),
    /// Overwrite the deletion hook of an activity.
    OnDeleteSubscription(usize, OnDelete),
    /// Apply a lifecycle transition.
    LifecycleChange(LifecycleChange),
    /// Remove an activity's data, invoking its deletion hook.
    RemoveActivity(usize),
    /// Write a value into a domain.
    DomainStore(DomainStoreData<M>),
    /// Merge buffered new activities into the registry.
    FlushInchoateActivities,
}

/// A first-in first-out queue of pending effects.
pub struct Fifo<T> {
    /// The queued items; the front of the queue is at index 0.
    pub items: Vec<T>,
}

impl<T> Fifo<T> {
    /// An empty queue.
    pub fn new() -> (r: Fifo<T>)
        ensures
            r.items@ =~= Seq::<T>::empty(),
    {
        Fifo { items: Vec::new() }
    }

    /// Number of queued items.
    pub fn len(&self) -> (r: usize)
        ensures
            r == self.items@.len(),
    {
        self.items.len()
    }

    /// Appends an item at the back of the queue.
    pub fn push(&mut self, item: T)
        ensures
            final(self).items@ =~= old(self).items@.push(item),
    {
        self.items.push(item);
    }

    /// Removes and returns the item at the front of the queue, if any.
    pub fn pop(&mut self) -> (r: Option<T>)
        ensures
            old(self).items@.len() == 0 ==> r is None && final(self).items@ =~= old(self).items@,
            old(self).items@.len() > 0 ==> r == Some(old(self).items@[0]) && final(self).items@
                =~= old(self).items@.skip(1),
    {
        if self.items.len() == 0 {
            None
        } else {
            let item = self.items.remove(0);
            proof {
                assert(self.items@ =~= old(self).items@.skip(1));
            }
            Some(item)
        }
    }
}

} // verus!
