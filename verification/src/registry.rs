//! The activity registry: a heterogeneous store of activity data indexed by
//! stable handles.

use vstd::prelude::*;
use crate::lifecycle::LifecycleStatus;

verus! {

/// The deletion hook registered for one activity. At most one hook exists
/// per activity; registering a second one overwrites the first.
#[derive(Clone, Copy, PartialEq, Eq, Structural, Debug)]
pub enum OnDelete {
    /// No hook registered: deletion only removes the record's data.
    Unregistered,
    /// Call the handler with the removed activity data.
    Simple {
        /// Caller-chosen identifier of the hook to run.
        handler: usize,
    },
    /// Call the handler with the removed activity data and the domain.
    WithDomain {
        /// Caller-chosen identifier of the hook to run.
        handler: usize,
        /// The domain the activity was registered with.
        domain: Option<usize>,
    },
}

/// One activity record: its (type-erased) data, its caller-chosen type key,
/// its lifecycle status and its deletion hook.
pub struct ActivityRecord<A> {
    /// The activity's data; `None` once the activity has been removed, or
    /// for the reserved sentinel record.
    pub data: Option<A>,
    /// The caller-chosen type key, used for private messaging by type.
    pub type_key: u64,
    /// The record's lifecycle status.
    pub status: LifecycleStatus,
    /// The record's deletion hook.
    pub on_delete: OnDelete,
}

/// A collection of heterogeneous activities. Records are only ever appended;
/// deletion leaves a tombstone, so indices stay stable and are never reused.
pub struct ActivityContainer<A> {
    /// The records, in registration order.
    pub recs: Vec<ActivityRecord<A>>,
}

/// The smallest index whose record still holds data with the given type key.
pub open spec fn find_by_key<A>(recs: Seq<ActivityRecord<A>>, key: u64) -> Option<int>
    decreases recs.len(),
{
    if recs.len() == 0 {
        None
    } else if recs[0].data is Some && recs[0].type_key == key {
        Some(0)
    } else {
        match find_by_key(recs.skip(1), key) {
            Some(i) => Some(i + 1),
            None => None,
        }
    }
}

impl<A> ActivityContainer<A> {
    /// An empty container, without the sentinel record. Used as the side
    /// buffer for activities created while the dispatcher executes.
    pub fn empty() -> (r: ActivityContainer<A>)
        ensures
            r.recs@ =~= Seq::<ActivityRecord<A>>::empty(),
    {
        ActivityContainer { recs: Vec::new() }
    }

    /// A fresh registry holding only the sentinel record at index 0, which
    /// stands for "no activity", is always active and holds no data.
    pub fn new() -> (r: ActivityContainer<A>)
        ensures
            r.recs@.len() == 1,
            r.recs@[0] == (ActivityRecord::<A> {
                data: None,
                type_key: 0,
                status: LifecycleStatus::Active,
                on_delete: OnDelete::Unregistered,
            }),
    {
        let mut recs: Vec<ActivityRecord<A>> = Vec::new();
        recs.push(ActivityRecord {
            data: None,
            type_key: 0,
            status: LifecycleStatus::Active,
            on_delete: OnDelete::Unregistered,
        });
        ActivityContainer { recs }
    }

    /// Number of records, tombstones included.
    pub fn len(&self) -> (r: usize)
        ensures
            r == self.recs@.len(),
    {
        self.recs.len()
    }

    /// Appends a new record and returns its index.
    pub fn add(&mut self, a: A, type_key: u64, status: LifecycleStatus) -> (r: usize)
        ensures
            r == old(self).recs@.len(),
            final(self).recs@ =~= old(self).recs@.push(
                ActivityRecord { data: Some(a), type_key, status, on_delete: OnDelete::Unregistered },
            ),
    {
        let i = self.recs.len();
        self.recs.push(ActivityRecord {
            data: Some(a),
            type_key,
            status,
            on_delete: OnDelete::Unregistered,
        });
        i
    }

    /// The status of the record at `id`, or `None` when no such record
    /// exists.
    pub fn status(&self, id: usize) -> (r: Option<LifecycleStatus>)
        ensures
            r == if id < self.recs@.len() {
                Some(self.recs@[id as int].status)
            } else {
                Option::<LifecycleStatus>::None
            },
    {
        if id < self.recs.len() {
            Some(self.recs[id].status)
        } else {
            None
        }
    }

    /// Overwrites the status of the record at `id`; does nothing when no
    /// such record exists.
    pub fn set_status(&mut self, id: usize, status: LifecycleStatus)
        ensures
            final(self).recs@ =~= if id < old(self).recs@.len() {
                old(self).recs@.update(
                    id as int,
                    ActivityRecord { status, ..old(self).recs@[id as int] },
                )
            } else {
                old(self).recs@
            },
    {
        if id < self.recs.len() {
            let rec = &mut self.recs[id];
            rec.status = status;
        }
    }

    /// Overwrites the deletion hook of the record at `id`; does nothing when
    /// no such record exists.
    pub fn add_on_delete(&mut self, id: usize, hook: OnDelete)
        ensures
            final(self).recs@ =~= if id < old(self).recs@.len() {
                old(self).recs@.update(
                    id as int,
                    ActivityRecord { on_delete: hook, ..old(self).recs@[id as int] },
                )
            } else {
                old(self).recs@
            },
    {
        if id < self.recs.len() {
            let rec = &mut self.recs[id];
            rec.on_delete = hook;
        }
    }

    /// Removes the data and the hook of the record at `id`, leaving a
    /// tombstone, and returns what was removed. Removing a tombstone (or an
    /// index without record) yields nothing and changes nothing.
    pub fn remove(&mut self, id: usize) -> (r: Option<(A, OnDelete)>)
        ensures
            if id < old(self).recs@.len() && old(self).recs@[id as int].data is Some {
                r == Some(
                    (old(self).recs@[id as int].data->Some_0, old(self).recs@[id as int].on_delete),
                ) && final(self).recs@ =~= old(self).recs@.update(
                    id as int,
                    ActivityRecord {
                        data: None,
                        on_delete: OnDelete::Unregistered,
                        ..old(self).recs@[id as int]
                    },
                )
            } else {
                r is None && final(self).recs@ =~= old(self).recs@
            },
    {
        if id < self.recs.len() {
            let rec = &mut self.recs[id];
            let data = rec.data.take();
            match data {
                Some(a) => {
                    let hook = rec.on_delete;
                    rec.on_delete = OnDelete::Unregistered;
                    Some((a, hook))
                },
                None => None,
            }
        } else {
            None
        }
    }

    /// Moves the data of the record at `id` out, so a handler can work on it
    /// with exclusive access; put it back with [`ActivityContainer::put_data`].
    pub fn take_data(&mut self, id: usize) -> (r: Option<A>)
        ensures
            if id < old(self).recs@.len() {
                r == old(self).recs@[id as int].data && final(self).recs@ =~= old(
                    self,
                ).recs@.update(
                    id as int,
                    ActivityRecord { data: None, ..old(self).recs@[id as int] },
                )
            } else {
                r is None && final(self).recs@ =~= old(self).recs@
            },
    {
        if id < self.recs.len() {
            let rec = &mut self.recs[id];
            rec.data.take()
        } else {
            None
        }
    }

    /// Returns data taken with [`ActivityContainer::take_data`]. When no
    /// record exists at `id` the data is dropped.
    pub fn put_data(&mut self, id: usize, a: A)
        ensures
            final(self).recs@ =~= if id < old(self).recs@.len() {
                old(self).recs@.update(
                    id as int,
                    ActivityRecord { data: Some(a), ..old(self).recs@[id as int] },
                )
            } else {
                old(self).recs@
            },
    {
        if id < self.recs.len() {
            let rec = &mut self.recs[id];
            rec.data = Some(a);
        }
    }

    /// Borrows the data of the record at `id`, if the record exists and
    /// still holds data.
    pub fn data_ref(&self, id: usize) -> (r: Option<&A>)
        ensures
            match r {
                Some(a) => id < self.recs@.len() && self.recs@[id as int].data == Some(*a),
                None => id >= self.recs@.len() || self.recs@[id as int].data is None,
            },
    {
        if id < self.recs.len() {
            self.recs[id].data.as_ref()
        } else {
            None
        }
    }

    /// Moves all records of `other` to the end of this container, in order.
    pub fn append(&mut self, other: &mut ActivityContainer<A>)
        ensures
            final(self).recs@ =~= old(self).recs@ + old(other).recs@,
            final(other).recs@ =~= Seq::<ActivityRecord<A>>::empty(),
    {
        self.recs.append(&mut other.recs);
    }

    /// The first live record registered with type key `key`, if any.
    pub fn id_lookup(&self, key: u64) -> (r: Option<usize>)
        ensures
            match r {
                Some(i) => find_by_key(self.recs@, key) == Some(i as int),
                None => find_by_key(self.recs@, key) is None,
            },
    {
        let mut i: usize = 0;
        proof {
            assert(self.recs@.skip(0) =~= self.recs@);
        }
        while i < self.recs.len()
            invariant
                i <= self.recs@.len(),
                find_by_key(self.recs@, key) == match find_by_key(
                    self.recs@.skip(i as int),
                    key,
                ) {
                    Some(j) => Some(j + i),
                    None => None,
                },
            decreases self.recs@.len() - i,
        {
            proof {
                assert(self.recs@.skip(i as int)[0] == self.recs@[i as int]);
                assert(self.recs@.skip(i as int).skip(1) =~= self.recs@.skip(i as int + 1));
            }
            let rec = &self.recs[i];
            if rec.data.is_some() && rec.type_key == key {
                return Some(i);
            }
            i += 1;
        }
        proof {
            assert(self.recs@.skip(i as int) =~= Seq::<ActivityRecord<A>>::empty());
        }
        None
    }
}

/// Buffers activities created while the dispatcher is executing.
///
/// The registry is busy during dispatch, so new activities are appended here
/// and merged into the registry by a deferred flush event. Handles handed
/// out for buffered records are pre-offset by the registry length, so they
/// are valid before the merge happens.
pub struct InchoateActivityContainer<A> {
    /// The buffered records, in creation order.
    pub activities: ActivityContainer<A>,
    /// Index the first buffered record will get after the merge. Kept equal
    /// to the registry's length.
    pub offset: usize,
}

impl<A> InchoateActivityContainer<A> {
    /// An empty buffer whose next merged record would get index `offset`.
    pub fn new(offset: usize) -> (r: InchoateActivityContainer<A>)
        ensures
            r.activities.recs@ =~= Seq::<ActivityRecord<A>>::empty(),
            r.offset == offset,
    {
        InchoateActivityContainer { activities: ActivityContainer::empty(), offset }
    }

    /// Number of buffered records.
    pub fn len(&self) -> (r: usize)
        ensures
            r == self.activities.recs@.len(),
    {
        self.activities.len()
    }

    /// Merges all buffered records into `registry` and moves the offset past
    /// them.
    pub fn flush(&mut self, registry: &mut ActivityContainer<A>)
        ensures
            final(registry).recs@ =~= old(registry).recs@ + old(self).activities.recs@,
            final(self).activities.recs@ =~= Seq::<ActivityRecord<A>>::empty(),
            final(self).offset == final(registry).recs@.len(),
    {
        registry.append(&mut self.activities);
        self.offset = registry.len();
    }
}

} // verus!
