//! Tracking of broadcasts whose completion a caller wants to observe.

use vstd::prelude::*;

verus! {

/// The state of one response slot.
#[derive(Clone, Copy, PartialEq, Eq, Structural, Debug)]
pub enum SlotState {
    /// The slot is free and can be handed out again.
    Available,
    /// The slot belongs to a broadcast that has not been dispatched yet.
    Occupied,
    /// The slot's broadcast has been dispatched; the response is ready.
    Done,
}

/// The smallest index of an available slot.
pub open spec fn first_available(slots: Seq<SlotState>) -> Option<int>
    decreases slots.len(),
{
    if slots.len() == 0 {
        None
    } else if slots[0] is Available {
        Some(0)
    } else {
        match first_available(slots.skip(1)) {
            Some(i) => Some(i + 1),
            None => None,
        }
    }
}

/// A small free-list-backed tracker for pending responses: each awaited
/// broadcast occupies one slot until its response has been observed.
pub struct ResponseTracker {
    /// The slots, reused in order of availability.
    pub slots: Vec<SlotState>,
}

impl ResponseTracker {
    /// A tracker without slots.
    pub fn new() -> (r: ResponseTracker)
        ensures
            r.slots@ =~= Seq::<SlotState>::empty(),
    {
        ResponseTracker { slots: Vec::new() }
    }

    /// Occupies and returns the first available slot, growing the slot list
    /// when none is free.
    pub fn allocate(&mut self) -> (r: usize)
        ensures
            match first_available(old(self).slots@) {
                Some(i) => r == i && final(self).slots@ =~= old(self).slots@.update(
                    i,
                    SlotState::Occupied,
                ),
                None => r == old(self).slots@.len() && final(self).slots@ =~= old(
                    self,
                ).slots@.push(SlotState::Occupied),
            },
            r < final(self).slots@.len(),
            final(self).slots@[r as int] is Occupied,
    {
        let ghost slots = self.slots@;
        let mut i: usize = 0;
        proof {
            assert(slots.skip(0) =~= slots);
        }
        while i < self.slots.len()
            invariant
                slots == self.slots@,
                slots == old(self).slots@,
                i <= slots.len(),
                first_available(slots) == match first_available(slots.skip(i as int)) {
                    Some(j) => Some(j + i),
                    None => None,
                },
            decreases slots.len() - i,
        {
            proof {
                assert(slots.skip(i as int)[0] == slots[i as int]);
                assert(slots.skip(i as int).skip(1) =~= slots.skip(i as int + 1));
            }
            let is_available = match self.slots[i] {
                SlotState::Available => true,
                _ => false,
            };
            if is_available {
                proof {
                    assert(first_available(slots.skip(i as int)) == Some(0int));
                    assert(first_available(slots) == Some(i as int));
                }
                self.slots[i] = SlotState::Occupied;
                return i;
            }
            i += 1;
        }
        proof {
            assert(slots.skip(i as int) =~= Seq::<SlotState>::empty());
        }
        let n = self.slots.len();
        self.slots.push(SlotState::Occupied);
        n
    }

    /// Marks a slot's broadcast as dispatched. Does nothing for an index
    /// that names no slot.
    pub fn done(&mut self, slot: usize)
        ensures
            final(self).slots@ =~= if slot < old(self).slots@.len() {
                old(self).slots@.update(slot as int, SlotState::Done)
            } else {
                old(self).slots@
            },
    {
        if slot < self.slots.len() {
            self.slots[slot] = SlotState::Done;
        }
    }

    /// Frees a slot for reuse. Does nothing for an index that names no slot.
    pub fn free(&mut self, slot: usize)
        ensures
            final(self).slots@ =~= if slot < old(self).slots@.len() {
                old(self).slots@.update(slot as int, SlotState::Available)
            } else {
                old(self).slots@
            },
    {
        if slot < self.slots.len() {
            self.slots[slot] = SlotState::Available;
        }
    }

    /// The state of a slot, or `None` for an index that names no slot.
    pub fn state(&self, slot: usize) -> (r: Option<SlotState>)
        ensures
            r == if slot < self.slots@.len() {
                Some(self.slots@[slot as int])
            } else {
                Option::<SlotState>::None
            },
    {
        if slot < self.slots.len() {
            Some(self.slots[slot])
        } else {
            None
        }
    }
}

/// A pending response for an awaited broadcast. Poll it against the
/// dispatcher's tracker; it resolves once the broadcast has been dispatched
/// and every effect the broadcast queued before it has been applied.
#[derive(Clone, Copy, PartialEq, Eq, Structural, Debug)]
pub struct NutsResponse {
    /// The slot allocated for this response.
    pub index: usize,
}

impl NutsResponse {
    /// Checks whether the awaited broadcast has been dispatched. Returns
    /// true exactly once: the slot is freed on the observation.
    pub fn poll(&self, tracker: &mut ResponseTracker) -> (r: bool)
        ensures
            r == (self.index < old(tracker).slots@.len() && old(tracker).slots@[self.index as int]
                is Done),
            final(tracker).slots@ =~= if r {
                old(tracker).slots@.update(self.index as int, SlotState::Available)
            } else {
                old(tracker).slots@
            },
    {
        let state = tracker.state(self.index);
        match state {
            Some(SlotState::Done) => {
                tracker.free(self.index);
                true
            },
            _ => false,
        }
    }
}

} // verus!
