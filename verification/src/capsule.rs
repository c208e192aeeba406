//! Encapsulated handlers that run outside any broadcast.

use vstd::prelude::*;
use crate::activity::ActivityId;
use crate::dispatch::{statuses_of, Dispatcher};
use crate::filter::SubscriptionFilter;
use crate::subscription::{sub_passes, Invocation, Subscription};
use crate::topic::Topic;

verus! {

/// The errors of [`Capsule::execute`].
#[derive(Clone, Copy, PartialEq, Eq, Structural, Debug)]
pub enum ExecError {
    /// The dispatcher is draining its queue; the capsule cannot borrow the
    /// registry now.
    NutsAlreadyActive,
}

/// An independent handler bound to one activity (and its domain), runnable
/// on demand while the dispatcher is quiescent.
#[derive(Clone, Copy, PartialEq, Eq, Structural, Debug)]
pub struct Capsule {
    /// The activity the handler works on.
    pub activity: ActivityId,
    /// Caller-chosen identifier of the handler to run.
    pub handler: usize,
    /// Whether the handler also takes the activity's domain.
    pub domained: bool,
}

impl ActivityId {
    /// Encapsulates a handler for this activity.
    pub fn encapsulate(&self, handler: usize) -> (r: Capsule)
        ensures
            r == (Capsule { activity: *self, handler, domained: false }),
    {
        Capsule { activity: *self, handler, domained: false }
    }

    /// Encapsulates a handler that also takes the activity's domain.
    pub fn encapsulate_domained(&self, handler: usize) -> (r: Capsule)
        ensures
            r == (Capsule { activity: *self, handler, domained: true }),
    {
        Capsule { activity: *self, handler, domained: true }
    }
}

impl Capsule {
    /// The subscription-shaped record against which the capsule's filter is
    /// checked: like every default registration it only runs while the
    /// activity is active.
    pub open spec fn as_subscription(&self) -> Subscription {
        Subscription {
            topic: Topic::Enter,
            activity: self.activity.id.index,
            handler: self.handler,
            domain: self.activity.domain_index,
            filter: SubscriptionFilter { active_only: true },
        }
    }

    /// Resolves the capsule into the invocation the caller should perform.
    ///
    /// This only works while the dispatcher is not draining its queue;
    /// otherwise the registry is considered busy and an error comes back.
    /// When the activity is not active, the filter suppresses the call and
    /// nothing is to be done.
    pub fn execute<A, M>(&self, d: &Dispatcher<A, M>) -> (r: Result<Option<Invocation>, ExecError>)
        ensures
            r == if d@.executing {
                Result::<Option<Invocation>, ExecError>::Err(ExecError::NutsAlreadyActive)
            } else if sub_passes(self.as_subscription(), statuses_of(d@.recs)) {
                Result::<Option<Invocation>, ExecError>::Ok(
                    Some(
                        Invocation {
                            activity: self.activity.id.index,
                            handler: self.handler,
                            domain: if self.domained {
                                self.activity.domain_index
                            } else {
                                None
                            },
                        },
                    ),
                )
            } else {
                Result::<Option<Invocation>, ExecError>::Ok(None)
            },
    {
        if !self.quiescent_check(d) {
            return Err(ExecError::NutsAlreadyActive);
        }
        let active = match d.status(self.activity.id.index) {
            Some(st) => st.is_active(),
            None => false,
        };
        if active {
            Ok(
                Some(
                    Invocation {
                        activity: self.activity.id.index,
                        handler: self.handler,
                        domain: if self.domained {
                            self.activity.domain_index
                        } else {
                            None
                        },
                    },
                ),
            )
        } else {
            Ok(None)
        }
    }

    /// Whether the dispatcher can run a capsule right now.
    fn quiescent_check<A, M>(&self, d: &Dispatcher<A, M>) -> (r: bool)
        ensures
            r == !d@.executing,
    {
        d.quiescent()
    }
}

} // verus!
