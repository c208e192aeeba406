//! The lifecycle status of activities and its transition rules.

use vstd::prelude::*;
use crate::topic::Topic;

verus! {

/// Each activity has a lifecycle status.  It starts as
/// [`LifecycleStatus::Active`]; the inactive status can be used to put
/// activities to sleep temporarily, and the deleted status is terminal.
#[derive(Clone, Copy, PartialEq, Eq, Structural, Debug, Hash)]
pub enum LifecycleStatus {
    /// The normal status. Every activity starts with this status.
    Active,
    /// Inactive / sleeping. Subscriptions that filter for active activities
    /// are not delivered while this status holds.
    Inactive,
    /// Marked for deletion: the activity's data will be removed and its
    /// deletion hook called. This status is terminal.
    Deleted,
}

impl LifecycleStatus {
    /// Whether the status counts as active.
    pub open spec fn spec_is_active(&self) -> bool {
        self is Active
    }

    /// Returns true iff the status is one that is considered to be active.
    #[verifier::when_used_as_spec(spec_is_active)]
    pub fn is_active(&self) -> (r: bool)
        ensures
            r == self.spec_is_active(),
    {
        match self {
            LifecycleStatus::Active => true,
            LifecycleStatus::Inactive => false,
            LifecycleStatus::Deleted => false,
        }
    }
}

/// A queued request to change one activity's status.
#[derive(Clone, Copy, PartialEq, Eq, Structural, Debug)]
pub struct LifecycleChange {
    /// Index of the activity whose status is to change.
    pub activity: usize,
    /// The requested new status.
    pub status: LifecycleStatus,
}

/// The lifecycle notification fired by a transition from `before` to
/// `after`: an enter event when the activity becomes active, a leave event
/// when it stops being active, and nothing otherwise.
pub open spec fn boundary_event(before: LifecycleStatus, after: LifecycleStatus) -> Option<Topic> {
    if !before.spec_is_active() && after.spec_is_active() {
        Some(Topic::Enter)
    } else if before.spec_is_active() && !after.spec_is_active() {
        Some(Topic::Leave)
    } else {
        None
    }
}

} // verus!
