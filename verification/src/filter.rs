//! Filters that decide under which circumstances a subscription is invoked.

use vstd::prelude::*;

verus! {

/// Defines under which circumstances a subscribing activity should be called.
#[derive(Clone, Copy, PartialEq, Eq, Structural, Debug)]
pub struct SubscriptionFilter {
    /// Only call the subscribed handler when the activity is active.
    pub active_only: bool,
}

impl SubscriptionFilter {
    /// The default filter: only active activities receive messages.
    pub fn new() -> (r: SubscriptionFilter)
        ensures
            r == (SubscriptionFilter { active_only: true }),
    {
        SubscriptionFilter { active_only: true }
    }

    /// A filter that ensures the activity always receives a message, even
    /// when inactive or already marked for deletion.
    pub fn no_filter() -> (r: SubscriptionFilter)
        ensures
            r == (SubscriptionFilter { active_only: false }),
    {
        SubscriptionFilter { active_only: false }
    }
}

impl Default for SubscriptionFilter {
    /// The default filter only delivers to active activities.
    fn default() -> (r: Self)
        ensures
            r == (SubscriptionFilter { active_only: true }),
    {
        SubscriptionFilter { active_only: true }
    }
}

} // verus!
