//! Routing keys for handler registrations.

use vstd::prelude::*;

verus! {

/// A topic for messages that can be published and subscribed to.
///
/// Message types are identified by caller-chosen integer type keys, so a
/// topic is either one of the built-in lifecycle events or a type key in one
/// of two classes: public messages allow many receivers, private messages are
/// delivered to exactly one activity.
#[derive(Clone, Copy, PartialEq, Eq, Structural, Debug, Hash)]
pub enum Topic {
    /// Fired when an activity changes from inactive to active.
    Enter,
    /// Fired when an activity changes from active to inactive or deleted.
    Leave,
    /// Topic for a message type key. Many receivers can coexist for each
    /// published message.
    PublicMessage(u64),
    /// Topic for a message type key. Only one receiver can exist per activity
    /// and each message is sent to exactly one activity.
    PrivateMessage(u64),
}

impl Topic {
    /// The built-in topic for activation events.
    pub fn enter() -> (t: Topic)
        ensures
            t == Topic::Enter,
    {
        Topic::Enter
    }

    /// The built-in topic for deactivation events.
    pub fn leave() -> (t: Topic)
        ensures
            t == Topic::Leave,
    {
        Topic::Leave
    }

    /// The shared topic for the message type identified by `key`.
    pub fn public_message(key: u64) -> (t: Topic)
        ensures
            t == Topic::PublicMessage(key),
    {
        Topic::PublicMessage(key)
    }

    /// The private topic for the message type identified by `key`.
    pub fn private_message(key: u64) -> (t: Topic)
        ensures
            t == Topic::PrivateMessage(key),
    {
        Topic::PrivateMessage(key)
    }

    /// Whether at most one subscription per activity may exist for this topic.
    pub open spec fn spec_unique_per_activity(&self) -> bool {
        self is PrivateMessage
    }

    /// Exec twin of [`Topic::spec_unique_per_activity`].
    #[verifier::when_used_as_spec(spec_unique_per_activity)]
    pub fn unique_per_activity(&self) -> (r: bool)
        ensures
            r == self.spec_unique_per_activity(),
    {
        match self {
            Topic::PrivateMessage(_) => true,
            _ => false,
        }
    }
}

} // verus!
