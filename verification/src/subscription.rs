//! The subscription table: handler registrations per topic and activity.

use vstd::prelude::*;
use crate::topic::Topic;
use crate::filter::SubscriptionFilter;
use crate::lifecycle::LifecycleStatus;

verus! {

/// One registered handler: the topic it listens to, the activity it belongs
/// to, the caller-chosen handler identifier, the domain the activity was
/// registered with, and the delivery filter.
#[derive(Clone, Copy, PartialEq, Eq, Structural, Debug)]
pub struct Subscription {
    /// The topic the handler listens to.
    pub topic: Topic,
    /// Index of the subscribing activity.
    pub activity: usize,
    /// Caller-chosen identifier of the handler to run on delivery.
    pub handler: usize,
    /// The domain the subscribing activity was registered with, if any.
    pub domain: Option<usize>,
    /// Under which circumstances the handler is invoked.
    pub filter: SubscriptionFilter,
}

/// One handler invocation that the caller is asked to perform: which handler
/// to run, for which activity, with which domain.
#[derive(Clone, Copy, PartialEq, Eq, Structural, Debug)]
pub struct Invocation {
    /// Index of the activity whose handler runs.
    pub activity: usize,
    /// Caller-chosen identifier of the handler to run.
    pub handler: usize,
    /// The domain to hand to the handler, if it was registered with one.
    pub domain: Option<usize>,
}

/// The invocation a subscription gives rise to.
pub open spec fn invocation_of(s: Subscription) -> Invocation {
    Invocation { activity: s.activity, handler: s.handler, domain: s.domain }
}

/// Whether a subscription passes its own filter given the current statuses:
/// either it has no filter, or its activity exists and is active.
pub open spec fn sub_passes(s: Subscription, statuses: Seq<LifecycleStatus>) -> bool {
    !s.filter.active_only || (s.activity < statuses.len()
        && statuses[s.activity as int].spec_is_active())
}

/// Whether a shared subscription is addressed: it listens to `topic`, and
/// either the broadcast is global (`target` is `None`) or it belongs to the
/// targeted activity.
pub open spec fn sub_matches(s: Subscription, topic: Topic, target: Option<usize>) -> bool {
    s.topic == topic && match target {
        Some(a) => s.activity == a,
        None => true,
    }
}

/// The invocations a broadcast produces: one per addressed shared
/// subscription that passes its filter, in registration order.
pub open spec fn shared_calls(
    subs: Seq<Subscription>,
    topic: Topic,
    target: Option<usize>,
    statuses: Seq<LifecycleStatus>,
) -> Seq<Invocation>
    decreases subs.len(),
{
    if subs.len() == 0 {
        Seq::empty()
    } else {
        let rest = shared_calls(subs.drop_last(), topic, target, statuses);
        if sub_matches(subs.last(), topic, target) && sub_passes(subs.last(), statuses) {
            rest.push(invocation_of(subs.last()))
        } else {
            rest
        }
    }
}

/// The first private subscription registered for `(topic, activity)`. The
/// table keeps at most one, so this is the only one.
pub open spec fn private_lookup(
    privs: Seq<Subscription>,
    topic: Topic,
    activity: usize,
) -> Option<Subscription>
    decreases privs.len(),
{
    if privs.len() == 0 {
        None
    } else if privs[0].topic == topic && privs[0].activity == activity {
        Some(privs[0])
    } else {
        private_lookup(privs.skip(1), topic, activity)
    }
}

/// The private list after registering `s`: an in-place replacement when a
/// subscription for the same topic and activity exists, otherwise an
/// appended entry. Re-registering a private channel silently replaces the
/// previous handler.
pub open spec fn private_replace(privs: Seq<Subscription>, s: Subscription) -> Seq<Subscription>
    decreases privs.len(),
{
    if privs.len() == 0 {
        seq![s]
    } else if privs[0].topic == s.topic && privs[0].activity == s.activity {
        seq![s] + privs.skip(1)
    } else {
        seq![privs[0]] + private_replace(privs.skip(1), s)
    }
}

/// All registrations for topics that can have many receivers, in
/// registration order, plus the private channels, at most one per topic and
/// activity.
pub struct SubscriptionContainer {
    /// Shared subscriptions (public messages and lifecycle events), in
    /// registration order.
    pub shared: Vec<Subscription>,
    /// Private channels; holds at most one entry per `(topic, activity)`.
    pub private: Vec<Subscription>,
}

impl SubscriptionContainer {
    /// At most one private channel per topic and activity.
    pub open spec fn wf(&self) -> bool {
        forall|i: int, j: int|
            0 <= i < j < self.private@.len() ==> !((#[trigger] self.private@[i]).topic == (
            #[trigger] self.private@[j]).topic && self.private@[i].activity
                == self.private@[j].activity)
    }

    /// An empty table.
    pub fn new() -> (r: SubscriptionContainer)
        ensures
            r.shared@ =~= Seq::<Subscription>::empty(),
            r.private@ =~= Seq::<Subscription>::empty(),
            r.wf(),
    {
        SubscriptionContainer { shared: Vec::new(), private: Vec::new() }
    }

    /// Position of the private channel for `(topic, activity)`, if any.
    fn private_position(&self, topic: Topic, activity: usize) -> (r: Option<usize>)
        ensures
            match r {
                Some(i) => i < self.private@.len() && self.private@[i as int].topic == topic
                    && self.private@[i as int].activity == activity && private_lookup(
                    self.private@,
                    topic,
                    activity,
                ) == Some(self.private@[i as int]) && (forall|j: int|
                    0 <= j < i ==> !((#[trigger] self.private@[j]).topic == topic
                        && self.private@[j].activity == activity)),
                None => private_lookup(self.private@, topic, activity) is None,
            },
    {
        let ghost privs = self.private@;
        let mut i: usize = 0;
        proof {
            assert(privs.skip(0) =~= privs);
        }
        while i < self.private.len()
            invariant
                privs == self.private@,
                i <= privs.len(),
                forall|j: int|
                    0 <= j < i ==> !((#[trigger] privs[j]).topic == topic && privs[j].activity
                        == activity),
                private_lookup(privs, topic, activity) == private_lookup(
                    privs.skip(i as int),
                    topic,
                    activity,
                ),
            decreases privs.len() - i,
        {
            proof {
                assert(privs.skip(i as int)[0] == privs[i as int]);
                assert(privs.skip(i as int).skip(1) =~= privs.skip(i as int + 1));
            }
            let s = &self.private[i];
            if s.topic == topic && s.activity == activity {
                return Some(i);
            }
            i += 1;
        }
        proof {
            assert(privs.skip(i as int) =~= Seq::<Subscription>::empty());
        }
        None
    }

    /// Registers a subscription: appended for shared topics, replacing any
    /// previous private channel of the same activity for private topics.
    pub fn force_push(&mut self, s: Subscription)
        ensures
            s.topic.spec_unique_per_activity() ==> {
                &&& final(self).private@ =~= private_replace(old(self).private@, s)
                &&& final(self).shared@ == old(self).shared@
            },
            !s.topic.spec_unique_per_activity() ==> {
                &&& final(self).shared@ =~= old(self).shared@.push(s)
                &&& final(self).private@ == old(self).private@
            },
            old(self).wf() ==> final(self).wf(),
    {
        if s.topic.unique_per_activity() {
            let pos = self.private_position(s.topic, s.activity);
            match pos {
                Some(i) => {
                    proof {
                        lemma_private_replace_at(old(self).private@, s, i as int);
                        if old(self).wf() {
                            lemma_private_unique_position(old(self).private@, s, i as int);
                        }
                    }
                    self.private[i] = s;
                },
                None => {
                    proof {
                        lemma_private_replace_absent(old(self).private@, s);
                        if old(self).wf() {
                            lemma_private_absent_keys(old(self).private@, s.topic, s.activity);
                        }
                    }
                    self.private.push(s);
                },
            }
        } else {
            self.shared.push(s);
        }
    }

    /// All shared handlers for a topic, across all activities, in
    /// registration order, without applying filters.
    pub fn shared_subscriptions(&self, topic: Topic) -> (r: Vec<Subscription>)
        ensures
            r@ =~= self.shared@.filter(|s: Subscription| s.topic == topic),
    {
        let mut r: Vec<Subscription> = Vec::new();
        let mut i: usize = 0;
        proof {
            assert(self.shared@.take(0) =~= Seq::<Subscription>::empty());
            assert(Seq::<Subscription>::empty().filter(|s: Subscription| s.topic == topic)
                =~= Seq::<Subscription>::empty());
        }
        while i < self.shared.len()
            invariant
                i <= self.shared@.len(),
                r@ =~= self.shared@.take(i as int).filter(|s: Subscription| s.topic == topic),
            decreases self.shared@.len() - i,
        {
            proof {
                assert(self.shared@.take(i as int + 1).drop_last() =~= self.shared@.take(i as int));
                reveal_with_fuel(Seq::filter, 2);
            }
            let s = self.shared[i];
            if s.topic == topic {
                r.push(s);
            }
            i += 1;
        }
        proof {
            assert(self.shared@.take(i as int) =~= self.shared@);
        }
        r
    }

    /// All shared handlers one activity registered for a topic, in
    /// registration order, without applying filters.
    pub fn shared_subscriptions_of_single_activity(&self, topic: Topic, activity: usize) -> (r:
        Vec<Subscription>)
        ensures
            r@ =~= self.shared@.filter(
                |s: Subscription| s.topic == topic && s.activity == activity,
            ),
    {
        let mut r: Vec<Subscription> = Vec::new();
        let mut i: usize = 0;
        proof {
            assert(self.shared@.take(0) =~= Seq::<Subscription>::empty());
            assert(Seq::<Subscription>::empty().filter(
                |s: Subscription| s.topic == topic && s.activity == activity,
            ) =~= Seq::<Subscription>::empty());
        }
        while i < self.shared.len()
            invariant
                i <= self.shared@.len(),
                r@ =~= self.shared@.take(i as int).filter(
                    |s: Subscription| s.topic == topic && s.activity == activity,
                ),
            decreases self.shared@.len() - i,
        {
            proof {
                assert(self.shared@.take(i as int + 1).drop_last() =~= self.shared@.take(i as int));
                reveal_with_fuel(Seq::filter, 2);
            }
            let s = self.shared[i];
            if s.topic == topic && s.activity == activity {
                r.push(s);
            }
            i += 1;
        }
        proof {
            assert(self.shared@.take(i as int) =~= self.shared@);
        }
        r
    }

    /// The single private handler an activity holds for a topic, if any.
    pub fn private_subscription(&self, topic: Topic, activity: usize) -> (r: Option<Subscription>)
        ensures
            r == private_lookup(self.private@, topic, activity),
    {
        let pos = self.private_position(topic, activity);
        match pos {
            Some(i) => Some(self.private[i]),
            None => None,
        }
    }
}

/// When the private channel sits at position `i` and nowhere earlier,
/// registering again is exactly an update of position `i`.
proof fn lemma_private_replace_at(privs: Seq<Subscription>, s: Subscription, i: int)
    requires
        0 <= i < privs.len(),
        privs[i].topic == s.topic,
        privs[i].activity == s.activity,
        forall|j: int|
            0 <= j < i ==> !((#[trigger] privs[j]).topic == s.topic && privs[j].activity
                == s.activity),
    ensures
        private_replace(privs, s) =~= privs.update(i, s),
    decreases i,
{
    if i == 0 {
    } else {
        lemma_private_replace_at(privs.skip(1), s, i - 1);
        assert(private_replace(privs, s) =~= seq![privs[0]] + private_replace(privs.skip(1), s));
        assert(privs.skip(1).update(i - 1, s) =~= privs.update(i, s).skip(1));
    }
}

/// When no private channel exists for the topic and activity of `s`,
/// registering appends one entry.
proof fn lemma_private_replace_absent(privs: Seq<Subscription>, s: Subscription)
    requires
        private_lookup(privs, s.topic, s.activity) is None,
    ensures
        private_replace(privs, s) =~= privs.push(s),
    decreases privs.len(),
{
    if privs.len() == 0 {
    } else {
        lemma_private_replace_absent(privs.skip(1), s);
        assert(seq![privs[0]] + privs.skip(1).push(s) =~= privs.push(s));
    }
}

/// With at most one channel per topic and activity, a channel found at
/// position `i` occurs nowhere else.
proof fn lemma_private_unique_position(privs: Seq<Subscription>, s: Subscription, i: int)
    requires
        0 <= i < privs.len(),
        privs[i].topic == s.topic,
        privs[i].activity == s.activity,
        forall|p: int, q: int|
            0 <= p < q < privs.len() ==> !((#[trigger] privs[p]).topic == (
            #[trigger] privs[q]).topic && privs[p].activity == privs[q].activity),
    ensures
        forall|j: int|
            0 <= j < privs.len() && j != i ==> !((#[trigger] privs[j]).topic == s.topic
                && privs[j].activity == s.activity),
{
}

/// A topic and activity that lookup does not find occurs under no entry.
proof fn lemma_private_absent_keys(privs: Seq<Subscription>, topic: Topic, activity: usize)
    requires
        private_lookup(privs, topic, activity) is None,
    ensures
        forall|j: int|
            0 <= j < privs.len() ==> !((#[trigger] privs[j]).topic == topic && privs[j].activity
                == activity),
    decreases privs.len(),
{
    if privs.len() == 0 {
    } else {
        lemma_private_absent_keys(privs.skip(1), topic, activity);
        assert(forall|j: int| 1 <= j < privs.len() ==> privs.skip(1)[j - 1] == #[trigger] privs[j]);
    }
}

/// Registering a private channel makes it the one that lookup finds: the
/// second of two registrations for the same topic and activity wins.
pub proof fn lemma_private_replace_lookup(privs: Seq<Subscription>, s: Subscription)
    ensures
        private_lookup(private_replace(privs, s), s.topic, s.activity) == Some(s),
    decreases privs.len(),
{
    let replaced = private_replace(privs, s);
    if privs.len() == 0 {
    } else if privs[0].topic == s.topic && privs[0].activity == s.activity {
    } else {
        lemma_private_replace_lookup(privs.skip(1), s);
        assert(replaced[0] == privs[0]);
        assert(replaced.skip(1) =~= private_replace(privs.skip(1), s));
    }
}

/// Registering a private channel leaves every other channel as it was.
pub proof fn lemma_private_replace_frame(
    privs: Seq<Subscription>,
    s: Subscription,
    topic: Topic,
    activity: usize,
)
    requires
        !(topic == s.topic && activity == s.activity),
    ensures
        private_lookup(private_replace(privs, s), topic, activity) == private_lookup(
            privs,
            topic,
            activity,
        ),
    decreases privs.len(),
{
    let replaced = private_replace(privs, s);
    if privs.len() == 0 {
    } else if privs[0].topic == s.topic && privs[0].activity == s.activity {
        assert(replaced.skip(1) =~= privs.skip(1));
    } else {
        lemma_private_replace_frame(privs.skip(1), s, topic, activity);
        assert(replaced[0] == privs[0]);
        assert(replaced.skip(1) =~= private_replace(privs.skip(1), s));
        if privs[0].topic == topic && privs[0].activity == activity {
            assert(private_lookup(replaced, topic, activity) == Some(replaced[0]));
        } else {
            assert(private_lookup(replaced, topic, activity) == private_lookup(
                replaced.skip(1),
                topic,
                activity,
            ));
        }
    }
}

} // verus!
