//! Shared, type-keyed storage reachable by activities that joined a domain.

use vstd::prelude::*;

verus! {

/// Maps domain identifiers to unique integers.
///
/// Implement this for a small enum of domains; the returned integer indexes
/// the dispatcher's domain storage, which grows to fit the largest id in use.
pub trait DomainEnumeration {
    /// The unique integer for a specific domain.
    fn id(&self) -> usize;
}

/// If only one domain is required, this can be used. Do not mix it with
/// other [`DomainEnumeration`] types in the same dispatcher.
#[derive(Clone, Copy, PartialEq, Eq, Structural, Debug)]
pub struct DefaultDomain;

impl DomainEnumeration for DefaultDomain {
    fn id(&self) -> usize {
        0
    }
}

/// Stores passive data that can be accessed in event handlers of multiple
/// activities.
///
/// A domain holds at most one value per type key: storing under a key that
/// is already present overwrites the old value in place, so the entry list
/// never holds a key twice.
pub struct DomainState<M> {
    /// The stored values, each tagged with its type key, in first-store order.
    pub entries: Vec<(u64, M)>,
}

/// The first value stored under `key`, scanning `entries` front to back.
/// With unique keys this is the only one.
pub open spec fn domain_lookup<M>(entries: Seq<(u64, M)>, key: u64) -> Option<M>
    decreases entries.len(),
{
    if entries.len() == 0 {
        None
    } else if entries[0].0 == key {
        Some(entries[0].1)
    } else {
        domain_lookup(entries.skip(1), key)
    }
}

/// The entry list after storing `value` under `key`: an update in place if
/// the key is present, otherwise an appended entry.
pub open spec fn domain_store<M>(entries: Seq<(u64, M)>, key: u64, value: M) -> Seq<(u64, M)>
    decreases entries.len(),
{
    if entries.len() == 0 {
        seq![(key, value)]
    } else if entries[0].0 == key {
        seq![(key, value)] + entries.skip(1)
    } else {
        seq![entries[0]] + domain_store(entries.skip(1), key, value)
    }
}

impl<M> DomainState<M> {
    /// All keys are distinct.
    pub open spec fn wf(&self) -> bool {
        forall|i: int, j: int|
            0 <= i < j < self.entries@.len() ==> (#[trigger] self.entries@[i]).0 != (
            #[trigger] self.entries@[j]).0
    }

    /// An empty domain.
    pub fn new() -> (r: DomainState<M>)
        ensures
            r.entries@ =~= Seq::<(u64, M)>::empty(),
            r.wf(),
    {
        DomainState { entries: Vec::new() }
    }

    /// Position of `key` in the entry list, if present.
    fn position(&self, key: u64) -> (r: Option<usize>)
        ensures
            match r {
                Some(i) => i < self.entries@.len() && self.entries@[i as int].0 == key
                    && domain_lookup(self.entries@, key) == Some(self.entries@[i as int].1)
                    && (forall|j: int| 0 <= j < i ==> (#[trigger] self.entries@[j]).0 != key),
                None => domain_lookup(self.entries@, key) is None,
            },
    {
        let mut i: usize = 0;
        proof {
            assert(self.entries@.skip(0) =~= self.entries@);
        }
        while i < self.entries.len()
            invariant
                i <= self.entries@.len(),
                forall|j: int| 0 <= j < i ==> (#[trigger] self.entries@[j]).0 != key,
                domain_lookup(self.entries@, key) == domain_lookup(self.entries@.skip(i as int), key),
            decreases self.entries@.len() - i,
        {
            proof {
                lemma_domain_lookup_step(self.entries@, key, i as int);
            }
            if self.entries[i].0 == key {
                return Some(i);
            }
            i += 1;
        }
        proof {
            assert(self.entries@.skip(i as int) =~= Seq::<(u64, M)>::empty());
        }
        None
    }

    /// Whether a value is stored under `key`.
    pub fn contains_key(&self, key: u64) -> (r: bool)
        ensures
            r == (domain_lookup(self.entries@, key) is Some),
    {
        self.position(key).is_some()
    }

    /// Stores a value in the domain.
    ///
    /// Only one value per type key can be stored inside a domain. If an old
    /// value of the same key already exists in the domain, it is overwritten.
    pub fn store(&mut self, key: u64, value: M)
        ensures
            final(self).entries@ =~= domain_store(old(self).entries@, key, value),
            old(self).wf() ==> final(self).wf(),
    {
        proof {
            lemma_domain_store_len(old(self).entries@, key, value);
        }
        let pos = self.position(key);
        match pos {
            Some(i) => {
                proof {
                    lemma_domain_store_at(old(self).entries@, key, value, i as int);
                }
                self.entries[i] = (key, value);
                proof {
                    if old(self).wf() {
                        lemma_domain_unique_position(old(self).entries@, key, i as int);
                    }
                }
            },
            None => {
                proof {
                    lemma_domain_store_absent(old(self).entries@, key, value);
                }
                self.entries.push((key, value));
                proof {
                    if old(self).wf() {
                        lemma_domain_absent_keys(old(self).entries@, key);
                    }
                }
            },
        }
    }

    /// Returns a reference to the value stored under `key`, if any.
    pub fn try_get(&self, key: u64) -> (r: Option<&M>)
        ensures
            match r {
                Some(v) => domain_lookup(self.entries@, key) == Some(*v),
                None => domain_lookup(self.entries@, key) is None,
            },
    {
        match self.position(key) {
            Some(i) => Some(&self.entries[i].1),
            None => None,
        }
    }

    /// Returns a mutable reference to the value stored under `key`: the
    /// domain afterwards holds, under that key, whatever the caller leaves
    /// behind the reference.
    ///
    /// Callers must know the key is present; store under the key first when
    /// in doubt.
    pub fn get_mut(&mut self, key: u64) -> (r: &mut M)
        requires
            domain_lookup(old(self).entries@, key) is Some,
        ensures
            Some(*r) == domain_lookup(old(self).entries@, key),
            final(self).entries@ =~= domain_store(old(self).entries@, key, *final(r)),
    {
        let pos = self.position(key);
        let i = match pos {
            Some(i) => i,
            None => {
                proof {
                    assert(false);
                }
                0
            },
        };
        proof {
            lemma_domain_store_at_all(self.entries@, key, i as int);
        }
        let entry = &mut self.entries[i];
        &mut entry.1
    }

    /// Like [`DomainState::get_mut`], but yields nothing instead of
    /// demanding the key's presence.
    pub fn try_get_mut(&mut self, key: u64) -> (r: Option<&mut M>)
        ensures
            match r {
                Some(v) => domain_lookup(old(self).entries@, key) == Some(*v)
                    && final(self).entries@ =~= domain_store(old(self).entries@, key, *final(v)),
                None => domain_lookup(old(self).entries@, key) is None && final(self).entries@
                    == old(self).entries@,
            },
    {
        let pos = self.position(key);
        match pos {
            Some(i) => {
                proof {
                    lemma_domain_store_at_all(self.entries@, key, i as int);
                }
                let entry = &mut self.entries[i];
                Some(&mut entry.1)
            },
            None => None,
        }
    }

    /// Returns mutable references to the values stored under two distinct
    /// keys at once, each `None` when its key is absent. The domain
    /// afterwards holds, under each key, whatever the caller leaves behind
    /// the references.
    ///
    /// Asking twice for the same key is a programming error: two exclusive
    /// references to one value cannot exist.
    pub fn try_get_2_mut(&mut self, key1: u64, key2: u64) -> (r: (Option<&mut M>, Option<&mut M>))
        requires
            key1 != key2,
        ensures
            match (r.0, r.1) {
                (Some(v1), Some(v2)) => domain_lookup(old(self).entries@, key1) == Some(*v1)
                    && domain_lookup(old(self).entries@, key2) == Some(*v2)
                    && final(self).entries@ =~= domain_store(
                    domain_store(old(self).entries@, key1, *final(v1)),
                    key2,
                    *final(v2),
                ),
                (Some(v1), None) => domain_lookup(old(self).entries@, key1) == Some(*v1)
                    && domain_lookup(old(self).entries@, key2) is None && final(self).entries@
                    =~= domain_store(old(self).entries@, key1, *final(v1)),
                (None, Some(v2)) => domain_lookup(old(self).entries@, key1) is None
                    && domain_lookup(old(self).entries@, key2) == Some(*v2)
                    && final(self).entries@ =~= domain_store(old(self).entries@, key2, *final(v2)),
                (None, None) => domain_lookup(old(self).entries@, key1) is None && domain_lookup(
                    old(self).entries@,
                    key2,
                ) is None && final(self).entries@ == old(self).entries@,
            },
    {
        let pos1 = self.position(key1);
        let pos2 = self.position(key2);
        match (pos1, pos2) {
            (Some(i), Some(j)) => {
                proof {
                    lemma_domain_store_at_all(self.entries@, key1, i as int);
                    lemma_domain_store_at_all(self.entries@, key2, j as int);
                }
                let ghost pre = self.entries@;
                let (first, second) = if i < j {
                    let (a, b) = two_slots(self.entries.as_mut_slice(), i, j);
                    (a, b)
                } else {
                    let (a, b) = two_slots(self.entries.as_mut_slice(), j, i);
                    (b, a)
                };
                proof {
                    lemma_domain_store_two(pre, key1, i as int, key2, j as int);
                }
                (Some(&mut first.1), Some(&mut second.1))
            },
            (Some(i), None) => {
                proof {
                    lemma_domain_store_at_all(self.entries@, key1, i as int);
                }
                let entry = &mut self.entries[i];
                (Some(&mut entry.1), None)
            },
            (None, Some(j)) => {
                proof {
                    lemma_domain_store_at_all(self.entries@, key2, j as int);
                }
                let entry = &mut self.entries[j];
                (None, Some(&mut entry.1))
            },
            (None, None) => (None, None),
        }
    }

    /// Returns a reference to the value stored under `key`.
    ///
    /// Callers must know the key is present; use [`DomainState::try_get`]
    /// when absence is an expected condition.
    pub fn get(&self, key: u64) -> (r: &M)
        requires
            domain_lookup(self.entries@, key) is Some,
        ensures
            domain_lookup(self.entries@, key) == Some(*r),
    {
        let pos = self.position(key);
        match pos {
            Some(i) => &self.entries[i].1,
            None => {
                proof {
                    assert(false);
                }
                &self.entries[0].1
            },
        }
    }
}

/// Two exclusive references into one slice, at distinct positions `i < j`;
/// the slice afterwards holds, at those positions, whatever the caller
/// leaves behind the references.
fn two_slots<T>(s: &mut [T], i: usize, j: usize) -> (r: (&mut T, &mut T))
    requires
        i < j < old(s).len(),
    ensures
        *r.0 == old(s)@[i as int],
        *r.1 == old(s)@[j as int],
        final(s)@ =~= old(s)@.update(i as int, *final(r.0)).update(j as int, *final(r.1)),
{
    let (left, right) = s.split_at_mut(j);
    let second = right.first_mut().unwrap();
    let (front, mid) = left.split_at_mut(i);
    let first = mid.first_mut().unwrap();
    (first, second)
}

/// The shape of two stores under distinct keys sitting at known positions.
proof fn lemma_domain_store_two<M>(entries: Seq<(u64, M)>, key1: u64, i: int, key2: u64, j: int)
    requires
        key1 != key2,
        0 <= i < entries.len(),
        0 <= j < entries.len(),
        entries[i].0 == key1,
        entries[j].0 == key2,
        forall|p: int| 0 <= p < i ==> (#[trigger] entries[p]).0 != key1,
        forall|p: int| 0 <= p < j ==> (#[trigger] entries[p]).0 != key2,
    ensures
        forall|v1: M, v2: M|
            #[trigger] domain_store(domain_store(entries, key1, v1), key2, v2) =~= entries.update(
                i,
                (key1, v1),
            ).update(j, (key2, v2)),
{
    assert forall|v1: M, v2: M|
        #[trigger] domain_store(domain_store(entries, key1, v1), key2, v2) =~= entries.update(
            i,
            (key1, v1),
        ).update(j, (key2, v2)) by {
        lemma_domain_store_at(entries, key1, v1, i);
        let once = entries.update(i, (key1, v1));
        assert(once[j].0 == key2);
        assert(forall|p: int| 0 <= p < j ==> (#[trigger] once[p]).0 != key2);
        lemma_domain_store_at(once, key2, v2, j);
    }
}

/// Scanning for `key` beyond a prefix that does not hold it finds the same
/// entry.
proof fn lemma_domain_lookup_step<M>(entries: Seq<(u64, M)>, key: u64, i: int)
    requires
        0 <= i < entries.len(),
        forall|j: int| 0 <= j < i ==> (#[trigger] entries[j]).0 != key,
    ensures
        domain_lookup(entries.skip(i), key) == if entries[i].0 == key {
            Some(entries[i].1)
        } else {
            domain_lookup(entries.skip(i + 1), key)
        },
{
    assert(entries.skip(i)[0] == entries[i]);
    assert(entries.skip(i).skip(1) =~= entries.skip(i + 1));
}

/// Storing never changes the number of entries by more than one.
pub proof fn lemma_domain_store_len<M>(entries: Seq<(u64, M)>, key: u64, value: M)
    ensures
        domain_store(entries, key, value).len() == if domain_lookup(entries, key) is Some {
            entries.len()
        } else {
            entries.len() + 1
        },
    decreases entries.len(),
{
    if entries.len() == 0 {
    } else if entries[0].0 == key {
    } else {
        lemma_domain_store_len(entries.skip(1), key, value);
    }
}

/// When `key` sits at position `i` and nowhere earlier, storing under `key`
/// is exactly an update of position `i`.
proof fn lemma_domain_store_at<M>(entries: Seq<(u64, M)>, key: u64, value: M, i: int)
    requires
        0 <= i < entries.len(),
        entries[i].0 == key,
        forall|j: int| 0 <= j < i ==> (#[trigger] entries[j]).0 != key,
    ensures
        domain_store(entries, key, value) =~= entries.update(i, (key, value)),
    decreases i,
{
    if i == 0 {
        assert(domain_store(entries, key, value) =~= seq![(key, value)] + entries.skip(1));
    } else {
        lemma_domain_store_at(entries.skip(1), key, value, i - 1);
        assert(domain_store(entries, key, value) =~= seq![entries[0]] + domain_store(
            entries.skip(1),
            key,
            value,
        ));
        assert(entries.skip(1).update(i - 1, (key, value)) =~= entries.update(i, (key, value)).skip(
            1,
        ));
    }
}

/// The update-in-place shape of a store, for every stored value at once.
proof fn lemma_domain_store_at_all<M>(entries: Seq<(u64, M)>, key: u64, i: int)
    requires
        0 <= i < entries.len(),
        entries[i].0 == key,
        forall|j: int| 0 <= j < i ==> (#[trigger] entries[j]).0 != key,
    ensures
        forall|v: M| #[trigger] domain_store(entries, key, v) =~= entries.update(i, (key, v)),
{
    assert forall|v: M| #[trigger] domain_store(entries, key, v) =~= entries.update(
        i,
        (key, v),
    ) by {
        lemma_domain_store_at(entries, key, v, i);
    }
}

/// When `key` is absent, storing under `key` appends one entry.
proof fn lemma_domain_store_absent<M>(entries: Seq<(u64, M)>, key: u64, value: M)
    requires
        domain_lookup(entries, key) is None,
    ensures
        domain_store(entries, key, value) =~= entries.push((key, value)),
    decreases entries.len(),
{
    if entries.len() == 0 {
    } else {
        lemma_domain_store_absent(entries.skip(1), key, value);
        assert(seq![entries[0]] + entries.skip(1).push((key, value)) =~= entries.push(
            (key, value),
        ));
    }
}

/// With unique keys, a key found at position `i` occurs nowhere else.
proof fn lemma_domain_unique_position<M>(entries: Seq<(u64, M)>, key: u64, i: int)
    requires
        0 <= i < entries.len(),
        entries[i].0 == key,
        forall|p: int, q: int|
            0 <= p < q < entries.len() ==> (#[trigger] entries[p]).0 != (#[trigger] entries[q]).0,
    ensures
        forall|j: int| 0 <= j < entries.len() && j != i ==> (#[trigger] entries[j]).0 != key,
{
}

/// A key that lookup does not find occurs under no entry.
proof fn lemma_domain_absent_keys<M>(entries: Seq<(u64, M)>, key: u64)
    requires
        domain_lookup(entries, key) is None,
    ensures
        forall|j: int| 0 <= j < entries.len() ==> (#[trigger] entries[j]).0 != key,
    decreases entries.len(),
{
    if entries.len() == 0 {
    } else {
        lemma_domain_absent_keys(entries.skip(1), key);
        assert(forall|j: int|
            1 <= j < entries.len() ==> entries.skip(1)[j - 1] == #[trigger] entries[j]);
    }
}

/// Looking up the key just stored yields the stored value.
pub proof fn lemma_domain_store_get<M>(entries: Seq<(u64, M)>, key: u64, value: M)
    ensures
        domain_lookup(domain_store(entries, key, value), key) == Some(value),
    decreases entries.len(),
{
    let stored = domain_store(entries, key, value);
    if entries.len() == 0 {
    } else if entries[0].0 == key {
    } else {
        lemma_domain_store_get(entries.skip(1), key, value);
        assert(stored[0] == entries[0]);
        assert(stored.skip(1) =~= domain_store(entries.skip(1), key, value));
    }
}

/// Looking up any other key is unaffected by a store.
pub proof fn lemma_domain_store_frame<M>(entries: Seq<(u64, M)>, key: u64, value: M, other: u64)
    requires
        other != key,
    ensures
        domain_lookup(domain_store(entries, key, value), other) == domain_lookup(entries, other),
    decreases entries.len(),
{
    let stored = domain_store(entries, key, value);
    if entries.len() == 0 {
    } else if entries[0].0 == key {
        assert(stored.skip(1) =~= entries.skip(1));
    } else {
        lemma_domain_store_frame(entries.skip(1), key, value, other);
        assert(stored[0] == entries[0]);
        assert(stored.skip(1) =~= domain_store(entries.skip(1), key, value));
        if entries[0].0 == other {
            assert(domain_lookup(stored, other) == Some(stored[0].1));
        } else {
            assert(domain_lookup(stored, other) == domain_lookup(stored.skip(1), other));
        }
    }
}

} // verus!
