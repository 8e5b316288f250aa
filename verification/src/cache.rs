use vstd::prelude::*;
use vstd::pervasive::cloned;
use vstd::std_specs::cmp::PartialEqSpec;

use std::collections::hash_map::RandomState;
use std::hash::Hash;

use crate::duration::Duration;

verus! {

/// Whether `p` is a power of two.
pub open spec fn is_pow2(n: int) -> bool
    decreases n,
{
    if n <= 0 {
        false
    } else if n == 1 {
        true
    } else {
        n % 2 == 0 && is_pow2(n / 2)
    }
}

/// The smallest power of two that is at least `n`.
pub fn next_power_of_two(n: usize) -> (p: usize)
    requires
        1 <= n,
        n <= usize::MAX / 2 + 1,
    ensures
        is_pow2(p as int),
        n <= p,
        p == 1 || p / 2 < n,
{
    let mut p: usize = 1;
    while p < n
        invariant
            is_pow2(p as int),
            1 <= p,
            n <= usize::MAX / 2 + 1,
            p == 1 || p / 2 < n,
            p <= 2 * (n as int),
        decreases 2 * (n as int) - p,
    {
        p = p * 2;
    }
    p
}

/// Position of the first entry whose key equals `key` under the key type's
/// own equality, if there is one.
pub open spec fn first_match<K: PartialEq, V>(entries: Seq<(K, V)>, key: K) -> Option<int> {
    if exists|i: int| 0 <= i < entries.len() && entries[i].0.eq_spec(&key) {
        Some(
            choose|i: int|
                0 <= i < entries.len() && #[trigger] entries[i].0.eq_spec(&key) && forall|j: int|
                    0 <= j < i ==> !(#[trigger] entries[j].0.eq_spec(&key)),
        )
    } else {
        None
    }
}

/// The position `i` holds the first entry whose key equals `key`.
proof fn lemma_first_match_at<K: PartialEq, V>(e: Seq<(K, V)>, key: K, i: int)
    requires
        0 <= i < e.len(),
        e[i].0.eq_spec(&key),
        forall|j: int| 0 <= j < i ==> !(#[trigger] e[j].0.eq_spec(&key)),
    ensures
        first_match(e, key) == Some(i),
{
    assert(exists|m: int|
        0 <= m < e.len() && #[trigger] e[m].0.eq_spec(&key) && (forall|j: int|
            0 <= j < m ==> !(#[trigger] e[j].0.eq_spec(&key)))) by {
        assert(0 <= i < e.len() && e[i].0.eq_spec(&key) && (forall|j: int|
            0 <= j < i ==> !(#[trigger] e[j].0.eq_spec(&key))));
    }
    let w = first_match(e, key)->0;
    if w < i {
        assert(e[w].0.eq_spec(&key));
    }
    if w > i {
        assert(!e[i].0.eq_spec(&key));
    }
}

/// No entry's key equals `key`.
proof fn lemma_first_match_none<K: PartialEq, V>(e: Seq<(K, V)>, key: K)
    requires
        forall|j: int| 0 <= j < e.len() ==> !(#[trigger] e[j].0.eq_spec(&key)),
    ensures
        first_match(e, key) is None,
{
}

/// An in-process key/value cache with the configuration this crate's builder
/// validated: capacity bound, expirations, and the invalidation-support flag.
///
/// The store itself is kept deliberately simple — a sequence of key/value
/// pairs probed in order — since the subject of this crate is the eviction
/// bookkeeping ([`crate::deques::Deques`]) and the builder protocol, not the
/// hash index, which the engine treats as an external collaborator.
pub struct Cache<K, V, S> {
    max_capacity: Option<u64>,
    initial_capacity: Option<usize>,
    build_hasher: S,
    weighted: bool,
    time_to_live: Option<Duration>,
    time_to_idle: Option<Duration>,
    invalidator_enabled: bool,
    entries: Vec<(K, V)>,
}

impl<K, V, S> Cache<K, V, S> {
    pub closed spec fn max_capacity_spec(self) -> Option<u64> {
        self.max_capacity
    }

    pub closed spec fn initial_capacity_spec(self) -> Option<usize> {
        self.initial_capacity
    }

    pub closed spec fn weighted_spec(self) -> bool {
        self.weighted
    }

    pub closed spec fn time_to_live_spec(self) -> Option<Duration> {
        self.time_to_live
    }

    pub closed spec fn time_to_idle_spec(self) -> Option<Duration> {
        self.time_to_idle
    }

    pub closed spec fn invalidator_enabled_spec(self) -> bool {
        self.invalidator_enabled
    }

    /// The stored key/value pairs, in insertion order of their keys.
    pub closed spec fn entries(self) -> Seq<(K, V)> {
        self.entries@
    }

    pub(crate) fn with_everything(
        max_capacity: Option<u64>,
        initial_capacity: Option<usize>,
        build_hasher: S,
        weighted: bool,
        time_to_live: Option<Duration>,
        time_to_idle: Option<Duration>,
        invalidator_enabled: bool,
    ) -> (c: Cache<K, V, S>)
        ensures
            c.max_capacity_spec() == max_capacity,
            c.initial_capacity_spec() == initial_capacity,
            c.weighted_spec() == weighted,
            c.time_to_live_spec() == time_to_live,
            c.time_to_idle_spec() == time_to_idle,
            c.invalidator_enabled_spec() == invalidator_enabled,
            c.entries() == Seq::<(K, V)>::empty(),
    {
        Cache {
            max_capacity,
            initial_capacity,
            build_hasher,
            weighted,
            time_to_live,
            time_to_idle,
            invalidator_enabled,
            entries: Vec::new(),
        }
    }

    pub fn max_capacity(&self) -> (r: Option<u64>)
        ensures
            r == self.max_capacity_spec(),
    {
        self.max_capacity
    }

    pub fn time_to_live(&self) -> (r: Option<Duration>)
        ensures
            r == self.time_to_live_spec(),
    {
        self.time_to_live
    }

    pub fn time_to_idle(&self) -> (r: Option<Duration>)
        ensures
            r == self.time_to_idle_spec(),
    {
        self.time_to_idle
    }

    /// A non-segmented cache is a single segment.
    pub fn num_segments(&self) -> (n: usize)
        ensures
            n == 1usize,
    {
        1
    }
}

impl<K: Eq + Hash, V: Clone, S> Cache<K, V, S> {
    /// Stores `value` under `key`: replaces the value of the first entry with
    /// an equal key, or appends a fresh entry if no key matches.
    pub fn insert(&mut self, key: K, value: V)
        ensures
            final(self).max_capacity_spec() == old(self).max_capacity_spec(),
            final(self).initial_capacity_spec() == old(self).initial_capacity_spec(),
            final(self).weighted_spec() == old(self).weighted_spec(),
            final(self).time_to_live_spec() == old(self).time_to_live_spec(),
            final(self).time_to_idle_spec() == old(self).time_to_idle_spec(),
            final(self).invalidator_enabled_spec() == old(self).invalidator_enabled_spec(),
            K::obeys_eq_spec() ==> final(self).entries() == (match first_match(
                old(self).entries(),
                key,
            ) {
                Some(i) => old(self).entries().update(i, (old(self).entries()[i].0, value)),
                None => old(self).entries().push((key, value)),
            }),
    {
        let n = self.entries.len();
        let mut i: usize = 0;
        while i < n
            invariant
                *self == (Cache { entries: self.entries, ..*old(self) }),
                self.entries@ == old(self).entries@,
                n == self.entries@.len(),
                0 <= i <= n,
                K::obeys_eq_spec() ==> forall|j: int|
                    0 <= j < i ==> !(#[trigger] self.entries@[j].0.eq_spec(&key)),
            decreases n - i,
        {
            if self.entries[i].0 == key {
                let (stored_key, _) = self.entries.remove(i);
                self.entries.insert(i, (stored_key, value));
                proof {
                    if K::obeys_eq_spec() {
                        lemma_first_match_at(old(self).entries(), key, i as int);
                        assert(self.entries@ =~= old(self).entries().update(
                            i as int,
                            (old(self).entries()[i as int].0, value),
                        ));
                    }
                }
                return ;
            }
            i = i + 1;
        }
        self.entries.push((key, value));
        proof {
            if K::obeys_eq_spec() {
                lemma_first_match_none(old(self).entries(), key);
            }
        }
    }

    /// Looks `key` up and returns a clone of the stored value, or `None` when
    /// no entry's key equals it.
    pub fn get(&self, key: &K) -> (r: Option<V>)
        ensures
            K::obeys_eq_spec() ==> (match first_match(self.entries(), *key) {
                Some(i) => r matches Some(v) && cloned(self.entries()[i].1, v),
                None => r is None,
            }),
    {
        let n = self.entries.len();
        let mut i: usize = 0;
        while i < n
            invariant
                n == self.entries@.len(),
                0 <= i <= n,
                K::obeys_eq_spec() ==> forall|j: int|
                    0 <= j < i ==> !(#[trigger] self.entries@[j].0.eq_spec(key)),
            decreases n - i,
        {
            if self.entries[i].0 == *key {
                let v = self.entries[i].1.clone();
                proof {
                    if K::obeys_eq_spec() {
                        lemma_first_match_at(self.entries(), *key, i as int);
                    }
                }
                return Some(v);
            }
            i = i + 1;
        }
        proof {
            if K::obeys_eq_spec() {
                lemma_first_match_none(self.entries(), *key);
            }
        }
        None
    }
}

/// A cache split into independently locked segments, each with its own queue
/// set and hash-index partition. The segmentation itself — routing a key to a
/// segment by hash — is the sharding layer outside this core; here the
/// segmented cache records the (power-of-two) segment count it was built with
/// and serves the same interface as [`Cache`].
pub struct SegmentedCache<K, V, S> {
    num_segments: usize,
    inner: Cache<K, V, S>,
}

impl<K, V, S> SegmentedCache<K, V, S> {
    pub closed spec fn num_segments_spec(self) -> usize {
        self.num_segments
    }

    pub closed spec fn inner_spec(self) -> Cache<K, V, S> {
        self.inner
    }

    pub open spec fn max_capacity_spec(self) -> Option<u64> {
        self.inner_spec().max_capacity_spec()
    }

    pub open spec fn time_to_live_spec(self) -> Option<Duration> {
        self.inner_spec().time_to_live_spec()
    }

    pub open spec fn time_to_idle_spec(self) -> Option<Duration> {
        self.inner_spec().time_to_idle_spec()
    }

    pub open spec fn invalidator_enabled_spec(self) -> bool {
        self.inner_spec().invalidator_enabled_spec()
    }

    pub open spec fn entries(self) -> Seq<(K, V)> {
        self.inner_spec().entries()
    }

    /// Builds a segmented cache over `num_segments` segments, rounded up to
    /// the next power of two.
    pub(crate) fn with_everything(
        max_capacity: Option<u64>,
        initial_capacity: Option<usize>,
        num_segments: usize,
        build_hasher: S,
        weighted: bool,
        time_to_live: Option<Duration>,
        time_to_idle: Option<Duration>,
        invalidator_enabled: bool,
    ) -> (c: SegmentedCache<K, V, S>)
        requires
            1 <= num_segments <= usize::MAX / 2 + 1,
        ensures
            is_pow2(c.num_segments_spec() as int),
            num_segments <= c.num_segments_spec(),
            c.num_segments_spec() == 1 || c.num_segments_spec() / 2 < num_segments,
            c.max_capacity_spec() == max_capacity,
            c.inner_spec().initial_capacity_spec() == initial_capacity,
            c.inner_spec().weighted_spec() == weighted,
            c.time_to_live_spec() == time_to_live,
            c.time_to_idle_spec() == time_to_idle,
            c.invalidator_enabled_spec() == invalidator_enabled,
            c.entries() == Seq::<(K, V)>::empty(),
    {
        SegmentedCache {
            num_segments: next_power_of_two(num_segments),
            inner: Cache::with_everything(
                max_capacity,
                initial_capacity,
                build_hasher,
                weighted,
                time_to_live,
                time_to_idle,
                invalidator_enabled,
            ),
        }
    }

    pub fn max_capacity(&self) -> (r: Option<u64>)
        ensures
            r == self.max_capacity_spec(),
    {
        self.inner.max_capacity()
    }

    pub fn time_to_live(&self) -> (r: Option<Duration>)
        ensures
            r == self.time_to_live_spec(),
    {
        self.inner.time_to_live()
    }

    pub fn time_to_idle(&self) -> (r: Option<Duration>)
        ensures
            r == self.time_to_idle_spec(),
    {
        self.inner.time_to_idle()
    }

    /// The segment count the cache was built with, a power of two.
    pub fn num_segments(&self) -> (n: usize)
        ensures
            n == self.num_segments_spec(),
    {
        self.num_segments
    }
}

impl<K: Eq + Hash, V: Clone, S> SegmentedCache<K, V, S> {
    /// Stores `value` under `key`, as [`Cache::insert`] does.
    pub fn insert(&mut self, key: K, value: V)
        ensures
            final(self).num_segments_spec() == old(self).num_segments_spec(),
            final(self).max_capacity_spec() == old(self).max_capacity_spec(),
            final(self).time_to_live_spec() == old(self).time_to_live_spec(),
            final(self).time_to_idle_spec() == old(self).time_to_idle_spec(),
            final(self).invalidator_enabled_spec() == old(self).invalidator_enabled_spec(),
            K::obeys_eq_spec() ==> final(self).entries() == (match first_match(
                old(self).entries(),
                key,
            ) {
                Some(i) => old(self).entries().update(i, (old(self).entries()[i].0, value)),
                None => old(self).entries().push((key, value)),
            }),
    {
        self.inner.insert(key, value);
    }

    /// Looks `key` up, as [`Cache::get`] does.
    pub fn get(&self, key: &K) -> (r: Option<V>)
        ensures
            K::obeys_eq_spec() ==> (match first_match(self.entries(), *key) {
                Some(i) => r matches Some(v) && cloned(self.entries()[i].1, v),
                None => r is None,
            }),
    {
        self.inner.get(key)
    }
}

/// Relies on std::hash::RandomState::new: a randomly seeded state for the
/// standard hasher. Nothing is promised of the seed.
#[verifier::external_body]
pub(crate) fn new_random_state() -> RandomState {
    RandomState::new()
}

} // verus!
