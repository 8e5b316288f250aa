use vstd::prelude::*;

use std::collections::hash_map::RandomState;
use std::hash::Hash;
use std::marker::PhantomData;

use crate::cache::{is_pow2, new_random_state, Cache, SegmentedCache};
use crate::duration::{Duration, MAX_EXPIRATION_NANOS};

verus! {

/// A configuration error surfaced when building a cache, naming the
/// offending option.
#[derive(Clone, Copy, Debug, PartialEq, Eq, Structural)]
pub enum ConfigError {
    /// The time-to-live duration is longer than 1000 years.
    TimeToLiveTooLong,
    /// The time-to-idle duration is longer than 1000 years.
    TimeToIdleTooLong,
}

/// Both expirations, where set, are within the 1000-year bound.
pub open spec fn expirations_ok(ttl: Option<Duration>, tti: Option<Duration>) -> bool {
    &&& (ttl matches Some(d) ==> d.as_nanos_spec() <= MAX_EXPIRATION_NANOS as int)
    &&& (tti matches Some(d) ==> d.as_nanos_spec() <= MAX_EXPIRATION_NANOS as int)
}

/// Validates the expirations a builder carries against the 1000-year bound;
/// the error names the offending option, time-to-live being checked first.
/// The `build` methods demand this check has passed: both durations are later
/// added to a captured instant, and the bound keeps that sum from
/// overflowing.
pub fn check_expirations(ttl: Option<Duration>, tti: Option<Duration>) -> (r: Result<
    (),
    ConfigError,
>)
    ensures
        r is Ok <==> expirations_ok(ttl, tti),
        r == Result::<(), ConfigError>::Err(ConfigError::TimeToLiveTooLong) <==> (
        ttl matches Some(d) && d.as_nanos_spec() > MAX_EXPIRATION_NANOS as int),
        r == Result::<(), ConfigError>::Err(ConfigError::TimeToIdleTooLong) <==> ((
        ttl matches Some(d) ==> d.as_nanos_spec() <= MAX_EXPIRATION_NANOS as int) && (
        tti matches Some(d) && d.as_nanos_spec() > MAX_EXPIRATION_NANOS as int)),
{
    if let Some(d) = ttl {
        if !d.within_expiration_bound() {
            return Err(ConfigError::TimeToLiveTooLong);
        }
    }
    if let Some(d) = tti {
        if !d.within_expiration_bound() {
            return Err(ConfigError::TimeToIdleTooLong);
        }
    }
    Ok(())
}

/// A segment count must be non-zero; `segments` demands this of its caller.
pub fn is_valid_segment_count(num_segments: usize) -> (ok: bool)
    ensures
        ok == (num_segments != 0),
{
    num_segments != 0
}

/// Builds a [`Cache`] or [`SegmentedCache`] with various configuration knobs.
///
/// The builder has two type-level modes, named by its third type parameter:
/// fresh builders target `Cache`; calling [`CacheBuilder::segments`] moves the
/// builder into segmented mode, targeting `SegmentedCache`. A weigher
/// configured before that call is dropped by the transition — segmented mode
/// starts unweighted — and the weigher setter is unavailable once segmented,
/// so the order of the two calls is significant.
#[must_use]
pub struct CacheBuilder<K, V, C> {
    max_capacity: Option<u64>,
    initial_capacity: Option<usize>,
    num_segments: Option<usize>,
    weigher_set: bool,
    time_to_live: Option<Duration>,
    time_to_idle: Option<Duration>,
    invalidator_enabled: bool,
    cache_type: PhantomData<(K, V, C)>,
}

impl<K, V, C> CacheBuilder<K, V, C> {
    pub closed spec fn max_capacity_spec(self) -> Option<u64> {
        self.max_capacity
    }

    pub closed spec fn initial_capacity_spec(self) -> Option<usize> {
        self.initial_capacity
    }

    pub closed spec fn num_segments_spec(self) -> Option<usize> {
        self.num_segments
    }

    /// Whether a weigher function has been supplied.
    pub closed spec fn has_weigher(self) -> bool {
        self.weigher_set
    }

    pub closed spec fn time_to_live_spec(self) -> Option<Duration> {
        self.time_to_live
    }

    pub closed spec fn time_to_idle_spec(self) -> Option<Duration> {
        self.time_to_idle
    }

    pub closed spec fn invalidator_enabled_spec(self) -> bool {
        self.invalidator_enabled
    }

    /// Sets the max capacity of the cache: an upper bound on the total
    /// size/weight of the entries the built cache will hold.
    pub fn max_capacity(self, max_capacity: u64) -> (b: Self)
        ensures
            b.max_capacity_spec() == Some(max_capacity),
            b.initial_capacity_spec() == self.initial_capacity_spec(),
            b.num_segments_spec() == self.num_segments_spec(),
            b.has_weigher() == self.has_weigher(),
            b.time_to_live_spec() == self.time_to_live_spec(),
            b.time_to_idle_spec() == self.time_to_idle_spec(),
            b.invalidator_enabled_spec() == self.invalidator_enabled_spec(),
    {
        Self { max_capacity: Some(max_capacity), ..self }
    }

    /// Sets the initial capacity (number of entries) of the cache: a sizing
    /// hint for the hash index, not a bound.
    pub fn initial_capacity(self, number_of_entries: usize) -> (b: Self)
        ensures
            b.initial_capacity_spec() == Some(number_of_entries),
            b.max_capacity_spec() == self.max_capacity_spec(),
            b.num_segments_spec() == self.num_segments_spec(),
            b.has_weigher() == self.has_weigher(),
            b.time_to_live_spec() == self.time_to_live_spec(),
            b.time_to_idle_spec() == self.time_to_idle_spec(),
            b.invalidator_enabled_spec() == self.invalidator_enabled_spec(),
    {
        Self { initial_capacity: Some(number_of_entries), ..self }
    }

    /// Sets the weigher closure of the cache, which maps an entry to its
    /// relative size. The function value itself is consumed by the owning
    /// engine's eviction accounting, outside this bookkeeping core; the
    /// builder records that one was supplied.
    pub fn weigher<W: Fn(&K, &V) -> u32>(self, weigher: W) -> (b: Self)
        ensures
            b.has_weigher(),
            b.max_capacity_spec() == self.max_capacity_spec(),
            b.initial_capacity_spec() == self.initial_capacity_spec(),
            b.num_segments_spec() == self.num_segments_spec(),
            b.time_to_live_spec() == self.time_to_live_spec(),
            b.time_to_idle_spec() == self.time_to_idle_spec(),
            b.invalidator_enabled_spec() == self.invalidator_enabled_spec(),
    {
        let _ = weigher;
        Self { weigher_set: true, ..self }
    }

    /// Sets the time to live of the cache: an entry expires this long after
    /// its insertion. The `build` methods reject a duration longer than 1000
    /// years.
    pub fn time_to_live(self, duration: Duration) -> (b: Self)
        ensures
            b.time_to_live_spec() == Some(duration),
            b.max_capacity_spec() == self.max_capacity_spec(),
            b.initial_capacity_spec() == self.initial_capacity_spec(),
            b.num_segments_spec() == self.num_segments_spec(),
            b.has_weigher() == self.has_weigher(),
            b.time_to_idle_spec() == self.time_to_idle_spec(),
            b.invalidator_enabled_spec() == self.invalidator_enabled_spec(),
    {
        Self { time_to_live: Some(duration), ..self }
    }

    /// Sets the time to idle of the cache: an entry expires this long after
    /// its last get or insert. The `build` methods reject a duration longer
    /// than 1000 years.
    pub fn time_to_idle(self, duration: Duration) -> (b: Self)
        ensures
            b.time_to_idle_spec() == Some(duration),
            b.max_capacity_spec() == self.max_capacity_spec(),
            b.initial_capacity_spec() == self.initial_capacity_spec(),
            b.num_segments_spec() == self.num_segments_spec(),
            b.has_weigher() == self.has_weigher(),
            b.time_to_live_spec() == self.time_to_live_spec(),
            b.invalidator_enabled_spec() == self.invalidator_enabled_spec(),
    {
        Self { time_to_idle: Some(duration), ..self }
    }

    /// Enables support for invalidating entries by predicate: the built cache
    /// will maintain the extra bookkeeping that predicate-based bulk
    /// invalidation needs.
    pub fn support_invalidation_closures(self) -> (b: Self)
        ensures
            b.invalidator_enabled_spec(),
            b.max_capacity_spec() == self.max_capacity_spec(),
            b.initial_capacity_spec() == self.initial_capacity_spec(),
            b.num_segments_spec() == self.num_segments_spec(),
            b.has_weigher() == self.has_weigher(),
            b.time_to_live_spec() == self.time_to_live_spec(),
            b.time_to_idle_spec() == self.time_to_idle_spec(),
    {
        Self { invalidator_enabled: true, ..self }
    }
}

impl<K: Eq + Hash, V: Clone> Default for CacheBuilder<K, V, Cache<K, V, RandomState>> {
    /// A builder with every knob at its default: no capacity bound, no
    /// initial-capacity hint, one segment, no weigher, no expirations,
    /// invalidation support disabled.
    fn default() -> (b: Self)
        ensures
            b.max_capacity_spec() is None,
            b.initial_capacity_spec() is None,
            b.num_segments_spec() is None,
            !b.has_weigher(),
            b.time_to_live_spec() is None,
            b.time_to_idle_spec() is None,
            !b.invalidator_enabled_spec(),
    {
        CacheBuilder {
            max_capacity: None,
            initial_capacity: None,
            num_segments: None,
            weigher_set: false,
            time_to_live: None,
            time_to_idle: None,
            invalidator_enabled: false,
            cache_type: PhantomData,
        }
    }
}

impl<K: Eq + Hash, V: Clone> CacheBuilder<K, V, Cache<K, V, RandomState>> {
    /// Constructs a new `CacheBuilder` that will build a `Cache` or
    /// `SegmentedCache` holding up to `max_capacity` entries.
    pub fn new(max_capacity: u64) -> (b: Self)
        ensures
            b.max_capacity_spec() == Some(max_capacity),
            b.initial_capacity_spec() is None,
            b.num_segments_spec() is None,
            !b.has_weigher(),
            b.time_to_live_spec() is None,
            b.time_to_idle_spec() is None,
            !b.invalidator_enabled_spec(),
    {
        let base = Self::default();
        Self { max_capacity: Some(max_capacity), ..base }
    }

    /// Moves the builder into segmented mode with the given segment count.
    ///
    /// A zero segment count is a construction-time fatal error, excluded by
    /// the precondition; callers that take the count from outside should test
    /// it with [`is_valid_segment_count`] first. A weigher configured before
    /// this call is dropped: segmented mode always starts unweighted.
    pub fn segments(self, num_segments: usize) -> (b: CacheBuilder<
        K,
        V,
        SegmentedCache<K, V, RandomState>,
    >)
        requires
            num_segments != 0,
            num_segments <= usize::MAX / 2 + 1,
        ensures
            b.max_capacity_spec() == self.max_capacity_spec(),
            b.initial_capacity_spec() == self.initial_capacity_spec(),
            b.num_segments_spec() == Some(num_segments),
            !b.has_weigher(),
            b.time_to_live_spec() == self.time_to_live_spec(),
            b.time_to_idle_spec() == self.time_to_idle_spec(),
            b.invalidator_enabled_spec() == self.invalidator_enabled_spec(),
    {
        CacheBuilder {
            max_capacity: self.max_capacity,
            initial_capacity: self.initial_capacity,
            num_segments: Some(num_segments),
            weigher_set: false,
            time_to_live: self.time_to_live,
            time_to_idle: self.time_to_idle,
            invalidator_enabled: self.invalidator_enabled,
            cache_type: PhantomData,
        }
    }

    /// Builds a `Cache<K, V>` with the standard hasher.
    ///
    /// Expirations longer than 1000 years are a fatal configuration error,
    /// excluded by the precondition; callers that take durations from outside
    /// should run [`check_expirations`] first.
    pub fn build(self) -> (c: Cache<K, V, RandomState>)
        requires
            expirations_ok(self.time_to_live_spec(), self.time_to_idle_spec()),
        ensures
            c.max_capacity_spec() == self.max_capacity_spec(),
            c.initial_capacity_spec() == self.initial_capacity_spec(),
            c.weighted_spec() == self.has_weigher(),
            c.time_to_live_spec() == self.time_to_live_spec(),
            c.time_to_idle_spec() == self.time_to_idle_spec(),
            c.invalidator_enabled_spec() == self.invalidator_enabled_spec(),
            c.entries() == Seq::<(K, V)>::empty(),
    {
        let build_hasher = new_random_state();
        Cache::with_everything(
            self.max_capacity,
            self.initial_capacity,
            build_hasher,
            self.weigher_set,
            self.time_to_live,
            self.time_to_idle,
            self.invalidator_enabled,
        )
    }

    /// Builds a `Cache<K, V, S>` with the given hasher, under the same
    /// expiration precondition as [`Self::build`].
    pub fn build_with_hasher<S>(self, hasher: S) -> (c: Cache<K, V, S>)
        requires
            expirations_ok(self.time_to_live_spec(), self.time_to_idle_spec()),
        ensures
            c.max_capacity_spec() == self.max_capacity_spec(),
            c.initial_capacity_spec() == self.initial_capacity_spec(),
            c.weighted_spec() == self.has_weigher(),
            c.time_to_live_spec() == self.time_to_live_spec(),
            c.time_to_idle_spec() == self.time_to_idle_spec(),
            c.invalidator_enabled_spec() == self.invalidator_enabled_spec(),
            c.entries() == Seq::<(K, V)>::empty(),
    {
        Cache::with_everything(
            self.max_capacity,
            self.initial_capacity,
            hasher,
            self.weigher_set,
            self.time_to_live,
            self.time_to_idle,
            self.invalidator_enabled,
        )
    }
}

impl<K: Eq + Hash, V: Clone> CacheBuilder<K, V, SegmentedCache<K, V, RandomState>> {
    /// Builds a `SegmentedCache<K, V>` with the standard hasher: the segment
    /// count set by `segments` is rounded up to the next power of two.
    /// The expiration precondition is as for the unsegmented `build`.
    pub fn build(self) -> (c: SegmentedCache<K, V, RandomState>)
        requires
            expirations_ok(self.time_to_live_spec(), self.time_to_idle_spec()),
            self.num_segments_spec() matches Some(n) && 1 <= n <= usize::MAX / 2 + 1,
        ensures
            is_pow2(c.num_segments_spec() as int),
            self.num_segments_spec()->0 <= c.num_segments_spec(),
            c.num_segments_spec() == 1 || c.num_segments_spec() / 2 < self.num_segments_spec()->0,
            c.max_capacity_spec() == self.max_capacity_spec(),
            c.inner_spec().initial_capacity_spec() == self.initial_capacity_spec(),
            c.inner_spec().weighted_spec() == self.has_weigher(),
            c.time_to_live_spec() == self.time_to_live_spec(),
            c.time_to_idle_spec() == self.time_to_idle_spec(),
            c.invalidator_enabled_spec() == self.invalidator_enabled_spec(),
            c.entries() == Seq::<(K, V)>::empty(),
    {
        let build_hasher = new_random_state();
        let num_segments = match self.num_segments {
            Some(n) => n,
            None => unreached(),
        };
        SegmentedCache::with_everything(
            self.max_capacity,
            self.initial_capacity,
            num_segments,
            build_hasher,
            self.weigher_set,
            self.time_to_live,
            self.time_to_idle,
            self.invalidator_enabled,
        )
    }

    /// Builds a `SegmentedCache<K, V, S>` with the given hasher, as
    /// [`Self::build`] does.
    pub fn build_with_hasher<S>(self, hasher: S) -> (c: SegmentedCache<K, V, S>)
        requires
            expirations_ok(self.time_to_live_spec(), self.time_to_idle_spec()),
            self.num_segments_spec() matches Some(n) && 1 <= n <= usize::MAX / 2 + 1,
        ensures
            is_pow2(c.num_segments_spec() as int),
            self.num_segments_spec()->0 <= c.num_segments_spec(),
            c.num_segments_spec() == 1 || c.num_segments_spec() / 2 < self.num_segments_spec()->0,
            c.max_capacity_spec() == self.max_capacity_spec(),
            c.inner_spec().initial_capacity_spec() == self.initial_capacity_spec(),
            c.inner_spec().weighted_spec() == self.has_weigher(),
            c.time_to_live_spec() == self.time_to_live_spec(),
            c.time_to_idle_spec() == self.time_to_idle_spec(),
            c.invalidator_enabled_spec() == self.invalidator_enabled_spec(),
            c.entries() == Seq::<(K, V)>::empty(),
    {
        let num_segments = match self.num_segments {
            Some(n) => n,
            None => unreached(),
        };
        SegmentedCache::with_everything(
            self.max_capacity,
            self.initial_capacity,
            num_segments,
            hasher,
            self.weigher_set,
            self.time_to_live,
            self.time_to_idle,
            self.invalidator_enabled,
        )
    }
}

} // verus!
