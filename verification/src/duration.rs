use vstd::prelude::*;

verus! {

/// A span of time with nanosecond resolution, used for the builder's
/// time-to-live and time-to-idle settings.
#[derive(Clone, Copy, Debug, PartialEq, Eq, Structural)]
pub struct Duration {
    nanos: u128,
}

/// Nanoseconds in one second.
pub const NANOS_PER_SEC: u128 = 1_000_000_000;

/// The longest expiration the builder accepts: 1000 years (of 365 days), in
/// nanoseconds. Both expirations are added to a captured instant to compute
/// an absolute expiration time; bounding them up front prevents timestamp
/// overflow inside the engine.
pub const MAX_EXPIRATION_NANOS: u128 = 1000 * 365 * 24 * 3600 * 1_000_000_000;

impl Duration {
    /// The whole span in nanoseconds.
    pub closed spec fn as_nanos_spec(self) -> int {
        self.nanos as int
    }

    pub fn from_secs(secs: u64) -> (d: Duration)
        ensures
            d.as_nanos_spec() == secs * NANOS_PER_SEC,
    {
        Duration { nanos: (secs as u128) * NANOS_PER_SEC }
    }

    pub fn from_nanos(nanos: u128) -> (d: Duration)
        ensures
            d.as_nanos_spec() == nanos,
    {
        Duration { nanos }
    }

    pub fn as_nanos(&self) -> (n: u128)
        ensures
            n == self.as_nanos_spec(),
    {
        self.nanos
    }

    /// Whether this span is short enough to be a cache expiration.
    pub fn within_expiration_bound(&self) -> (ok: bool)
        ensures
            ok == (self.as_nanos_spec() <= MAX_EXPIRATION_NANOS),
    {
        self.nanos <= MAX_EXPIRATION_NANOS
    }
}

} // verus!
