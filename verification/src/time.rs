//! Points in time and spans of time, counted in nanoseconds.
use vstd::prelude::*;

verus! {

/// A reading of a monotonic clock.
#[derive(Clone, Copy, Debug, PartialEq, Eq, Structural)]
pub struct Instant {
    /// Nanoseconds since the clock was started.
    pub nanos: u64,
}

/// A span of time.
#[derive(Clone, Copy, Debug, PartialEq, Eq, Structural)]
pub struct Duration {
    /// Its length in nanoseconds.
    pub nanos: u128,
}

} // verus!
