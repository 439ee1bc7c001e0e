//! The sources of physical time.

use crate::error::Error;
use crate::time::{Offset, TimePoint};
use vstd::prelude::*;

pub mod manual;
pub mod system;
pub mod wall_ms;
pub mod wall_ns;

verus! {

/// The nanoseconds in a second.
pub const NANOS_PER_SEC: u64 = 1_000_000_000;

/// What a clock needs from a source of physical time.
pub trait ClockSource: Sized {
    /// The physical time that the source hands out.
    type Time: TimePoint<Delta = Self::Delta> + std::fmt::Debug;

    /// The difference between two such times.
    type Delta: Offset;

    /// Whether a read of the source `self` may hand out `reading` and leave
    /// the source as `next`.
    spec fn yields(self, reading: Result<Self::Time, Error>, next: Self) -> bool;

    /// Reads the current physical time.
    fn now(&mut self) -> (reading: Result<Self::Time, Error>)
        ensures
            old(self).yields(reading, *final(self)),
    ;
}

} // verus!
