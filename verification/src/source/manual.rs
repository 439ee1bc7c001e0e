//! A source of time that is set by hand, for deterministic runs.

use crate::error::Error;
use crate::source::ClockSource;
use crate::text::{decimal, push_decimal, Render};
use crate::time::TimePoint;
use vstd::std_specs::convert::FromSpecImpl;
use std::cmp::Ordering;
use vstd::prelude::*;
use vstd::std_specs::cmp::PartialOrdSpec;

verus! {

/// A clock source that hands out the time it was last set to.
#[derive(Debug, Clone)]
pub struct ManualClock {
    time: u64,
}

impl ManualClock {
    /// The time that the source is set to.
    pub closed spec fn time(self) -> u64 {
        self.time
    }

    /// A source set to `t`.
    pub fn new(t: u64) -> (src: ManualClock)
        ensures
            src.time() == t,
    {
        ManualClock { time: t }
    }

    /// Sets the source to `t`.
    pub fn set_time(&mut self, t: u64)
        ensures
            final(self).time() == t,
    {
        self.time = t;
    }
}

impl ClockSource for ManualClock {
    type Time = u64;

    type Delta = u64;

    open spec fn yields(self, reading: Result<u64, Error>, next: Self) -> bool {
        reading == Ok::<u64, Error>(self.time()) && next == self
    }

    fn now(&mut self) -> (reading: Result<u64, Error>) {
        Ok(self.time)
    }
}

/// A time that was set by hand, kept apart from other numbers by its type.
#[derive(Debug, Clone, Copy, Ord, PartialEq, Eq, Structural)]
pub struct ManualT(u64);

impl View for ManualT {
    type V = u64;

    /// The number that the time was set to.
    closed spec fn view(&self) -> u64 {
        self.0
    }
}

impl ManualT {
    /// A time is the number that it was set to and nothing else.
    pub proof fn lemma_view_injective(a: ManualT, b: ManualT)
        requires
            a@ == b@,
        ensures
            a == b,
    {
    }
}

impl From<u64> for ManualT {
    fn from(src: u64) -> (t: Self)
        ensures
            t@ == src,
    {
        ManualT(src)
    }
}

impl FromSpecImpl<u64> for ManualT {
    open spec fn obeys_from_spec() -> bool {
        true
    }

    closed spec fn from_spec(src: u64) -> Self {
        ManualT(src)
    }
}

impl PartialOrd for ManualT {
    fn partial_cmp(&self, other: &Self) -> (r: Option<Ordering>) {
        self.0.partial_cmp(&other.0)
    }
}

impl vstd::std_specs::cmp::PartialOrdSpecImpl for ManualT {
    open spec fn obeys_partial_cmp_spec() -> bool {
        true
    }

    /// Times compare as the numbers that they were set to.
    open spec fn partial_cmp_spec(&self, other: &Self) -> Option<Ordering> {
        if self@ < other@ {
            Some(Ordering::Less)
        } else if self@ > other@ {
            Some(Ordering::Greater)
        } else {
            Some(Ordering::Equal)
        }
    }
}

impl TimePoint for ManualT {
    type Delta = u64;

    open spec fn before(self, other: Self) -> bool {
        self@ < other@
    }

    proof fn lemma_before_irreflexive(a: Self) {
    }

    proof fn lemma_before_transitive(a: Self, b: Self, c: Self) {
    }

    proof fn lemma_before_connected(a: Self, b: Self) {
    }

    proof fn lemma_operators_go_by_before(a: Self, b: Self) {
        if a@ == b@ {
            Self::lemma_view_injective(a, b);
        }
    }

    open spec fn lead_over(self, base: Self) -> u64 {
        if self@ > base@ {
            (self@ - base@) as u64
        } else {
            0
        }
    }

    proof fn lemma_no_lead_within_any_limit(a: Self, base: Self, limit: u64) {
    }

    fn is_before(&self, other: &Self) -> (b: bool) {
        self.0 < other.0
    }

    fn offset_from(self, base: Self) -> (d: u64) {
        self.0.saturating_sub(base.0)
    }
}

impl Render for ManualT {
    open spec fn text(&self) -> Seq<char> {
        decimal(self@ as nat)
    }

    fn render(&self, out: &mut String) {
        push_decimal(out, self.0 as u128)
    }
}

} // verus!
