//! What a physical time value has to offer to be carried by a timestamp, and
//! the plain lengths of time that the sources of this crate work with.

use std::cmp::Ordering;
use vstd::prelude::*;
use vstd::std_specs::cmp::PartialOrdSpec;

verus! {

/// A difference between two time values that can be held against a limit.
pub trait Offset: Sized {
    /// Whether `self` is strictly longer than `limit`.
    spec fn longer_than(self, limit: Self) -> bool;

    /// Tells whether `self` is strictly longer than `limit`.
    fn exceeds(&self, limit: &Self) -> (b: bool)
        ensures
            b == self.longer_than(*limit),
    ;
}

/// A physical time value: copyable, strictly totally ordered, and able to say
/// how far it lies ahead of another value.
pub trait TimePoint: Copy + PartialOrd {
    /// The difference between two time values.
    type Delta: Offset;

    /// The strict order of time values: `self` is earlier than `other`.
    spec fn before(self, other: Self) -> bool;

    /// No value is earlier than itself.
    proof fn lemma_before_irreflexive(a: Self)
        ensures
            !a.before(a),
    ;

    /// The order is transitive.
    proof fn lemma_before_transitive(a: Self, b: Self, c: Self)
        requires
            a.before(b),
            b.before(c),
        ensures
            a.before(c),
    ;

    /// Two different values are ordered one way or the other.
    proof fn lemma_before_connected(a: Self, b: Self)
        ensures
            a == b || a.before(b) || b.before(a),
    ;

    /// The comparison operators of the type go by this order.
    proof fn lemma_operators_go_by_before(a: Self, b: Self)
        ensures
            Self::obeys_partial_cmp_spec(),
            a.partial_cmp_spec(&b) == Some(Ordering::Less) <==> a.before(b),
            a.partial_cmp_spec(&b) == Some(Ordering::Equal) <==> a == b,
            a.partial_cmp_spec(&b) == Some(Ordering::Greater) <==> b.before(a),
    ;

    /// How far `self` lies ahead of `base`; nothing at all where it does not.
    spec fn lead_over(self, base: Self) -> Self::Delta;

    /// The lead of a value that is not ahead of `base` is longer than no
    /// limit.
    proof fn lemma_no_lead_within_any_limit(a: Self, base: Self, limit: Self::Delta)
        requires
            !base.before(a),
        ensures
            !a.lead_over(base).longer_than(limit),
    ;

    /// Tells whether `self` is earlier than `other`.
    fn is_before(&self, other: &Self) -> (b: bool)
        ensures
            b == self.before(*other),
    ;

    /// Computes how far `self` lies ahead of `base`, without wrapping or
    /// failing where `self` is the earlier one.
    fn offset_from(self, base: Self) -> (d: Self::Delta)
        ensures
            d == self.lead_over(base),
    ;
}

/// A length of time in nanoseconds.
#[derive(Debug, Clone, Copy, PartialEq, Eq, PartialOrd, Ord, Hash, Structural)]
pub struct Nanos(pub u128);

impl Offset for u64 {
    open spec fn longer_than(self, limit: Self) -> bool {
        self > limit
    }

    fn exceeds(&self, limit: &Self) -> (b: bool) {
        *self > *limit
    }
}

impl Offset for Nanos {
    open spec fn longer_than(self, limit: Self) -> bool {
        self.0 > limit.0
    }

    fn exceeds(&self, limit: &Self) -> (b: bool) {
        self.0 > limit.0
    }
}

impl TimePoint for u64 {
    type Delta = u64;

    open spec fn before(self, other: Self) -> bool {
        self < other
    }

    proof fn lemma_before_irreflexive(a: Self) {
    }

    proof fn lemma_before_transitive(a: Self, b: Self, c: Self) {
    }

    proof fn lemma_before_connected(a: Self, b: Self) {
    }

    proof fn lemma_operators_go_by_before(a: Self, b: Self) {
    }

    open spec fn lead_over(self, base: Self) -> u64 {
        if self > base {
            (self - base) as u64
        } else {
            0
        }
    }

    proof fn lemma_no_lead_within_any_limit(a: Self, base: Self, limit: u64) {
    }

    fn is_before(&self, other: &Self) -> (b: bool) {
        *self < *other
    }

    fn offset_from(self, base: Self) -> (d: u64) {
        self.saturating_sub(base)
    }
}

} // verus!
