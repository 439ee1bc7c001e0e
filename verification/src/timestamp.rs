//! The timestamp value, its order, and the rule by which a clock moves from
//! one timestamp to the next.

use crate::text::{decimal, push_char, push_decimal, Render};
use crate::time::TimePoint;
use std::cmp::Ordering;
use vstd::prelude::*;
use vstd::std_specs::cmp::PartialOrdSpec;
use vstd::std_specs::convert::FromSpec;

verus! {

/// A logical timestamp: an epoch, a physical time and a counter that tells
/// apart events of one physical time.
///
/// If `a` orders before `b`, then `a` may have happened before `b`.
#[derive(Debug, Clone, Copy, PartialEq, Eq, Ord, Hash)]
pub struct Timestamp<T> {
    /// An epoch counter.
    pub epoch: u32,
    /// The physical time as the clock source gave it.
    pub time: T,
    /// A counter that orders the events of one physical time.
    pub count: u32,
}

impl<T: PartialOrd> PartialOrd for Timestamp<T> {
    fn partial_cmp(&self, other: &Self) -> (r: Option<Ordering>) {
        if self.epoch < other.epoch {
            Some(Ordering::Less)
        } else if self.epoch > other.epoch {
            Some(Ordering::Greater)
        } else {
            match self.time.partial_cmp(&other.time) {
                Some(Ordering::Equal) => {
                    if self.count < other.count {
                        Some(Ordering::Less)
                    } else if self.count > other.count {
                        Some(Ordering::Greater)
                    } else {
                        Some(Ordering::Equal)
                    }
                },
                unequal => unequal,
            }
        }
    }
}

impl<T: PartialOrd> vstd::std_specs::cmp::PartialOrdSpecImpl for Timestamp<T> {
    open spec fn obeys_partial_cmp_spec() -> bool {
        T::obeys_partial_cmp_spec()
    }

    /// Timestamps compare by epoch, then by time, then by counter.
    open spec fn partial_cmp_spec(&self, other: &Self) -> Option<Ordering> {
        if self.epoch < other.epoch {
            Some(Ordering::Less)
        } else if self.epoch > other.epoch {
            Some(Ordering::Greater)
        } else {
            match self.time.partial_cmp_spec(&other.time) {
                Some(Ordering::Equal) => {
                    if self.count < other.count {
                        Some(Ordering::Less)
                    } else if self.count > other.count {
                        Some(Ordering::Greater)
                    } else {
                        Some(Ordering::Equal)
                    }
                },
                unequal => unequal,
            }
        }
    }
}

impl<T: TimePoint> Timestamp<T> {
    /// The order of timestamps: by epoch, then by time, then by counter.
    pub open spec fn before(self, other: Self) -> bool {
        ||| self.epoch < other.epoch
        ||| self.epoch == other.epoch && self.time.before(other.time)
        ||| self.epoch == other.epoch && self.time == other.time && self.count < other.count
    }

    /// `self` orders before `other` or is `other`.
    pub open spec fn not_after(self, other: Self) -> bool {
        self == other || self.before(other)
    }

    /// The order by epoch and time alone, the counters left aside.
    pub open spec fn slot_before(self, other: Self) -> bool {
        ||| self.epoch < other.epoch
        ||| self.epoch == other.epoch && self.time.before(other.time)
    }

    /// `self` and `other` have one epoch and one time.
    pub open spec fn same_slot(self, other: Self) -> bool {
        self.epoch == other.epoch && self.time == other.time
    }

    /// The counter after one more step: one more, but never past the largest
    /// counter there is.
    pub open spec fn stepped(count: u32) -> u32 {
        if count < u32::MAX {
            (count + 1) as u32
        } else {
            u32::MAX
        }
    }

    /// The timestamp that a clock holds after it held `self` and then saw
    /// `seen`.
    ///
    /// Where `seen` is ahead by epoch or time, it is taken as it is. Where the
    /// two have one epoch and one time and `seen` has the larger counter, the
    /// counter steps past that of `seen`. In every other case `self` keeps its
    /// epoch and time, and its counter steps by one. A counter that has no
    /// room for its step stays at the largest counter there is.
    pub open spec fn absorbing(self, seen: Self) -> Self {
        if self.slot_before(seen) {
            seen
        } else if self.same_slot(seen) && self.count < seen.count {
            Timestamp { epoch: self.epoch, time: self.time, count: Self::stepped(seen.count) }
        } else {
            Timestamp { epoch: self.epoch, time: self.time, count: Self::stepped(self.count) }
        }
    }

    /// Whether the counter has room for the step that `absorbing` takes.
    pub open spec fn can_absorb(self, seen: Self) -> bool {
        if self.slot_before(seen) {
            true
        } else if self.same_slot(seen) && self.count < seen.count {
            seen.count < u32::MAX
        } else {
            self.count < u32::MAX
        }
    }

    /// The comparison operators on timestamps go by `before`: `a < b` says
    /// that `a` orders before `b`, and `a == b` that the two are equal in all
    /// three fields.
    pub proof fn lemma_operators_go_by_before(a: Self, b: Self)
        ensures
            Self::obeys_partial_cmp_spec(),
            a.partial_cmp_spec(&b) == Some(Ordering::Less) <==> a.before(b),
            a.partial_cmp_spec(&b) == Some(Ordering::Equal) <==> a == b,
            a.partial_cmp_spec(&b) == Some(Ordering::Greater) <==> b.before(a),
    {
        T::lemma_operators_go_by_before(a.time, b.time);
        T::lemma_before_irreflexive(a.time);
    }

    /// No timestamp orders before itself.
    pub proof fn lemma_before_irreflexive(a: Self)
        ensures
            !a.before(a),
    {
        T::lemma_before_irreflexive(a.time);
    }

    /// The order of timestamps is transitive.
    pub proof fn lemma_before_transitive(a: Self, b: Self, c: Self)
        requires
            a.before(b),
            b.before(c),
        ensures
            a.before(c),
    {
        if a.epoch == b.epoch && b.epoch == c.epoch {
            if a.time.before(b.time) && b.time.before(c.time) {
                T::lemma_before_transitive(a.time, b.time, c.time);
            }
        }
    }

    /// Of two timestamps at most one orders before the other.
    pub proof fn lemma_before_asymmetric(a: Self, b: Self)
        requires
            a.before(b),
        ensures
            !b.before(a),
    {
        if b.before(a) {
            Self::lemma_before_transitive(a, b, a);
            Self::lemma_before_irreflexive(a);
        }
    }

    /// The order is total: two timestamps are equal, that is equal in all
    /// three fields, or one orders before the other.
    pub proof fn lemma_before_connected(a: Self, b: Self)
        ensures
            a == b || a.before(b) || b.before(a),
    {
        T::lemma_before_connected(a.time, b.time);
    }

    /// A timestamp of a later epoch orders after every timestamp of an
    /// earlier one, whatever their times and counters are.
    pub proof fn lemma_epoch_dominates(a: Self, b: Self)
        requires
            a.epoch < b.epoch,
        ensures
            a.before(b),
            !b.before(a),
    {
        Self::lemma_before_asymmetric(a, b);
    }

    /// What a clock holds after it saw a timestamp never orders before what
    /// it held, nor before what it saw. Where the counter had no room for the
    /// step, the clock keeps its epoch and time, and its counter stands at
    /// the largest counter there is.
    pub proof fn lemma_absorbing_never_moves_back(held: Self, seen: Self)
        ensures
            held.not_after(held.absorbing(seen)),
            seen.not_after(held.absorbing(seen)),
            !held.can_absorb(seen) ==> {
                &&& held.absorbing(seen).epoch == held.epoch
                &&& held.absorbing(seen).time == held.time
                &&& held.absorbing(seen).count == u32::MAX
            },
    {
        T::lemma_before_irreflexive(held.time);
        T::lemma_before_irreflexive(seen.time);
        T::lemma_before_connected(held.time, seen.time);
        if held.time.before(seen.time) && seen.time.before(held.time) {
            T::lemma_before_transitive(held.time, seen.time, held.time);
        }
    }

    /// Where the counter has room for the step, what a clock holds after it
    /// saw a timestamp orders strictly after what it held before; it is what
    /// it saw exactly where that was ahead by epoch or time, and orders
    /// strictly after what it saw everywhere else.
    pub proof fn lemma_absorbing_moves_forward(held: Self, seen: Self)
        requires
            held.can_absorb(seen),
        ensures
            held.before(held.absorbing(seen)),
            seen.not_after(held.absorbing(seen)),
            seen == held.absorbing(seen) <==> held.slot_before(seen),
    {
        T::lemma_before_irreflexive(held.time);
        T::lemma_before_irreflexive(seen.time);
        T::lemma_before_connected(held.time, seen.time);
        if held.time.before(seen.time) && seen.time.before(held.time) {
            T::lemma_before_transitive(held.time, seen.time, held.time);
        }
    }

    /// Tells whether the counter has room for the step that a clock takes
    /// when it holds `self` and sees `seen`.
    pub fn has_room_for(&self, seen: &Self) -> (b: bool)
        ensures
            b == self.can_absorb(*seen),
    {
        proof {
            T::lemma_before_irreflexive(self.time);
            T::lemma_before_connected(self.time, seen.time);
        }
        let ahead = if self.epoch != seen.epoch {
            self.epoch < seen.epoch
        } else {
            self.time.is_before(&seen.time)
        };
        if ahead {
            true
        } else if self.epoch == seen.epoch && self.count < seen.count && !seen.time.is_before(
            &self.time,
        ) {
            seen.count < u32::MAX
        } else {
            self.count < u32::MAX
        }
    }

    /// Tells whether `self` orders before `other`.
    pub fn is_before(&self, other: &Self) -> (b: bool)
        ensures
            b == self.before(*other),
    {
        if self.epoch != other.epoch {
            self.epoch < other.epoch
        } else if self.time.is_before(&other.time) {
            true
        } else if other.time.is_before(&self.time) {
            proof {
                T::lemma_before_irreflexive(self.time);
            }
            false
        } else {
            proof {
                T::lemma_before_connected(self.time, other.time);
            }
            self.count < other.count
        }
    }
}

impl<T> Timestamp<T> {
    /// The timestamp as the ordered triple of its epoch, time and counter:
    /// the form in which it is handed to a serializer.
    pub open spec fn as_triple(self) -> (u32, T, u32) {
        (self.epoch, self.time, self.count)
    }

    /// The timestamp that a triple of epoch, time and counter stands for.
    pub open spec fn of_triple(triple: (u32, T, u32)) -> Self {
        Timestamp { epoch: triple.0, time: triple.1, count: triple.2 }
    }

    /// A timestamp that went into its triple and came back is the timestamp
    /// that went in.
    pub proof fn lemma_triple_round_trip(self)
        ensures
            Self::of_triple(self.as_triple()) == self,
    {
    }

    /// A triple that went into its timestamp and came back is the triple
    /// that went in.
    pub proof fn lemma_timestamp_round_trip(triple: (u32, T, u32))
        ensures
            Self::of_triple(triple).as_triple() == triple,
    {
    }

    /// The epoch, the time and the counter, in this order.
    pub fn into_tuple(self) -> (triple: (u32, T, u32))
        ensures
            triple == self.as_triple(),
    {
        (self.epoch, self.time, self.count)
    }

    /// The timestamp of this epoch, time and counter.
    pub fn from_tuple(triple: (u32, T, u32)) -> (ts: Self)
        ensures
            ts == Self::of_triple(triple),
    {
        Timestamp { epoch: triple.0, time: triple.1, count: triple.2 }
    }

    /// The same timestamp with its time turned into a `U`.
    pub fn time_into<U: From<T>>(self) -> (ts: Timestamp<U>)
        ensures
            ts.epoch == self.epoch,
            ts.count == self.count,
            call_ensures(U::from, (self.time, ), ts.time),
            U::obeys_from_spec() ==> ts.time == U::from_spec(self.time),
    {
        Timestamp { epoch: self.epoch, time: U::from(self.time), count: self.count }
    }
}

impl<T: Render> Timestamp<T> {
    /// The timestamp as text: the epoch, a colon, the time, a plus sign and
    /// the counter.
    pub open spec fn text(self) -> Seq<char> {
        decimal(self.epoch as nat) + seq![':'] + self.time.text() + seq!['+'] + decimal(
            self.count as nat,
        )
    }

    /// Writes the timestamp out as text.
    pub fn to_string(&self) -> (s: String)
        ensures
            s@ == self.text(),
    {
        let mut s = String::new();
        push_decimal(&mut s, self.epoch as u128);
        push_char(&mut s, ':');
        self.time.render(&mut s);
        push_char(&mut s, '+');
        push_decimal(&mut s, self.count as u128);
        assert(s@ =~= self.text());
        s
    }
}

} // verus!
