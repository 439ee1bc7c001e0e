//! What a clock holds over a run of calls, and the law that the timestamps it
//! hands out only ever move forward.

use crate::time::TimePoint;
use crate::timestamp::Timestamp;
use vstd::prelude::*;

verus! {

/// One call on a clock, as far as the timestamp that the clock holds goes.
pub enum Call<T> {
    /// A call of `now` in which the source gave this reading.
    Now(T),
    /// A call of `observe` with this timestamp.
    Observe(Timestamp<T>),
    /// A call of `set_epoch` with this epoch.
    SetEpoch(u32),
}

/// The part of a clock that its calls go by: the epoch for the readings to
/// come, and the timestamp that the clock holds.
pub struct Held<T> {
    /// The epoch that readings are stamped with.
    pub epoch: u32,
    /// The timestamp that the clock holds.
    pub last: Timestamp<T>,
}

impl<T: TimePoint> Held<T> {
    /// Whether the counter has room for what `call` does.
    pub open spec fn permits(self, call: Call<T>) -> bool {
        match call {
            Call::Now(t) => self.last.can_absorb(Timestamp { epoch: self.epoch, time: t, count: 0 }),
            Call::Observe(msg) => self.last.can_absorb(msg),
            Call::SetEpoch(_) => true,
        }
    }

    /// What the clock holds after `call`.
    pub open spec fn after(self, call: Call<T>) -> Self {
        match call {
            Call::Now(t) => Held {
                epoch: self.epoch,
                last: self.last.absorbing(Timestamp { epoch: self.epoch, time: t, count: 0 }),
            },
            Call::Observe(msg) => Held { epoch: self.epoch, last: self.last.absorbing(msg) },
            Call::SetEpoch(epoch) => Held { epoch: epoch, last: self.last },
        }
    }

    /// What the clock holds after all of `calls`, made in their order.
    pub open spec fn after_all(self, calls: Seq<Call<T>>) -> Self
        decreases calls.len(),
    {
        if calls.len() == 0 {
            self
        } else {
            self.after_all(calls.drop_last()).after(calls.last())
        }
    }

    /// No call moves the held timestamp back: what a clock holds after the
    /// first `k` of its calls does not order after what it holds after the
    /// first `l`, for `k <= l`.
    pub proof fn lemma_never_moves_back(self, calls: Seq<Call<T>>, k: int, l: int)
        requires
            0 <= k <= l <= calls.len(),
        ensures
            self.after_all(calls.take(k)).last.not_after(self.after_all(calls.take(l)).last),
        decreases l - k,
    {
        if k < l {
            let before = self.after_all(calls.take(l - 1));
            let after = self.after_all(calls.take(l));
            self.lemma_never_moves_back(calls, k, l - 1);
            assert(calls.take(l).drop_last() == calls.take(l - 1));
            assert(calls.take(l).last() == calls[l - 1]);
            match calls[l - 1] {
                Call::Now(t) => {
                    Timestamp::lemma_absorbing_never_moves_back(
                        before.last,
                        Timestamp { epoch: before.epoch, time: t, count: 0 },
                    );
                },
                Call::Observe(msg) => {
                    Timestamp::lemma_absorbing_never_moves_back(before.last, msg);
                },
                Call::SetEpoch(_) => {},
            }
            let first = self.after_all(calls.take(k)).last;
            if first.before(before.last) && before.last.before(after.last) {
                Timestamp::lemma_before_transitive(first, before.last, after.last);
            }
        }
    }

    /// Monotonicity. Over any run of calls on one clock, the timestamp that a
    /// call of `now` hands out orders strictly after the timestamp that every
    /// earlier call of `now` handed out, and strictly after every timestamp
    /// that was passed to an earlier call of `observe`, so long as the counter
    /// has room for the step of that call of `now`.
    pub proof fn lemma_monotonic(self, calls: Seq<Call<T>>, i: int, j: int)
        requires
            0 <= i < j < calls.len(),
            calls[j] is Now,
            self.after_all(calls.take(j)).permits(calls[j]),
        ensures
            calls[i] is Now ==> self.after_all(calls.take(i + 1)).last.before(
                self.after_all(calls.take(j + 1)).last,
            ),
            calls[i] matches Call::Observe(msg) ==> msg.before(
                self.after_all(calls.take(j + 1)).last,
            ),
    {
        let at_i = self.after_all(calls.take(i + 1));
        let before_i = self.after_all(calls.take(i));
        let before_j = self.after_all(calls.take(j));
        let at_j = self.after_all(calls.take(j + 1));
        self.lemma_never_moves_back(calls, i + 1, j);
        assert(calls.take(j + 1).drop_last() == calls.take(j));
        assert(calls.take(j + 1).last() == calls[j]);
        assert(calls.take(i + 1).drop_last() == calls.take(i));
        assert(calls.take(i + 1).last() == calls[i]);
        let read = Timestamp { epoch: before_j.epoch, time: calls[j]->Now_0, count: 0 };
        Timestamp::lemma_absorbing_moves_forward(before_j.last, read);
        if at_i.last.before(before_j.last) {
            Timestamp::lemma_before_transitive(at_i.last, before_j.last, at_j.last);
        }
        if let Call::Observe(msg) = calls[i] {
            Timestamp::lemma_absorbing_never_moves_back(before_i.last, msg);
            if msg.before(at_i.last) {
                Timestamp::lemma_before_transitive(msg, at_i.last, at_j.last);
            }
        }
    }

    /// Over any run of calls on one clock, no timestamp that a call of `now`
    /// hands out orders before one that was handed out or observed earlier,
    /// whether the counter has room or not.
    pub proof fn lemma_never_behind(self, calls: Seq<Call<T>>, i: int, j: int)
        requires
            0 <= i < j < calls.len(),
            calls[j] is Now,
        ensures
            calls[i] is Now ==> self.after_all(calls.take(i + 1)).last.not_after(
                self.after_all(calls.take(j + 1)).last,
            ),
            calls[i] matches Call::Observe(msg) ==> msg.not_after(
                self.after_all(calls.take(j + 1)).last,
            ),
    {
        let at_i = self.after_all(calls.take(i + 1));
        let before_i = self.after_all(calls.take(i));
        let at_j = self.after_all(calls.take(j + 1));
        self.lemma_never_moves_back(calls, i + 1, j + 1);
        assert(calls.take(i + 1).drop_last() == calls.take(i));
        assert(calls.take(i + 1).last() == calls[i]);
        if let Call::Observe(msg) = calls[i] {
            Timestamp::lemma_absorbing_never_moves_back(before_i.last, msg);
            if msg.before(at_i.last) && at_i.last.before(at_j.last) {
                Timestamp::lemma_before_transitive(msg, at_i.last, at_j.last);
            }
        }
    }
}

} // verus!
