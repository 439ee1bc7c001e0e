//! The clock, which hands out timestamps and takes in those of others, and
//! the limiter that refuses timestamps from too far ahead.

use crate::error::Error;
use crate::history::{Call, Held};
use crate::source::manual::ManualClock;
use crate::source::ClockSource;
use crate::time::{Offset, TimePoint};
use crate::timestamp::Timestamp;
use vstd::prelude::*;

verus! {

/// A hybrid logical clock over the source of physical time `S`.
#[derive(Debug, Clone)]
pub struct Clock<S: ClockSource> {
    src: S,
    epoch: u32,
    last_observed: Timestamp<S::Time>,
}

/// A clock that refuses to take in timestamps whose time lies further ahead
/// of the local time than a limit allows.
#[derive(Debug, Clone)]
pub struct OffsetLimiter<S: ClockSource> {
    clock: Clock<S>,
    max_offset: S::Delta,
}

impl Clock<ManualClock> {
    /// A clock over a source that is set by hand, starting at time `t`.
    pub fn manual(t: u64) -> (r: Result<Clock<ManualClock>, Error>)
        ensures
            r matches Ok(c) && c.epoch() == 0 && c.source().time() == t && c.last() == (Timestamp {
                epoch: 0,
                time: t,
                count: 0,
            }),
    {
        Clock::new(ManualClock::new(t))
    }

    /// Sets the time of the clock's source to `t`.
    pub fn set_time(&mut self, t: u64)
        ensures
            final(self).source().time() == t,
            final(self).epoch() == old(self).epoch(),
            final(self).last() == old(self).last(),
    {
        self.src.set_time(t)
    }
}

impl<S: ClockSource> Clock<S> {
    /// The source of physical time.
    pub closed spec fn source(self) -> S {
        self.src
    }

    /// The epoch that the next readings of the source are stamped with.
    pub closed spec fn epoch(self) -> u32 {
        self.epoch
    }

    /// The timestamp that the clock holds: the last one it handed out or
    /// arrived at by taking one in.
    pub closed spec fn last(self) -> Timestamp<S::Time> {
        self.last_observed
    }

    /// The part of the clock that its calls go by.
    pub open spec fn held(self) -> Held<S::Time> {
        Held { epoch: self.epoch(), last: self.last() }
    }

    /// The timestamp that stands for a reading `t` of the source.
    pub open spec fn reading(self, t: S::Time) -> Timestamp<S::Time> {
        Timestamp { epoch: self.epoch(), time: t, count: 0 }
    }

    /// Whether the counter has room for the step of a call of `now`, whatever
    /// the source reads: the clock's epoch is ahead of that of the held
    /// timestamp, so that any reading is taken as it is, or the counter can
    /// step once more.
    pub open spec fn room_to_read(self) -> bool {
        self.last().epoch < self.epoch() || self.last().count < u32::MAX
    }

    /// `room_to_read` says when every reading is permitted.
    pub proof fn lemma_room_to_read(self)
        ensures
            self.room_to_read() <==> forall|t: S::Time| #[trigger] self.held().permits(Call::Now(t)),
    {
        S::Time::lemma_before_irreflexive(self.last().time);
        if !self.room_to_read() {
            assert(!self.held().permits(Call::Now(self.last().time)));
        }
    }

    /// A clock over `src` in epoch 0, which holds the first reading of `src`
    /// with counter 0. Fails where that reading fails.
    pub fn new(src: S) -> (r: Result<Self, Error>)
        ensures
            match r {
                Ok(c) => {
                    &&& src.yields(Ok(c.last().time), c.source())
                    &&& c.epoch() == 0
                    &&& c.last().epoch == 0
                    &&& c.last().count == 0
                },
                Err(e) => exists|next: S| #[trigger] src.yields(Err(e), next),
            },
    {
        let mut src = src;
        match src.now() {
            Ok(init) => Ok(
                Clock { src: src, last_observed: Timestamp { epoch: 0, time: init, count: 0 }, epoch: 0 },
            ),
            Err(e) => Err(e),
        }
    }

    /// Turns the clock into one that takes in no timestamp whose time is more
    /// than `max_offset` ahead of the local time.
    pub fn with_max_diff(self, max_offset: S::Delta) -> (limiter: OffsetLimiter<S>)
        ensures
            limiter.clock() == self,
            limiter.max_offset() == max_offset,
    {
        OffsetLimiter { clock: self, max_offset }
    }

    /// Sets the epoch for the readings to come. The timestamp that the clock
    /// holds stays as it is until the next reading or observation.
    pub fn set_epoch(&mut self, epoch: u32)
        ensures
            final(self).epoch() == epoch,
            final(self).last() == old(self).last(),
            final(self).source() == old(self).source(),
            final(self).held() == old(self).held().after(Call::SetEpoch(epoch)),
    {
        self.epoch = epoch;
    }

    /// The timestamp that the clock holds.
    pub fn last_observed(&self) -> (ts: Timestamp<S::Time>)
        ensures
            ts == self.last(),
    {
        self.last_observed
    }

    /// Tells whether the counter has room for the step of a call of `now`,
    /// whatever the source reads.
    pub fn can_now(&self) -> (b: bool)
        ensures
            b == self.room_to_read(),
    {
        self.last_observed.epoch < self.epoch || self.last_observed.count < u32::MAX
    }

    /// Tells whether the counter has room for the step of a call of `observe`
    /// with `msg`.
    pub fn can_observe(&self, msg: &Timestamp<S::Time>) -> (b: bool)
        ensures
            b == self.last().can_absorb(*msg),
    {
        self.last_observed.has_room_for(msg)
    }

    /// Hands out a timestamp for an event of this clock: what the clock held,
    /// having absorbed a fresh reading of the source. It never orders before
    /// what the clock held, and orders strictly after it wherever the counter
    /// had room for the step. Fails, and leaves the held timestamp as it was,
    /// where the reading fails.
    pub fn now(&mut self) -> (r: Result<Timestamp<S::Time>, Error>)
        ensures
            final(self).epoch() == old(self).epoch(),
            match r {
                Ok(ts) => {
                    &&& final(self).last() == ts
                    &&& old(self).last().not_after(ts)
                    &&& old(self).room_to_read() ==> old(self).last().before(ts)
                    &&& exists|t: S::Time|
                        {
                            &&& #[trigger] old(self).source().yields(Ok(t), final(self).source())
                            &&& ts == old(self).last().absorbing(old(self).reading(t))
                            &&& final(self).held() == old(self).held().after(Call::Now(t))
                            &&& old(self).held().permits(Call::Now(t)) ==> old(self).last().before(
                                ts,
                            )
                        }
                },
                Err(e) => {
                    &&& final(self).last() == old(self).last()
                    &&& old(self).source().yields(Err(e), final(self).source())
                },
            },
    {
        proof {
            self.lemma_room_to_read();
        }
        match self.read_pt() {
            Ok(pt) => {
                proof {
                    Timestamp::lemma_absorbing_never_moves_back(self.last_observed, pt);
                    if self.held().permits(Call::Now(pt.time)) {
                        Timestamp::lemma_absorbing_moves_forward(self.last_observed, pt);
                    }
                }
                self.do_observe(&pt);
                Ok(self.last_observed)
            },
            Err(e) => Err(e),
        }
    }

    /// Moves the held timestamp on by the rule of `Timestamp::absorbing`.
    fn do_observe(&mut self, observation: &Timestamp<S::Time>)
        ensures
            final(self).last() == old(self).last().absorbing(*observation),
            final(self).epoch() == old(self).epoch(),
            final(self).source() == old(self).source(),
    {
        let lp = self.last_observed;
        let ahead = if lp.epoch != observation.epoch {
            lp.epoch < observation.epoch
        } else {
            lp.time.is_before(&observation.time)
        };
        let behind_by_count = lp.epoch == observation.epoch && lp.count < observation.count
            && !observation.time.is_before(&lp.time);
        proof {
            S::Time::lemma_before_connected(lp.time, observation.time);
            S::Time::lemma_before_irreflexive(lp.time);
        }
        let next = if ahead {
            *observation
        } else if behind_by_count {
            Timestamp { epoch: lp.epoch, time: lp.time, count: observation.count.saturating_add(1) }
        } else {
            Timestamp { epoch: lp.epoch, time: lp.time, count: lp.count.saturating_add(1) }
        };
        self.last_observed = next;
    }

    /// Takes in the timestamp of a message that arrived, so that no
    /// timestamp handed out from now on orders before it. The held timestamp
    /// never moves back, and moves strictly forward wherever the counter has
    /// room for the step; where it has none, the clock keeps its epoch and
    /// time, and its counter stands at the largest counter there is.
    pub fn observe(&mut self, msg: &Timestamp<S::Time>)
        ensures
            final(self).last() == old(self).last().absorbing(*msg),
            final(self).epoch() == old(self).epoch(),
            final(self).source() == old(self).source(),
            final(self).held() == old(self).held().after(Call::Observe(*msg)),
            old(self).last().not_after(final(self).last()),
            msg.not_after(final(self).last()),
            old(self).last().can_absorb(*msg) ==> old(self).last().before(final(self).last()),
            !old(self).last().can_absorb(*msg) ==> {
                &&& final(self).last().epoch == old(self).last().epoch
                &&& final(self).last().time == old(self).last().time
                &&& final(self).last().count == u32::MAX
            },
    {
        proof {
            Timestamp::lemma_absorbing_never_moves_back(self.last_observed, *msg);
            if self.last_observed.can_absorb(*msg) {
                Timestamp::lemma_absorbing_moves_forward(self.last_observed, *msg);
            }
        }
        self.do_observe(msg);
    }

    /// Reads the source and stamps the reading with the clock's epoch and
    /// counter 0.
    fn read_pt(&mut self) -> (r: Result<Timestamp<S::Time>, Error>)
        ensures
            final(self).epoch() == old(self).epoch(),
            final(self).last() == old(self).last(),
            match r {
                Ok(pt) => {
                    &&& pt == old(self).reading(pt.time)
                    &&& old(self).source().yields(Ok(pt.time), final(self).source())
                },
                Err(e) => old(self).source().yields(Err(e), final(self).source()),
            },
    {
        match self.src.now() {
            Ok(t) => Ok(Timestamp { epoch: self.epoch, time: t, count: 0 }),
            Err(e) => Err(e),
        }
    }
}

impl<S: ClockSource> OffsetLimiter<S> {
    /// The clock behind the limiter.
    pub closed spec fn clock(self) -> Clock<S> {
        self.clock
    }

    /// The furthest that the time of an observed timestamp may lie ahead of
    /// the local time.
    pub closed spec fn max_offset(self) -> S::Delta {
        self.max_offset
    }

    /// Whether a timestamp of time `seen` is refused when the local time is
    /// `local`: where `seen` lies ahead of `local` by more than the limit.
    pub open spec fn refuses(self, local: S::Time, seen: S::Time) -> bool {
        seen.lead_over(local).longer_than(self.max_offset())
    }

    /// Takes in the timestamp of a message that arrived, unless its time lies
    /// more than the limit ahead of a fresh reading of the source. Where it is
    /// refused, or the reading fails, the held timestamp stays as it was.
    pub fn observe(&mut self, msg: &Timestamp<S::Time>) -> (r: Result<(), Error>)
        ensures
            final(self).max_offset() == old(self).max_offset(),
            final(self).clock().epoch() == old(self).clock().epoch(),
            match r {
                Ok(_) => {
                    &&& final(self).clock().last() == old(self).clock().last().absorbing(*msg)
                    &&& final(self).clock().held() == old(self).clock().held().after(
                        Call::Observe(*msg),
                    )
                    &&& old(self).clock().last().not_after(final(self).clock().last())
                    &&& msg.not_after(final(self).clock().last())
                    &&& old(self).clock().last().can_absorb(*msg) ==> old(self).clock().last().before(
                        final(self).clock().last(),
                    )
                    &&& exists|t: S::Time|
                        {
                            &&& #[trigger] old(self).clock().source().yields(
                                Ok(t),
                                final(self).clock().source(),
                            )
                            &&& !old(self).refuses(t, msg.time)
                        }
                },
                Err(e) => {
                    &&& final(self).clock().last() == old(self).clock().last()
                    &&& {
                        ||| old(self).clock().source().yields(Err(e), final(self).clock().source())
                        ||| e == Error::OffsetTooGreat && exists|t: S::Time|
                            {
                                &&& #[trigger] old(self).clock().source().yields(
                                    Ok(t),
                                    final(self).clock().source(),
                                )
                                &&& old(self).refuses(t, msg.time)
                            }
                    }
                },
            },
    {
        match self.clock.read_pt() {
            Ok(pt) => match self.verify_offset(&pt, msg) {
                Ok(_) => {
                    self.clock.observe(msg);
                    Ok(())
                },
                Err(e) => Err(e),
            },
            Err(e) => Err(e),
        }
    }

    /// Hands out a timestamp for an event of this clock, as `Clock::now`
    /// does.
    pub fn now(&mut self) -> (r: Result<Timestamp<S::Time>, Error>)
        ensures
            final(self).max_offset() == old(self).max_offset(),
            final(self).clock().epoch() == old(self).clock().epoch(),
            match r {
                Ok(ts) => {
                    &&& final(self).clock().last() == ts
                    &&& old(self).clock().last().not_after(ts)
                    &&& old(self).clock().room_to_read() ==> old(self).clock().last().before(ts)
                    &&& exists|t: S::Time|
                        {
                            &&& #[trigger] old(self).clock().source().yields(
                                Ok(t),
                                final(self).clock().source(),
                            )
                            &&& ts == old(self).clock().last().absorbing(old(self).clock().reading(t))
                            &&& final(self).clock().held() == old(self).clock().held().after(
                                Call::Now(t),
                            )
                        }
                },
                Err(e) => {
                    &&& final(self).clock().last() == old(self).clock().last()
                    &&& old(self).clock().source().yields(Err(e), final(self).clock().source())
                },
            },
    {
        self.clock.now()
    }

    /// Decides whether a timestamp `msg` may be taken in when the local
    /// reading is `pt`: it is refused where its time lies ahead of that of
    /// `pt` by more than the limit. One that is not ahead is never refused.
    pub fn verify_offset(&self, pt: &Timestamp<S::Time>, msg: &Timestamp<S::Time>) -> (r: Result<
        (),
        Error,
    >)
        ensures
            r == if self.refuses(pt.time, msg.time) {
                Err::<(), Error>(Error::OffsetTooGreat)
            } else {
                Ok::<(), Error>(())
            },
            !pt.time.before(msg.time) ==> r is Ok,
    {
        proof {
            if !pt.time.before(msg.time) {
                S::Time::lemma_no_lead_within_any_limit(msg.time, pt.time, self.max_offset);
            }
        }
        let diff = msg.time.offset_from(pt.time);
        if diff.exceeds(&self.max_offset) {
            return Err(Error::OffsetTooGreat);
        }
        Ok(())
    }

    /// Gives the clock back.
    pub fn into_inner(self) -> (clock: Clock<S>)
        ensures
            clock == self.clock(),
    {
        self.clock
    }

    /// The clock behind the limiter.
    pub fn inner(&self) -> (clock: &Clock<S>)
        ensures
            *clock == self.clock(),
    {
        &self.clock
    }

    /// The clock behind the limiter, to be changed in place. The limit stays.
    pub fn inner_mut(&mut self) -> (clock: &mut Clock<S>)
        ensures
            *clock == old(self).clock(),
            final(self).clock() == *final(clock),
            final(self).max_offset() == old(self).max_offset(),
    {
        &mut self.clock
    }
}

} // verus!
