//! The system clock read in ticks of 2^-16 seconds.

use crate::clock::Clock;
use crate::codec::{decode_key, encode_key, key_bytes, lemma_key_bytes_order, lex_before};
use crate::error::Error;
use crate::source::system::{
    nanos_since_epoch, since_unix_epoch, system_time_now, unix_epoch_plus, unix_time_at,
};
use crate::source::{ClockSource, NANOS_PER_SEC};
use crate::time::{Nanos, TimePoint};
use crate::timestamp::Timestamp;
use std::time::SystemTime;
use std::cmp::Ordering;
use vstd::prelude::*;
use vstd::std_specs::cmp::PartialOrdSpec;

verus! {

/// A clock source that reads the system clock in ticks of 2^-16 seconds since
/// the Unix epoch.
#[derive(Debug, Clone, Copy, PartialEq, Eq, PartialOrd, Ord)]
pub struct WallMS;

/// A time of the system clock: the ticks of 2^-16 seconds since the Unix
/// epoch.
#[derive(Debug, Clone, Copy, PartialEq, Eq, Ord, Hash, Structural)]
pub struct WallMST(u64);

impl View for WallMST {
    type V = u64;

    /// The ticks since the Unix epoch.
    closed spec fn view(&self) -> u64 {
        self.0
    }
}

impl WallMST {
    /// The number of ticks in a second: 2^16.
    pub const TICKS_PER_SEC: u64 = 65_536;

    /// The whole nanoseconds that `ticks` ticks take.
    pub open spec fn nanos_of_ticks(ticks: nat) -> nat {
        ticks * 1_000_000_000 / 65_536
    }

    /// The whole ticks that fit in `nanos` nanoseconds.
    pub open spec fn ticks_of_nanos(nanos: nat) -> nat {
        65_536 * nanos / 1_000_000_000
    }

    /// Later times are more nanoseconds after the Unix epoch: the times since
    /// the epoch order as the ticks do.
    pub proof fn lemma_nanos_of_ticks_order(a: nat, b: nat)
        ensures
            a < b <==> Self::nanos_of_ticks(a) < Self::nanos_of_ticks(b),
    {
        if a < b {
            assert(b * 1_000_000_000 >= a * 1_000_000_000 + 65_536);
        }
        if b < a {
            assert(a * 1_000_000_000 >= b * 1_000_000_000 + 65_536);
        }
    }

    /// A time that went into its nanoseconds since the Unix epoch and came
    /// back has lost one tick at most.
    pub proof fn lemma_ticks_round_trip(ticks: nat)
        ensures
            ticks - 1 <= Self::ticks_of_nanos(Self::nanos_of_ticks(ticks)) <= ticks,
    {
        let nanos: nat = Self::nanos_of_ticks(ticks);
        assert(65_536 * nanos <= ticks * 1_000_000_000);
        assert(65_536 * nanos > ticks * 1_000_000_000 - 65_536);
    }

    /// A time is its count of ticks and nothing else.
    pub proof fn lemma_view_injective(a: WallMST, b: WallMST)
        requires
            a@ == b@,
        ensures
            a == b,
    {
    }

    /// The length of time from the Unix epoch to this time, in whole
    /// nanoseconds.
    pub fn duration_since_epoch(self) -> (since_epoch: Nanos)
        ensures
            since_epoch.0 == Self::nanos_of_ticks(self@ as nat),
    {
        let (secs, nsecs) = self.secs_and_nanos();
        Nanos(secs as u128 * 1_000_000_000 + nsecs as u128)
    }

    /// The whole seconds since the Unix epoch, and the nanoseconds that the
    /// ticks beyond them take.
    fn secs_and_nanos(self) -> (parts: (u64, u32))
        ensures
            parts.1 < 1_000_000_000,
            parts.0 * 1_000_000_000 + parts.1 == Self::nanos_of_ticks(self@ as nat),
    {
        let secs: u64 = self.0 / Self::TICKS_PER_SEC;
        let minor_ticks: u64 = self.0 % Self::TICKS_PER_SEC;
        let nsecs: u64 = minor_ticks * NANOS_PER_SEC / Self::TICKS_PER_SEC;
        proof {
            let t: int = self.0 as int;
            assert(t * 1_000_000_000 == (secs * 1_000_000_000) * 65_536 + minor_ticks
                * 1_000_000_000);
            vstd::arithmetic::div_mod::lemma_fundamental_div_mod_converse(
                t * 1_000_000_000,
                65_536,
                secs * 1_000_000_000 + nsecs,
                (minor_ticks * 1_000_000_000) % 65_536,
            );
        }
        (secs, nsecs as u32)
    }

    /// Whether `r` is what the time `t` of the system clock reads as: the
    /// whole ticks in the nanoseconds by which `t` lies after the Unix epoch
    /// where they fit 64 bits, an integer conversion error where they do not,
    /// and the error of the system clock where `t` lies before the epoch.
    pub open spec fn reads_as(t: SystemTime, r: Result<WallMST, Error>) -> bool {
        match nanos_since_epoch(t) {
            Some(nanos) => if Self::ticks_of_nanos(nanos) <= u64::MAX {
                r matches Ok(time) && time@ == Self::ticks_of_nanos(nanos)
            } else {
                r matches Err(e) && e is FromInt
            },
            None => r matches Err(e) && e is SystemTime,
        }
    }

    /// This time as a time of the system clock: the time that lies the whole
    /// nanoseconds of these ticks after the Unix epoch, or `None` where the
    /// platform cannot represent it.
    pub fn as_systemtime(self) -> (r: Option<SystemTime>)
        ensures
            r == unix_time_at(Self::nanos_of_ticks(self@ as nat)),
    {
        let (secs, nsecs) = self.secs_and_nanos();
        unix_epoch_plus(secs, nsecs)
    }

    /// The time that `t` stands for: the nanoseconds by which `t` lies after
    /// the Unix epoch, rounded down to a tick. Fails with the error of the
    /// system clock where `t` lies before the epoch, and with an integer
    /// conversion error where it lies too far after it for 64 bits of ticks.
    pub fn from_timespec(t: SystemTime) -> (r: Result<Self, Error>)
        ensures
            Self::reads_as(t, r),
    {
        match since_unix_epoch(&t) {
            Ok((secs, subsec_nanos)) => {
                let since_epoch = Nanos(secs as u128 * 1_000_000_000 + subsec_nanos as u128);
                Self::from_since_epoch(since_epoch)
            },
            Err(e) => Err(Error::SystemTime(e)),
        }
    }

    /// The time that lies `since_epoch` after the Unix epoch, rounded down to
    /// a tick. Fails with the nanoseconds where the product of ticks per
    /// second and nanoseconds does not fit 128 bits, and with an integer
    /// conversion error where the ticks do not fit 64 bits.
    pub fn from_since_epoch(since_epoch: Nanos) -> (r: Result<Self, Error>)
        ensures
            match r {
                Ok(time) => {
                    &&& 65_536 * since_epoch.0 <= u128::MAX
                    &&& time@ == Self::ticks_of_nanos(since_epoch.0 as nat)
                },
                Err(Error::SupportedTime(nanos)) => {
                    &&& 65_536 * since_epoch.0 > u128::MAX
                    &&& nanos == since_epoch.0
                },
                Err(Error::FromInt(_)) => {
                    &&& 65_536 * since_epoch.0 <= u128::MAX
                    &&& Self::ticks_of_nanos(since_epoch.0 as nat) > u64::MAX
                },
                Err(_) => false,
            },
    {
        let scaled: u128 = match (Self::TICKS_PER_SEC as u128).checked_mul(since_epoch.0) {
            Some(scaled) => scaled,
            None => {
                return Err(Error::SupportedTime(since_epoch.0));
            },
        };
        let ticks: u128 = scaled / (NANOS_PER_SEC as u128);
        match u64::try_from(ticks) {
            Ok(ticks) => Ok(WallMST(ticks)),
            Err(e) => Err(Error::FromInt(e)),
        }
    }

    /// The ticks since the Unix epoch.
    pub fn as_u64(self) -> (val: u64)
        ensures
            val == self@,
    {
        self.0
    }

    /// The time that is `val` ticks after the Unix epoch.
    pub fn of_u64(val: u64) -> (time: Self)
        ensures
            time@ == val,
    {
        WallMST(val)
    }
}

impl PartialOrd for WallMST {
    fn partial_cmp(&self, other: &Self) -> (r: Option<Ordering>) {
        self.0.partial_cmp(&other.0)
    }
}

impl vstd::std_specs::cmp::PartialOrdSpecImpl for WallMST {
    open spec fn obeys_partial_cmp_spec() -> bool {
        true
    }

    /// Times compare as their ticks do.
    open spec fn partial_cmp_spec(&self, other: &Self) -> Option<Ordering> {
        if self@ < other@ {
            Some(Ordering::Less)
        } else if self@ > other@ {
            Some(Ordering::Greater)
        } else {
            Some(Ordering::Equal)
        }
    }
}

impl TimePoint for WallMST {
    type Delta = Nanos;

    open spec fn before(self, other: Self) -> bool {
        self@ < other@
    }

    proof fn lemma_before_irreflexive(a: Self) {
    }

    proof fn lemma_before_transitive(a: Self, b: Self, c: Self) {
    }

    proof fn lemma_before_connected(a: Self, b: Self) {
    }

    proof fn lemma_operators_go_by_before(a: Self, b: Self) {
        if a@ == b@ {
            Self::lemma_view_injective(a, b);
        }
    }

    /// The ticks between the two, each counted as its whole nanoseconds.
    open spec fn lead_over(self, base: Self) -> Nanos {
        if self@ > base@ {
            Nanos(((self@ - base@) * 15_258) as u128)
        } else {
            Nanos(0)
        }
    }

    proof fn lemma_no_lead_within_any_limit(a: Self, base: Self, limit: Nanos) {
    }

    fn is_before(&self, other: &Self) -> (b: bool) {
        self.0 < other.0
    }

    fn offset_from(self, base: Self) -> (d: Nanos) {
        let ticks: u64 = self.0.saturating_sub(base.0);
        let nanos_per_tick: u64 = NANOS_PER_SEC / Self::TICKS_PER_SEC;
        assert(ticks * nanos_per_tick == ticks * 15_258) by (nonlinear_arith)
            requires
                nanos_per_tick == 15_258,
        ;
        Nanos(ticks as u128 * (nanos_per_tick as u128))
    }
}

impl ClockSource for WallMS {
    type Time = WallMST;

    type Delta = Nanos;

    /// A read hands out what some time of the system clock reads as.
    open spec fn yields(self, reading: Result<WallMST, Error>, next: Self) -> bool {
        exists|t: SystemTime| #[trigger] WallMST::reads_as(t, reading)
    }

    fn now(&mut self) -> (reading: Result<WallMST, Error>) {
        WallMST::from_timespec(system_time_now())
    }
}

impl Clock<WallMS> {
    /// A clock over the system clock read in ticks of 2^-16 seconds.
    pub fn wall_ms() -> (r: Result<Clock<WallMS>, Error>)
        ensures
            match r {
                Ok(c) => {
                    &&& c.epoch() == 0
                    &&& c.last().epoch == 0
                    &&& c.last().count == 0
                    &&& exists|t: SystemTime| #[trigger] WallMST::reads_as(t, Ok(c.last().time))
                },
                Err(e) => (e is SystemTime || e is FromInt) && exists|t: SystemTime| #[trigger]
                    WallMST::reads_as(t, Err(e)),
            },
    {
        Clock::new(WallMS)
    }
}

impl Timestamp<WallMST> {
    /// The sixteen bytes that stand for this timestamp: four of the epoch,
    /// eight of the ticks, four of the counter, each with the most
    /// significant byte first.
    pub open spec fn encoded(self) -> Seq<u8> {
        key_bytes(self.epoch, self.time@, self.count)
    }

    /// What `from_bytes` makes of the bytes that `to_bytes` gave is the
    /// timestamp that they were made from: no two timestamps have the same
    /// bytes.
    pub proof fn lemma_bytes_round_trip(self, back: Self)
        requires
            back.encoded() == self.encoded(),
        ensures
            back == self,
    {
        lemma_key_bytes_order(
            self.epoch,
            self.time@,
            self.count,
            back.epoch,
            back.time@,
            back.count,
        );
        WallMST::lemma_view_injective(self.time, back.time);
    }

    /// The bytes of two timestamps, compared byte by byte as unsigned
    /// numbers, order as the timestamps do.
    pub proof fn lemma_bytes_order(self, other: Self)
        ensures
            self.before(other) <==> lex_before(self.encoded(), other.encoded()),
            self == other <==> self.encoded() == other.encoded(),
            other.before(self) <==> lex_before(other.encoded(), self.encoded()),
    {
        lemma_key_bytes_order(
            self.epoch,
            self.time@,
            self.count,
            other.epoch,
            other.time@,
            other.count,
        );
        lemma_key_bytes_order(
            other.epoch,
            other.time@,
            other.count,
            self.epoch,
            self.time@,
            self.count,
        );
        if self.time@ == other.time@ {
            WallMST::lemma_view_injective(self.time, other.time);
        }
    }

    /// The sixteen bytes of this timestamp.
    pub fn to_bytes(&self) -> (bytes: [u8; 16])
        ensures
            bytes@ == self.encoded(),
    {
        encode_key(self.epoch, self.time.0, self.count)
    }

    /// The timestamp that `bytes` stand for: the one whose bytes they are.
    pub fn from_bytes(bytes: [u8; 16]) -> (ts: Self)
        ensures
            ts.encoded() == bytes@,
    {
        let (epoch, ticks, count) = decode_key(&bytes);
        Timestamp { epoch: epoch, time: WallMST(ticks), count: count }
    }
}

} // verus!
