//! The system clock read in nanoseconds.

use crate::clock::Clock;
use crate::codec::{decode_key, encode_key, key_bytes, lemma_key_bytes_order, lex_before, KEY_LEN};
use crate::error::Error;
use crate::source::system::{
    nanos_since_epoch, since_unix_epoch, system_time_now, unix_epoch_plus, unix_time_at,
};
use crate::source::{ClockSource, NANOS_PER_SEC};
use crate::time::{Nanos, TimePoint};
use crate::timestamp::Timestamp;
use std::time::SystemTime;
use std::cmp::Ordering;
use vstd::prelude::*;
use vstd::std_specs::cmp::PartialOrdSpec;
use vstd::std_specs::convert::FromSpecImpl;

pub mod v1;

verus! {

/// A clock source that reads the system clock in nanoseconds since the Unix
/// epoch.
#[derive(Debug, Clone, Copy, PartialEq, Eq, PartialOrd, Ord)]
pub struct WallNS;

/// A time of the system clock: the nanoseconds since the Unix epoch.
#[derive(Debug, Clone, Copy, PartialEq, Eq, Ord, Hash, Structural)]
pub struct WallNST(u64);

impl View for WallNST {
    type V = u64;

    /// The nanoseconds since the Unix epoch.
    closed spec fn view(&self) -> u64 {
        self.0
    }
}

impl WallNST {
    /// A time is its count of nanoseconds and nothing else.
    pub proof fn lemma_view_injective(a: WallNST, b: WallNST)
        requires
            a@ == b@,
        ensures
            a == b,
    {
    }

    /// The length of time from the Unix epoch to this time.
    pub fn duration_since_epoch(self) -> (since_epoch: Nanos)
        ensures
            since_epoch.0 == self@,
    {
        Nanos(self.0 as u128)
    }

    /// Whether `r` is what the time `t` of the system clock reads as: the
    /// nanoseconds by which `t` lies after the Unix epoch where they fit 64
    /// bits, an integer conversion error where they do not, and the error of
    /// the system clock where `t` lies before the epoch.
    pub open spec fn reads_as(t: SystemTime, r: Result<WallNST, Error>) -> bool {
        match nanos_since_epoch(t) {
            Some(nanos) => if nanos <= u64::MAX {
                r matches Ok(time) && time@ == nanos
            } else {
                r matches Err(e) && e is FromInt
            },
            None => r matches Err(e) && e is SystemTime,
        }
    }

    /// This time as a time of the system clock: the time that lies this many
    /// nanoseconds after the Unix epoch, or `None` where the platform cannot
    /// represent it.
    pub fn as_timespec(self) -> (r: Option<SystemTime>)
        ensures
            r == unix_time_at(self@ as nat),
    {
        let secs: u64 = self.0 / NANOS_PER_SEC;
        let nsecs: u64 = self.0 % NANOS_PER_SEC;
        unix_epoch_plus(secs, nsecs as u32)
    }

    /// The time that `t` stands for: the nanoseconds by which `t` lies after
    /// the Unix epoch, from which `as_timespec` makes `t` again. Fails with
    /// the error of the system clock where `t` lies before the epoch, and
    /// with an integer conversion error where it lies too far after it for 64
    /// bits of nanoseconds.
    pub fn from_timespec(t: SystemTime) -> (r: Result<Self, Error>)
        ensures
            Self::reads_as(t, r),
            r matches Ok(time) ==> unix_time_at(time@ as nat) == Some(t),
    {
        match since_unix_epoch(&t) {
            Ok((secs, subsec_nanos)) => {
                let since_epoch = Nanos(secs as u128 * 1_000_000_000 + subsec_nanos as u128);
                Self::from_since_epoch(since_epoch)
            },
            Err(e) => Err(Error::SystemTime(e)),
        }
    }

    /// The time that lies `since_epoch` after the Unix epoch. Fails where its
    /// nanoseconds do not fit 64 bits.
    pub fn from_since_epoch(since_epoch: Nanos) -> (r: Result<Self, Error>)
        ensures
            match r {
                Ok(time) => since_epoch.0 <= u64::MAX && time@ == since_epoch.0,
                Err(e) => since_epoch.0 > u64::MAX && e is FromInt,
            },
    {
        match u64::try_from(since_epoch.0) {
            Ok(nanos) => Ok(Self::of_nanos(nanos)),
            Err(e) => Err(Error::FromInt(e)),
        }
    }

    /// The nanoseconds since the Unix epoch.
    pub fn as_u64(self) -> (val: u64)
        ensures
            val == self@,
    {
        self.0
    }

    /// The time that is `val` nanoseconds after the Unix epoch.
    pub fn of_u64(val: u64) -> (time: Self)
        ensures
            time@ == val,
    {
        WallNST(val)
    }

    fn of_nanos(nanos: u64) -> (time: Self)
        ensures
            time@ == nanos,
    {
        WallNST(nanos)
    }
}

impl From<v1::WallNST> for WallNST {
    fn from(old: v1::WallNST) -> (time: Self)
        ensures
            time@ == old@,
    {
        WallNST(old.into_tuple().0)
    }
}

impl FromSpecImpl<v1::WallNST> for WallNST {
    open spec fn obeys_from_spec() -> bool {
        true
    }

    closed spec fn from_spec(old: v1::WallNST) -> Self {
        WallNST(old@)
    }
}

impl PartialOrd for WallNST {
    fn partial_cmp(&self, other: &Self) -> (r: Option<Ordering>) {
        self.0.partial_cmp(&other.0)
    }
}

impl vstd::std_specs::cmp::PartialOrdSpecImpl for WallNST {
    open spec fn obeys_partial_cmp_spec() -> bool {
        true
    }

    /// Times compare as their nanoseconds do.
    open spec fn partial_cmp_spec(&self, other: &Self) -> Option<Ordering> {
        if self@ < other@ {
            Some(Ordering::Less)
        } else if self@ > other@ {
            Some(Ordering::Greater)
        } else {
            Some(Ordering::Equal)
        }
    }
}

impl TimePoint for WallNST {
    type Delta = Nanos;

    open spec fn before(self, other: Self) -> bool {
        self@ < other@
    }

    proof fn lemma_before_irreflexive(a: Self) {
    }

    proof fn lemma_before_transitive(a: Self, b: Self, c: Self) {
    }

    proof fn lemma_before_connected(a: Self, b: Self) {
    }

    proof fn lemma_operators_go_by_before(a: Self, b: Self) {
        if a@ == b@ {
            Self::lemma_view_injective(a, b);
        }
    }

    open spec fn lead_over(self, base: Self) -> Nanos {
        if self@ > base@ {
            Nanos((self@ - base@) as u128)
        } else {
            Nanos(0)
        }
    }

    proof fn lemma_no_lead_within_any_limit(a: Self, base: Self, limit: Nanos) {
    }

    fn is_before(&self, other: &Self) -> (b: bool) {
        self.0 < other.0
    }

    fn offset_from(self, base: Self) -> (d: Nanos) {
        Nanos(self.0.saturating_sub(base.0) as u128)
    }
}

impl ClockSource for WallNS {
    type Time = WallNST;

    type Delta = Nanos;

    /// A read hands out what some time of the system clock reads as.
    open spec fn yields(self, reading: Result<WallNST, Error>, next: Self) -> bool {
        exists|t: SystemTime| #[trigger] WallNST::reads_as(t, reading)
    }

    fn now(&mut self) -> (reading: Result<WallNST, Error>) {
        WallNST::from_timespec(system_time_now())
    }
}

impl Clock<WallNS> {
    /// A clock over the system clock read in nanoseconds.
    pub fn wall_ns() -> (r: Result<Clock<WallNS>, Error>)
        ensures
            match r {
                Ok(c) => {
                    &&& c.epoch() == 0
                    &&& c.last().epoch == 0
                    &&& c.last().count == 0
                    &&& exists|t: SystemTime| #[trigger] WallNST::reads_as(t, Ok(c.last().time))
                },
                Err(e) => (e is SystemTime || e is FromInt) && exists|t: SystemTime| #[trigger]
                    WallNST::reads_as(t, Err(e)),
            },
    {
        Clock::new(WallNS)
    }
}

impl Timestamp<WallNST> {
    /// The sixteen bytes that stand for this timestamp: four of the epoch,
    /// eight of the nanoseconds, four of the counter, each with the most
    /// significant byte first.
    pub open spec fn encoded(self) -> Seq<u8> {
        key_bytes(self.epoch, self.time@, self.count)
    }

    /// What `from_bytes` makes of the bytes that `to_bytes` gave is the
    /// timestamp that they were made from: no two timestamps have the same
    /// bytes.
    pub proof fn lemma_bytes_round_trip(self, back: Self)
        requires
            back.encoded() == self.encoded(),
        ensures
            back == self,
    {
        lemma_key_bytes_order(
            self.epoch,
            self.time@,
            self.count,
            back.epoch,
            back.time@,
            back.count,
        );
        WallNST::lemma_view_injective(self.time, back.time);
    }

    /// The bytes of two timestamps, compared byte by byte as unsigned
    /// numbers, order as the timestamps do.
    pub proof fn lemma_bytes_order(self, other: Self)
        ensures
            self.before(other) <==> lex_before(self.encoded(), other.encoded()),
            self == other <==> self.encoded() == other.encoded(),
            other.before(self) <==> lex_before(other.encoded(), self.encoded()),
    {
        lemma_key_bytes_order(
            self.epoch,
            self.time@,
            self.count,
            other.epoch,
            other.time@,
            other.count,
        );
        lemma_key_bytes_order(
            other.epoch,
            other.time@,
            other.count,
            self.epoch,
            self.time@,
            self.count,
        );
        if self.time@ == other.time@ {
            WallNST::lemma_view_injective(self.time, other.time);
        }
    }

    /// Appends the sixteen bytes of this timestamp to `wr`.
    pub fn write_bytes(&self, wr: &mut Vec<u8>)
        ensures
            final(wr)@ == old(wr)@ + self.encoded(),
    {
        let bytes: [u8; 16] = self.to_bytes();
        let ghost before = wr@;
        let mut i: usize = 0;
        while i < KEY_LEN
            invariant
                i <= KEY_LEN,
                KEY_LEN == 16,
                wr@ == before + bytes@.subrange(0, i as int),
            decreases KEY_LEN - i,
        {
            wr.push(bytes[i]);
            i = i + 1;
            assert(wr@ =~= before + bytes@.subrange(0, i as int));
        }
        assert(bytes@.subrange(0, 16) =~= bytes@);
    }

    /// The sixteen bytes of this timestamp.
    pub fn to_bytes(&self) -> (bytes: [u8; 16])
        ensures
            bytes@ == self.encoded(),
    {
        encode_key(self.epoch, self.time.0, self.count)
    }

    /// The timestamp that the first sixteen bytes of `r` stand for, or
    /// `None` where `r` holds fewer.
    pub fn read_bytes(r: &[u8]) -> (ts: Option<Self>)
        ensures
            match ts {
                Some(t) => r@.len() >= 16 && t.encoded() == r@.subrange(0, 16),
                None => r@.len() < 16,
            },
    {
        if r.len() < KEY_LEN {
            return None;
        }
        let mut buf: [u8; 16] = [0u8; 16];
        let mut i: usize = 0;
        while i < KEY_LEN
            invariant
                i <= KEY_LEN,
                KEY_LEN == 16,
                r@.len() >= 16,
                forall|j: int| 0 <= j < i ==> buf@[j] == r@[j],
            decreases KEY_LEN - i,
        {
            buf[i] = r[i];
            i = i + 1;
        }
        assert(buf@ =~= r@.subrange(0, 16));
        Some(Self::from_bytes(buf))
    }

    /// The timestamp that `bytes` stand for: the one whose bytes they are.
    pub fn from_bytes(bytes: [u8; 16]) -> (ts: Self)
        ensures
            ts.encoded() == bytes@,
    {
        let (epoch, nanos, count) = decode_key(&bytes);
        Timestamp { epoch: epoch, time: WallNST::of_nanos(nanos), count: count }
    }
}

} // verus!
