//! The system clock, and the conversions between the times of the standard
//! library and time since the Unix epoch in plain numbers. The functions of
//! this file are trusted: each holds one call into `std::time`.

use std::time::{Duration, SystemTime, SystemTimeError};
use vstd::prelude::*;

verus! {

/// A point in time of the system clock, `std::time::SystemTime`, carried
/// through unread.
#[verifier::external_type_specification]
#[verifier::external_body]
pub struct ExSystemTime(SystemTime);

/// What `SystemTime::checked_add` makes of the Unix epoch and a length of
/// `secs` seconds and `subsec_nanos` nanoseconds: the time of the system clock
/// that lies that long after the epoch, or `None` where the platform cannot
/// represent it.
pub uninterp spec fn unix_time(secs: u64, subsec_nanos: u32) -> Option<SystemTime>;

/// What `SystemTime::duration_since` makes of `t` and the Unix epoch: the
/// whole seconds, and the nanoseconds beyond them, by which `t` lies after
/// the epoch, or `None` where `t` lies before it.
pub uninterp spec fn since_epoch(t: SystemTime) -> Option<(u64, u32)>;

/// The time of the system clock that lies `nanos` nanoseconds after the Unix
/// epoch, or `None` where the platform cannot represent it.
pub open spec fn unix_time_at(nanos: nat) -> Option<SystemTime> {
    unix_time((nanos / 1_000_000_000) as u64, (nanos % 1_000_000_000) as u32)
}

/// The nanoseconds by which `t` lies after the Unix epoch, or `None` where it
/// lies before it.
pub open spec fn nanos_since_epoch(t: SystemTime) -> Option<nat> {
    match since_epoch(t) {
        Some(since) => Some((since.0 * 1_000_000_000 + since.1) as nat),
        None => None,
    }
}

/// `SystemTime::now`: the present time of the system clock. Nothing is
/// claimed of it: the clock may stand at any time, and may have been set back
/// since it was last read.
#[verifier::external_body]
pub(crate) fn system_time_now() -> SystemTime {
    SystemTime::now()
}

/// `SystemTime::duration_since` with the Unix epoch as the earlier time: the
/// time that has passed from the epoch to `t`, in whole seconds and the
/// nanoseconds beyond them, or the error of the standard library where `t`
/// lies before the epoch. The nanoseconds are the part below a second, as
/// `Duration::subsec_nanos` documents, and `t` is the time that lies the
/// length that was given after the epoch.
#[verifier::external_body]
pub(crate) fn since_unix_epoch(t: &SystemTime) -> (r: Result<(u64, u32), SystemTimeError>)
    ensures
        match r {
            Ok(since) => since_epoch(*t) == Some(since),
            Err(_) => since_epoch(*t) is None,
        },
        r matches Ok(since) ==> since.1 < 1_000_000_000 && unix_time(since.0, since.1) == Some(*t),
{
    match t.duration_since(SystemTime::UNIX_EPOCH) {
        Ok(d) => Ok((d.as_secs(), d.subsec_nanos())),
        Err(e) => Err(e),
    }
}

/// `SystemTime::checked_add` on the Unix epoch: the time that lies `secs`
/// seconds and `subsec_nanos` nanoseconds after it, or `None` where the
/// platform cannot represent that time. The nanoseconds stay below a second,
/// so that `Duration::new` has nothing to carry and cannot fail.
#[verifier::external_body]
pub(crate) fn unix_epoch_plus(secs: u64, subsec_nanos: u32) -> (r: Option<SystemTime>)
    requires
        subsec_nanos < 1_000_000_000,
    ensures
        r == unix_time(secs, subsec_nanos),
{
    SystemTime::UNIX_EPOCH.checked_add(Duration::new(secs, subsec_nanos))
}

} // verus!
