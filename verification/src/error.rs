//! The errors of clocks and clock sources.

use crate::text::{decimal, push_decimal, push_str};
use std::num::TryFromIntError;
use std::time::SystemTimeError;
use vstd::prelude::*;
use vstd::std_specs::convert::FromSpecImpl;

verus! {

/// The error of `std::time::SystemTime::duration_since`, carried through
/// unread.
#[verifier::external_type_specification]
#[verifier::external_body]
pub struct ExSystemTimeError(SystemTimeError);

/// What can go wrong when a clock is read or fed.
#[derive(Debug)]
pub enum Error {
    /// An observed timestamp lies further ahead of the local time than the
    /// configured limit allows.
    OffsetTooGreat,
    /// The system clock could not be read as a time since the Unix epoch.
    SystemTime(SystemTimeError),
    /// A tick count does not fit the width of the time value.
    FromInt(TryFromIntError),
    /// A time since the Unix epoch, in nanoseconds, that the tick resolution
    /// cannot hold.
    SupportedTime(u128),
}

impl Error {
    /// The message of the error.
    pub open spec fn text(self) -> Seq<char> {
        match self {
            Error::OffsetTooGreat => "Offset greater than limit"@,
            Error::SystemTime(_) => "Outside of specified offset"@,
            Error::FromInt(_) => "Integer conversion error"@,
            Error::SupportedTime(nanos) => "Outside supported time range: "@ + decimal(
                nanos as nat,
            ) + "ticks"@,
        }
    }

    /// Writes out the message of the error.
    pub fn to_string(&self) -> (s: String)
        ensures
            s@ == self.text(),
    {
        let mut s = String::new();
        match self {
            Error::OffsetTooGreat => push_str(&mut s, "Offset greater than limit"),
            Error::SystemTime(_) => push_str(&mut s, "Outside of specified offset"),
            Error::FromInt(_) => push_str(&mut s, "Integer conversion error"),
            Error::SupportedTime(nanos) => {
                push_str(&mut s, "Outside supported time range: ");
                push_decimal(&mut s, *nanos);
                push_str(&mut s, "ticks");
            },
        }
        assert(s@ =~= self.text());
        s
    }
}

impl From<SystemTimeError> for Error {
    fn from(e: SystemTimeError) -> (r: Error) {
        Error::SystemTime(e)
    }
}

impl FromSpecImpl<SystemTimeError> for Error {
    open spec fn obeys_from_spec() -> bool {
        true
    }

    open spec fn from_spec(e: SystemTimeError) -> Error {
        Error::SystemTime(e)
    }
}

impl From<TryFromIntError> for Error {
    fn from(e: TryFromIntError) -> (r: Error) {
        Error::FromInt(e)
    }
}

impl FromSpecImpl<TryFromIntError> for Error {
    open spec fn obeys_from_spec() -> bool {
        true
    }

    open spec fn from_spec(e: TryFromIntError) -> Error {
        Error::FromInt(e)
    }
}

} // verus!
