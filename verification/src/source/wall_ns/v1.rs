//! The nanosecond time in version 1 of its written form: a tuple of one
//! number.

use vstd::prelude::*;
use vstd::std_specs::convert::FromSpecImpl;

verus! {

/// A time of the system clock in nanoseconds since the Unix epoch, which is
/// written out in version 1 of its form: as a tuple that holds the one number.
#[derive(Debug, Clone, Copy, PartialEq, Eq, PartialOrd, Ord, Hash, Structural)]
pub struct WallNST(u64);

impl View for WallNST {
    type V = u64;

    /// The nanoseconds since the Unix epoch.
    closed spec fn view(&self) -> u64 {
        self.0
    }
}

impl WallNST {
    /// A time is its count of nanoseconds and nothing else.
    pub proof fn lemma_view_injective(a: WallNST, b: WallNST)
        requires
            a@ == b@,
        ensures
            a == b,
    {
    }

    /// The time as the tuple of its one number.
    pub fn into_tuple(self) -> (single: (u64, ))
        ensures
            single.0 == self@,
    {
        (self.0, )
    }

    /// The time that a tuple of one number stands for.
    pub fn from_tuple(single: (u64, )) -> (time: Self)
        ensures
            time@ == single.0,
    {
        WallNST(single.0)
    }
}

impl From<super::WallNST> for WallNST {
    fn from(v2: super::WallNST) -> (v1: Self)
        ensures
            v1@ == v2@,
    {
        WallNST(v2.as_u64())
    }
}

impl FromSpecImpl<super::WallNST> for WallNST {
    open spec fn obeys_from_spec() -> bool {
        true
    }

    closed spec fn from_spec(v2: super::WallNST) -> Self {
        WallNST(v2@)
    }
}

} // verus!
