//! Hybrid logical clocks: timestamps that combine a physical time reading with
//! a logical counter, strictly monotonic per clock and ordered consistently
//! with causality.

pub mod clock;
pub mod codec;
pub mod error;
pub mod history;
pub mod source;
pub mod text;
pub mod time;
pub mod timestamp;

pub use crate::clock::{Clock, OffsetLimiter};
pub use crate::error::Error;
pub use crate::history::{Call, Held};
pub use crate::source::manual::{ManualClock, ManualT};
pub use crate::source::wall_ms::{WallMS, WallMST};
pub use crate::source::wall_ns::{v1, WallNS, WallNST};
pub use crate::source::ClockSource;
pub use crate::text::Render;
pub use crate::time::{Nanos, Offset, TimePoint};
pub use crate::timestamp::Timestamp;
