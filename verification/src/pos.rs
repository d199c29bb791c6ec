//! Where on the globe a place lies, as far as the days of its events depend
//! on it.
//!
//! Latitude and longitude are floating-point degrees and stay with the
//! caller. Of a position this library reads one thing: on which side of the
//! prime meridian it lies.

use vstd::prelude::*;

verus! {

/// On which side of the prime meridian a place lies: whether its longitude,
/// taken as an offset in hours, is below or above zero. `Meridian` stands for
/// every longitude that is neither.
#[derive(Debug, Eq, PartialEq, Copy, Clone, Structural)]
pub enum Hemisphere {
    Western,
    Meridian,
    Eastern,
}

impl Hemisphere {
    /// The offset of local mean time from universal time, in seconds, at a
    /// place on this side of the prime meridian whose longitude amounts to
    /// `seconds` of time: counted as behind universal time in the west, and
    /// as ahead of it elsewhere.
    pub open spec fn offset(self, seconds: int) -> int {
        match self {
            Hemisphere::Western => -seconds,
            Hemisphere::Meridian => seconds,
            Hemisphere::Eastern => seconds,
        }
    }

    /// The offset of local mean time from universal time, in seconds east of
    /// the prime meridian, at a place on this side of it whose longitude
    /// amounts to `seconds` of time.
    pub fn utc_offset(self, seconds: u32) -> (offset: i32)
        requires
            seconds <= i32::MAX,
        ensures
            offset == self.offset(seconds as int),
    {
        let magnitude: i32 = seconds as i32;
        match self {
            Hemisphere::Western => -magnitude,
            Hemisphere::Meridian => magnitude,
            Hemisphere::Eastern => magnitude,
        }
    }
}

} // verus!
