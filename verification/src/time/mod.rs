//! Representations of time for use in astronomy.
//!
//! An instant is a Julian Day: the time since noon on January 1 of the year
//! -4712 of the Julian calendar. It is counted in ticks, and
//! [`TICKS_PER_DAY`] ticks make one day, so that a Julian Day with up to
//! nine decimal places is held exactly.

use crate::time::date::Date;
use vstd::prelude::*;
use vstd::std_specs::convert::FromSpecImpl;
use vstd::std_specs::convert::TryFromSpecImpl;

pub mod date;
pub mod feasts;
pub mod laws;

verus! {

/// The number of ticks in one day.
pub const TICKS_PER_DAY: u64 = 1_000_000_000;

/// The number of ticks in half a day.
pub const TICKS_PER_HALF_DAY: u64 = 500_000_000;

/// Why a value was refused.
#[derive(Debug, Copy, Clone, PartialEq, Eq, Structural)]
pub enum TimeError {
    /// A Julian Day before the epoch.
    NegativeJulianDay,
    /// A Julian Day too late for a [`JD`] to hold.
    JulianDayTooLate,
    /// A month number outside 1 to 12.
    InvalidMonth(i32),
    /// A day-of-week number outside 0 to 6.
    InvalidDayOfWeek(i32),
    /// A fraction of a day that is a whole day or more.
    InvalidFraction(u64),
}

/// Representation of a Julian Day, in ticks since the epoch.
#[derive(Debug, Copy, Clone, PartialEq, Eq, Structural)]
pub struct JD(u64);

impl View for JD {
    type V = int;

    /// The number of ticks since the epoch.
    closed spec fn view(&self) -> int {
        self.0 as int
    }
}

impl JD {
    /// The Julian Day that lies `ticks` ticks after the epoch.
    pub fn from_ticks(ticks: u64) -> (jd: JD)
        ensures
            jd@ == ticks,
    {
        JD(ticks)
    }

    /// The number of ticks since the epoch.
    pub fn ticks(&self) -> (ticks: u64)
        ensures
            ticks == self@,
    {
        self.0
    }
}

impl From<u64> for JD {
    fn from(item: u64) -> (jd: JD)
        ensures
            jd@ == item,
    {
        JD(item)
    }
}

impl FromSpecImpl<u64> for JD {
    open spec fn obeys_from_spec() -> bool {
        true
    }

    closed spec fn from_spec(item: u64) -> JD {
        JD(item)
    }
}

impl From<JD> for u64 {
    fn from(item: JD) -> (ticks: u64)
        ensures
            ticks == item@,
    {
        item.0
    }
}

impl FromSpecImpl<JD> for u64 {
    open spec fn obeys_from_spec() -> bool {
        true
    }

    closed spec fn from_spec(item: JD) -> u64 {
        item.0
    }
}

impl TryFrom<i64> for JD {
    type Error = TimeError;

    /// A signed tick count is a Julian Day unless it is negative.
    fn try_from(item: i64) -> (r: Result<JD, TimeError>)
        ensures
            item >= 0 ==> r.is_ok() && r.unwrap()@ == item,
            item < 0 ==> r == Err::<JD, TimeError>(TimeError::NegativeJulianDay),
    {
        if item >= 0 {
            Ok(JD(item as u64))
        } else {
            Err(TimeError::NegativeJulianDay)
        }
    }
}

impl TryFromSpecImpl<i64> for JD {
    open spec fn obeys_try_from_spec() -> bool {
        true
    }

    closed spec fn try_from_spec(item: i64) -> Result<JD, TimeError> {
        if item >= 0 {
            Ok(JD(item as u64))
        } else {
            Err(TimeError::NegativeJulianDay)
        }
    }
}

impl TryFrom<Date> for JD {
    type Error = TimeError;

    /// The Julian Day of a date, unless the date lies before the epoch or
    /// too late for a [`JD`] to hold.
    fn try_from(item: Date) -> (r: Result<JD, TimeError>)
        ensures
            0 <= item@.jd_ticks() <= u64::MAX ==> r.is_ok() && r.unwrap()@ == item@.jd_ticks(),
            item@.jd_ticks() < 0 ==> r == Err::<JD, TimeError>(TimeError::NegativeJulianDay),
            item@.jd_ticks() > u64::MAX ==> r == Err::<JD, TimeError>(TimeError::JulianDayTooLate),
    {
        item.try_to_jd()
    }
}

impl TryFromSpecImpl<Date> for JD {
    open spec fn obeys_try_from_spec() -> bool {
        true
    }

    closed spec fn try_from_spec(item: Date) -> Result<JD, TimeError> {
        if item@.jd_ticks() < 0 {
            Err(TimeError::NegativeJulianDay)
        } else if item@.jd_ticks() > u64::MAX {
            Err(TimeError::JulianDayTooLate)
        } else {
            Ok(JD(item@.jd_ticks() as u64))
        }
    }
}

} // verus!
