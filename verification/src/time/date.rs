//! Conversions to and from calendar dates.
//!
//! A [`Date`] names a day in the Julian or the Gregorian calendar and the
//! time of day as a fraction of the day, in ticks. Its view, a [`DateView`],
//! holds the same five parts as mathematical values; every contract here is
//! stated over views and over the spec functions of this module.

use crate::arith::floor_div;
use crate::time::laws::lemma_date_of_ticks_is_a_calendar_date;
pub use crate::time::feasts::find_easter_by_calendar;
pub use crate::time::feasts::find_easter_by_year;
pub use crate::time::feasts::find_gregorian_easter;
pub use crate::time::feasts::find_gregorian_passover;
pub use crate::time::feasts::find_julian_easter;
use crate::time::TimeError;
use crate::time::JD;
use crate::time::TICKS_PER_DAY;
use crate::time::TICKS_PER_HALF_DAY;
use vstd::prelude::*;
use vstd::std_specs::convert::FromSpecImpl;
use vstd::std_specs::convert::TryFromSpecImpl;

verus! {

/// The two calendars in which a date can be named.
#[derive(Debug, Copy, Clone, PartialOrd, PartialEq, Eq, Structural)]
pub enum Calendar {
    Julian,
    Gregorian,
}

/// The number of a year, counted as astronomers do: the year before the
/// year 1 is the year 0.
#[derive(Debug, Copy, Clone, PartialOrd, PartialEq, Eq, Structural)]
pub struct Year(pub i32);

/// The months of the year.
#[derive(Debug, Copy, Clone, PartialOrd, PartialEq, Eq, Structural)]
pub enum Month {
    January,
    February,
    March,
    April,
    May,
    June,
    July,
    August,
    September,
    October,
    November,
    December,
}

/// The number of a day in its month.
#[derive(Debug, Copy, Clone, PartialOrd, PartialEq, Eq, Structural)]
pub struct DayOfMonth(pub u8);

/// The days of the week.
#[derive(Debug, Copy, Clone, PartialOrd, PartialEq, Eq, Structural)]
pub enum DayOfWeek {
    Sunday,
    Monday,
    Tuesday,
    Wednesday,
    Thursday,
    Friday,
    Saturday,
}

/// The month with the given number, January being 1. A number below 1 counts
/// as 1 and a number above 12 as 12.
pub open spec fn month_of_number(n: int) -> Month {
    if n <= 1 {
        Month::January
    } else if n == 2 {
        Month::February
    } else if n == 3 {
        Month::March
    } else if n == 4 {
        Month::April
    } else if n == 5 {
        Month::May
    } else if n == 6 {
        Month::June
    } else if n == 7 {
        Month::July
    } else if n == 8 {
        Month::August
    } else if n == 9 {
        Month::September
    } else if n == 10 {
        Month::October
    } else if n == 11 {
        Month::November
    } else {
        Month::December
    }
}

/// The day of the week with the given number, Sunday being 0. A number below
/// 0 counts as 0 and a number above 6 as 6.
pub open spec fn day_of_week_of_number(n: int) -> DayOfWeek {
    if n <= 0 {
        DayOfWeek::Sunday
    } else if n == 1 {
        DayOfWeek::Monday
    } else if n == 2 {
        DayOfWeek::Tuesday
    } else if n == 3 {
        DayOfWeek::Wednesday
    } else if n == 4 {
        DayOfWeek::Thursday
    } else if n == 5 {
        DayOfWeek::Friday
    } else {
        DayOfWeek::Saturday
    }
}

impl Month {
    /// The number of the month in the year, from 1 for January to 12 for
    /// December.
    pub open spec fn spec_number(self) -> int {
        match self {
            Month::January => 1,
            Month::February => 2,
            Month::March => 3,
            Month::April => 4,
            Month::May => 5,
            Month::June => 6,
            Month::July => 7,
            Month::August => 8,
            Month::September => 9,
            Month::October => 10,
            Month::November => 11,
            Month::December => 12,
        }
    }

    /// The number of the month in the year, from 1 for January to 12 for
    /// December.
    pub fn number(self) -> (n: i32)
        ensures
            n == self.spec_number(),
            1 <= n <= 12,
    {
        match self {
            Month::January => 1,
            Month::February => 2,
            Month::March => 3,
            Month::April => 4,
            Month::May => 5,
            Month::June => 6,
            Month::July => 7,
            Month::August => 8,
            Month::September => 9,
            Month::October => 10,
            Month::November => 11,
            Month::December => 12,
        }
    }

    /// The month with a number that is known to lie in 1 to 12.
    pub fn from_number(item: i32) -> (month: Month)
        requires
            1 <= item <= 12,
        ensures
            month == month_of_number(item as int),
            month.spec_number() == item,
    {
        if item == 1 {
            Month::January
        } else if item == 2 {
            Month::February
        } else if item == 3 {
            Month::March
        } else if item == 4 {
            Month::April
        } else if item == 5 {
            Month::May
        } else if item == 6 {
            Month::June
        } else if item == 7 {
            Month::July
        } else if item == 8 {
            Month::August
        } else if item == 9 {
            Month::September
        } else if item == 10 {
            Month::October
        } else if item == 11 {
            Month::November
        } else {
            Month::December
        }
    }
}

impl TryFrom<i32> for Month {
    type Error = TimeError;

    /// The month with the given number; a number outside 1 to 12 is refused.
    fn try_from(item: i32) -> (r: Result<Month, TimeError>)
        ensures
            1 <= item <= 12 ==> r == Ok::<Month, TimeError>(month_of_number(item as int)),
            !(1 <= item <= 12) ==> r == Err::<Month, TimeError>(TimeError::InvalidMonth(item)),
    {
        if 1 <= item && item <= 12 {
            Ok(Month::from_number(item))
        } else {
            Err(TimeError::InvalidMonth(item))
        }
    }
}

impl TryFromSpecImpl<i32> for Month {
    open spec fn obeys_try_from_spec() -> bool {
        true
    }

    open spec fn try_from_spec(item: i32) -> Result<Month, TimeError> {
        if 1 <= item <= 12 {
            Ok(month_of_number(item as int))
        } else {
            Err(TimeError::InvalidMonth(item))
        }
    }
}

impl DayOfWeek {
    /// The number of the day in the week, from 0 for Sunday to 6 for
    /// Saturday.
    pub open spec fn spec_number(self) -> int {
        match self {
            DayOfWeek::Sunday => 0,
            DayOfWeek::Monday => 1,
            DayOfWeek::Tuesday => 2,
            DayOfWeek::Wednesday => 3,
            DayOfWeek::Thursday => 4,
            DayOfWeek::Friday => 5,
            DayOfWeek::Saturday => 6,
        }
    }

    /// The number of the day in the week, from 0 for Sunday to 6 for
    /// Saturday.
    pub fn number(self) -> (n: i32)
        ensures
            n == self.spec_number(),
            0 <= n <= 6,
    {
        match self {
            DayOfWeek::Sunday => 0,
            DayOfWeek::Monday => 1,
            DayOfWeek::Tuesday => 2,
            DayOfWeek::Wednesday => 3,
            DayOfWeek::Thursday => 4,
            DayOfWeek::Friday => 5,
            DayOfWeek::Saturday => 6,
        }
    }

    /// The day of the week with a number that is known to lie in 0 to 6.
    pub fn from_number(item: i32) -> (day: DayOfWeek)
        requires
            0 <= item <= 6,
        ensures
            day == day_of_week_of_number(item as int),
            day.spec_number() == item,
    {
        if item == 0 {
            DayOfWeek::Sunday
        } else if item == 1 {
            DayOfWeek::Monday
        } else if item == 2 {
            DayOfWeek::Tuesday
        } else if item == 3 {
            DayOfWeek::Wednesday
        } else if item == 4 {
            DayOfWeek::Thursday
        } else if item == 5 {
            DayOfWeek::Friday
        } else {
            DayOfWeek::Saturday
        }
    }
}

impl TryFrom<i32> for DayOfWeek {
    type Error = TimeError;

    /// The day of the week with the given number; a number outside 0 to 6 is
    /// refused.
    fn try_from(item: i32) -> (r: Result<DayOfWeek, TimeError>)
        ensures
            0 <= item <= 6 ==> r == Ok::<DayOfWeek, TimeError>(
                day_of_week_of_number(item as int),
            ),
            !(0 <= item <= 6) ==> r == Err::<DayOfWeek, TimeError>(
                TimeError::InvalidDayOfWeek(item),
            ),
    {
        if 0 <= item && item <= 6 {
            Ok(DayOfWeek::from_number(item))
        } else {
            Err(TimeError::InvalidDayOfWeek(item))
        }
    }
}

impl TryFromSpecImpl<i32> for DayOfWeek {
    open spec fn obeys_try_from_spec() -> bool {
        true
    }

    open spec fn try_from_spec(item: i32) -> Result<DayOfWeek, TimeError> {
        if 0 <= item <= 6 {
            Ok(day_of_week_of_number(item as int))
        } else {
            Err(TimeError::InvalidDayOfWeek(item))
        }
    }
}

impl From<i32> for Year {
    fn from(item: i32) -> (year: Year)
        ensures
            year == Year(item),
    {
        Year(item)
    }
}

impl FromSpecImpl<i32> for Year {
    open spec fn obeys_from_spec() -> bool {
        true
    }

    open spec fn from_spec(item: i32) -> Year {
        Year(item)
    }
}

/// A day of a calendar and the time of day.
///
/// The fraction of the day is held in ticks and is always less than a whole
/// day.
#[derive(Debug, Copy, Clone, PartialOrd, PartialEq, Eq, Structural)]
pub struct Date {
    cal: Calendar,
    year: Year,
    month: Month,
    day: DayOfMonth,
    fraction: u64,
}

/// What a [`Date`] holds, as mathematical values.
pub struct DateView {
    pub cal: Calendar,
    pub year: int,
    /// The number of the month, 1 to 12.
    pub month: int,
    pub day: int,
    /// The time of day in ticks, from 0 up to a whole day.
    pub fraction: int,
}

/// The year in which the months run from March to February: January and
/// February belong to the year before.
pub open spec fn shifted_year(year: int, month: int) -> int {
    if month <= 2 {
        year - 1
    } else {
        year
    }
}

/// The number of the month in a year that runs from March to February:
/// January and February are months 13 and 14.
pub open spec fn shifted_month(month: int) -> int {
    if month <= 2 {
        month + 12
    } else {
        month
    }
}

/// What the Gregorian calendar adds to the day number that the Julian
/// calendar gives to a date of the shifted year `y`: two, less one for each
/// century, plus one for each fourth century. Since the year 200 it is
/// negative: a date comes earlier in the Gregorian calendar.
pub open spec fn gregorian_correction(y: int) -> int {
    let a = y / 100;
    2 - a + a / 4
}

/// The number of the day that starts on the given date: the Julian Day of
/// its noon.
///
/// With `y` and `m` the shifted year and month this is
/// `floor(365.25 (y + 4716)) + floor(30.6001 (m + 1)) + day - 1524`, and in
/// the Gregorian calendar the correction of the century is added.
pub open spec fn day_number(cal: Calendar, year: int, month: int, day: int) -> int {
    let y = shifted_year(year, month);
    let m = shifted_month(month);
    let b = match cal {
        Calendar::Julian => 0,
        Calendar::Gregorian => gregorian_correction(y),
    };
    (1461 * (y + 4716)) / 4 + (306001 * (m + 1)) / 10000 + day + b - 1524
}

/// The first day number on which [`date_of_ticks`] reckons by the Gregorian
/// rules: October 15 of 1582.
pub open spec fn gregorian_reform_day() -> int {
    2299161
}

/// The tick count from which [`date_of_ticks`] calls a date Gregorian: the
/// Julian Day 2299068.5.
pub open spec fn gregorian_tag_ticks() -> int {
    2299068 * (TICKS_PER_DAY as int) + (TICKS_PER_HALF_DAY as int)
}

/// The day count in which the calendar parts are read off: the day number
/// itself before the reform and, from the reform on, the day number with
/// the dropped days of the centuries put back.
pub open spec fn julian_count(z: int) -> int {
    if z < gregorian_reform_day() {
        z
    } else {
        let alpha = (4 * z - 7468865) / 146097;
        z + 1 + alpha - alpha / 4
    }
}

/// The date of the Julian Day that lies `ticks` ticks after the epoch.
///
/// The instant is split into the day number `z` and the fraction of that
/// day. The year, month and day are read off [`julian_count`]`(z)`; the
/// calendar named in the result goes by the instant alone.
pub open spec fn date_of_ticks(ticks: int) -> DateView {
    let shifted = ticks + (TICKS_PER_HALF_DAY as int);
    let z = shifted / (TICKS_PER_DAY as int);
    let f = shifted % (TICKS_PER_DAY as int);
    let b = julian_count(z) + 1524;
    let c = (20 * b - 2442) / 7305;
    let d = (1461 * c) / 4;
    let e = (10000 * (b - d)) / 306001;
    let month = if e < 14 {
        e - 1
    } else {
        e - 13
    };
    DateView {
        cal: if ticks >= gregorian_tag_ticks() {
            Calendar::Gregorian
        } else {
            Calendar::Julian
        },
        year: if month > 2 {
            c - 4716
        } else {
            c - 4715
        },
        month,
        day: b - d - (306001 * e) / 10000,
        fraction: f,
    }
}

/// Whether the year has a February 29 in the calendar.
pub open spec fn is_leap_year(cal: Calendar, year: int) -> bool {
    match cal {
        Calendar::Julian => year % 4 == 0,
        Calendar::Gregorian => year % 4 == 0 && (year % 100 != 0 || year % 400 == 0),
    }
}

/// The number of days of the month in that year of the calendar.
pub open spec fn days_in_month(cal: Calendar, year: int, month: int) -> int {
    if month == 2 {
        if is_leap_year(cal, year) {
            29
        } else {
            28
        }
    } else if month == 4 || month == 6 || month == 9 || month == 11 {
        30
    } else {
        31
    }
}

/// Whether the rule of [`Date::get_day_of_year`] counts a February 29 in
/// the year: in the Julian calendar every fourth year, in the Gregorian
/// calendar every fourth year but the multiples of 400.
pub open spec fn counts_leap_day(cal: Calendar, year: int) -> bool {
    match cal {
        Calendar::Julian => year % 4 == 0,
        Calendar::Gregorian => year % 4 == 0 && year % 400 != 0,
    }
}

/// The number of the day in its year, January 1 being day 1, by the rule of
/// [`counts_leap_day`].
pub open spec fn day_of_year(cal: Calendar, year: int, month: int, day: int) -> int {
    let k: int = if counts_leap_day(cal, year) {
        1
    } else {
        2
    };
    (275 * month) / 9 - k * ((month + 9) / 12) + day - 30
}

impl DateView {
    /// The number of the day that starts on this date.
    pub open spec fn day_number(self) -> int {
        day_number(self.cal, self.year, self.month, self.day)
    }

    /// The Julian Day of this date in ticks: half a day before the noon of
    /// its day number, plus the fraction.
    pub open spec fn jd_ticks(self) -> int {
        self.day_number() * (TICKS_PER_DAY as int) - (TICKS_PER_HALF_DAY as int) + self.fraction
    }

    /// The day of the week: the day number 0 was a Monday.
    pub open spec fn day_of_week(self) -> DayOfWeek {
        day_of_week_of_number((self.day_number() + 1) % 7)
    }

    /// The number of the day in its year.
    pub open spec fn day_of_year(self) -> int {
        day_of_year(self.cal, self.year, self.month, self.day)
    }

    /// Whether the fraction is less than a whole day.
    pub open spec fn has_day_fraction(self) -> bool {
        0 <= self.fraction < TICKS_PER_DAY
    }

    /// Whether the month and the day exist in that year of the calendar and
    /// the fraction is less than a whole day.
    pub open spec fn is_calendar_date(self) -> bool {
        &&& 1 <= self.month <= 12
        &&& 1 <= self.day <= days_in_month(self.cal, self.year, self.month)
        &&& self.has_day_fraction()
    }

    /// Whether the date is named in the calendar that [`date_of_ticks`]
    /// gives back for its instant: a Gregorian date from the reform on, a
    /// Julian date before the instant from which dates are called Gregorian.
    pub open spec fn in_calendar_of_its_time(self) -> bool {
        match self.cal {
            Calendar::Gregorian => self.day_number() >= gregorian_reform_day(),
            Calendar::Julian => self.jd_ticks() < gregorian_tag_ticks(),
        }
    }
}

impl View for Date {
    type V = DateView;

    closed spec fn view(&self) -> DateView {
        DateView {
            cal: self.cal,
            year: self.year.0 as int,
            month: self.month.spec_number(),
            day: self.day.0 as int,
            fraction: self.fraction as int,
        }
    }
}

impl Date {
    #[verifier::type_invariant]
    spec fn fraction_in_day(self) -> bool {
        self.fraction < TICKS_PER_DAY
    }

    /// The date with the given parts. A fraction of a whole day or more is
    /// refused; the day is not held against the month's length.
    pub fn new(cal: Calendar, year: Year, month: Month, day: DayOfMonth, fraction: u64) -> (r:
        Result<Date, TimeError>)
        ensures
            fraction < TICKS_PER_DAY ==> r.is_ok() && r.unwrap()@ == (DateView {
                cal,
                year: year.0 as int,
                month: month.spec_number(),
                day: day.0 as int,
                fraction: fraction as int,
            }),
            fraction >= TICKS_PER_DAY ==> r == Err::<Date, TimeError>(
                TimeError::InvalidFraction(fraction),
            ),
    {
        if fraction < TICKS_PER_DAY {
            Ok(Date { cal, year, month, day, fraction })
        } else {
            Err(TimeError::InvalidFraction(fraction))
        }
    }

    /// The start of the given day: the date with no fraction.
    pub fn at_midnight(cal: Calendar, year: Year, month: Month, day: DayOfMonth) -> (date: Date)
        ensures
            date@ == (DateView {
                cal,
                year: year.0 as int,
                month: month.spec_number(),
                day: day.0 as int,
                fraction: 0,
            }),
    {
        Date { cal, year, month, day, fraction: 0 }
    }

    /// The calendar in which the date is named.
    pub fn calendar(&self) -> (cal: Calendar)
        ensures
            cal == self@.cal,
    {
        self.cal
    }

    /// The year of the date.
    pub fn year(&self) -> (year: Year)
        ensures
            year.0 == self@.year,
    {
        self.year
    }

    /// The month of the date.
    pub fn month(&self) -> (month: Month)
        ensures
            month.spec_number() == self@.month,
    {
        self.month
    }

    /// The day of the month.
    pub fn day(&self) -> (day: DayOfMonth)
        ensures
            day.0 == self@.day,
    {
        self.day
    }

    /// The time of day in ticks.
    pub fn fraction(&self) -> (fraction: u64)
        ensures
            fraction == self@.fraction,
            fraction < TICKS_PER_DAY,
    {
        proof {
            use_type_invariant(self);
        }
        self.fraction
    }

    /// The Julian Day of the date in ticks, whatever its sign and size.
    fn signed_ticks(&self) -> (t: i128)
        ensures
            t == self@.jd_ticks(),
            self@.has_day_fraction(),
    {
        proof {
            use_type_invariant(self);
        }
        let month: i128 = self.month.number() as i128;
        let (y, m): (i128, i128) = if month <= 2 {
            (self.year.0 as i128 - 1, month + 12)
        } else {
            (self.year.0 as i128, month)
        };
        let b: i128 = match self.cal {
            Calendar::Julian => 0,
            Calendar::Gregorian => {
                let a: i128 = floor_div(y, 100);
                2 - a + floor_div(a, 4)
            },
        };
        let days: i128 = floor_div(1461 * (y + 4716), 4) + (306001 * (m + 1)) / 10000
            + self.day.0 as i128 + b - 1524;
        let per_day: i128 = TICKS_PER_DAY as i128;
        assert(-1_000_000_000_000 < days < 1_000_000_000_000 && per_day == 1_000_000_000);
        days * per_day - (TICKS_PER_HALF_DAY as i128) + self.fraction as i128
    }

    /// The Julian Day of the date.
    ///
    /// The date must not lie before the epoch, and its Julian Day must be
    /// one that a [`JD`] can hold; [`Date::try_to_jd`] tests both.
    pub fn to_jd(&self) -> (jd: JD)
        requires
            0 <= self@.jd_ticks() <= u64::MAX,
        ensures
            jd@ == self@.jd_ticks(),
    {
        let t: i128 = self.signed_ticks();
        JD::from_ticks(t as u64)
    }

    /// The Julian Day of the date, unless the date lies before the epoch or
    /// too late for a [`JD`] to hold.
    pub fn try_to_jd(&self) -> (r: Result<JD, TimeError>)
        ensures
            0 <= self@.jd_ticks() <= u64::MAX ==> r.is_ok() && r.unwrap()@ == self@.jd_ticks(),
            self@.jd_ticks() < 0 ==> r == Err::<JD, TimeError>(TimeError::NegativeJulianDay),
            self@.jd_ticks() > u64::MAX ==> r == Err::<JD, TimeError>(TimeError::JulianDayTooLate),
    {
        let t: i128 = self.signed_ticks();
        if t < 0 {
            Err(TimeError::NegativeJulianDay)
        } else if t > u64::MAX as i128 {
            Err(TimeError::JulianDayTooLate)
        } else {
            Ok(self.to_jd())
        }
    }

    /// The date of a Julian Day.
    ///
    /// The result is a date of the Gregorian calendar from the Julian Day
    /// 2299068.5 on and of the Julian calendar before it. Its day is read
    /// off by the Gregorian rules from the Julian Day 2299160.5 on, the day
    /// of the reform, and by the Julian rules before it.
    pub fn from_jd(jd: JD) -> (date: Date)
        ensures
            date@ == date_of_ticks(jd@),
            date@.is_calendar_date(),
    {
        proof {
            lemma_date_of_ticks_is_a_calendar_date(jd@);
        }
        let ticks: i128 = jd.ticks() as i128;
        let shifted: i128 = ticks + TICKS_PER_HALF_DAY as i128;
        let z: i128 = shifted / (TICKS_PER_DAY as i128);
        let f: i128 = shifted % (TICKS_PER_DAY as i128);
        let a: i128 = if z < 2299161 {
            z
        } else {
            let alpha: i128 = (4 * z - 7468865) / 146097;
            z + 1 + alpha - alpha / 4
        };
        let b: i128 = a + 1524;
        let c: i128 = (20 * b - 2442) / 7305;
        let d: i128 = (1461 * c) / 4;
        let e: i128 = (10000 * (b - d)) / 306001;
        let day: i128 = b - d - (306001 * e) / 10000;
        let month: i128 = if e < 14 {
            e - 1
        } else {
            e - 13
        };
        let year: i128 = if month > 2 {
            c - 4716
        } else {
            c - 4715
        };
        let cal = if ticks >= 2299068 * (TICKS_PER_DAY as i128) + TICKS_PER_HALF_DAY as i128 {
            Calendar::Gregorian
        } else {
            Calendar::Julian
        };
        Date {
            cal,
            year: Year(year as i32),
            month: Month::from_number(month as i32),
            day: DayOfMonth(day as u8),
            fraction: f as u64,
        }
    }

    /// The day of the week on which the date falls, whatever the time of
    /// day.
    ///
    /// The date must have a Julian Day, as for [`Date::to_jd`].
    pub fn get_day_of_week(&self) -> (day: DayOfWeek)
        requires
            0 <= self@.jd_ticks() <= u64::MAX,
        ensures
            day == self@.day_of_week(),
    {
        proof {
            use_type_invariant(self);
        }
        let jd = self.to_jd();
        // The Julian Day rounded to the nearest whole day is the day number.
        let nearest: u128 = (jd.ticks() as u128 + TICKS_PER_HALF_DAY as u128) / (
        TICKS_PER_DAY as u128);
        let day_num: u128 = (nearest + 1) % 7;
        DayOfWeek::from_number(day_num as i32)
    }

    /// The number of the day in its year, January 1 being day 1.
    pub fn get_day_of_year(&self) -> (n: u16)
        ensures
            n == self@.day_of_year(),
    {
        let leap_year = if let Calendar::Julian = self.cal {
            (self.year.0 % 4) == 0
        } else {
            ((self.year.0 % 4) == 0) && !((self.year.0 % 400) == 0)
        };
        let k: u16 = if leap_year {
            1
        } else {
            2
        };
        let m: u16 = self.month.number() as u16;
        let d: u16 = self.day.0 as u16;
        (275 * m / 9) - k * ((m + 9) / 12) + d - 30
    }
}

/// Two dates that hold the same parts are the same date.
pub proof fn lemma_dates_of_one_view_are_equal(a: Date, b: Date)
    requires
        a@ == b@,
    ensures
        a == b,
{
}

impl From<JD> for Date {
    fn from(item: JD) -> (date: Date)
        ensures
            date@ == date_of_ticks(item@),
            date@.is_calendar_date(),
    {
        Date::from_jd(item)
    }
}

impl FromSpecImpl<JD> for Date {
    open spec fn obeys_from_spec() -> bool {
        true
    }

    closed spec fn from_spec(item: JD) -> Date {
        let v = date_of_ticks(item@);
        Date {
            cal: v.cal,
            year: Year(v.year as i32),
            month: month_of_number(v.month),
            day: DayOfMonth(v.day as u8),
            fraction: v.fraction as u64,
        }
    }
}

} // verus!
