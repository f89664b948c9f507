//! What holds of the conversions between dates and Julian Days, and of
//! the dates of the feasts.

use crate::time::date::counts_leap_day;
use crate::time::date::date_of_ticks;
use crate::time::date::day_number;
use crate::time::date::day_of_week_of_number;
use crate::time::date::day_of_year;
use crate::time::date::days_in_month;
use crate::time::date::gregorian_correction;
use crate::time::date::gregorian_reform_day;
use crate::time::date::gregorian_tag_ticks;
use crate::time::date::julian_count;
use crate::time::date::shifted_month;
use crate::time::date::shifted_year;
use crate::time::date::Calendar;
use crate::time::date::DateView;
use crate::time::date::DayOfWeek;
use crate::time::feasts::date_at_index;
use crate::time::feasts::easter;
use crate::time::feasts::gregorian_passover;
use crate::time::feasts::in_easter_season;
use crate::time::feasts::passover_march_day;
use crate::time::feasts::passover_moment;
use crate::time::feasts::gregorian_easter;
use crate::time::feasts::gregorian_easter_index;
use crate::time::feasts::julian_easter;
use crate::time::feasts::julian_easter_index;
use crate::time::TICKS_PER_DAY;
use crate::time::TICKS_PER_HALF_DAY;
use vstd::prelude::*;

verus! {

/// Whether day `day` exists in the shifted month `m` of a year that runs
/// from March to February and is year `c` of the count that starts 4716
/// years before year 0: its February, month 14, has a day 29 where `c`
/// leaves 3 when divided by 4.
spec fn exists_in_shifted_month(c: int, m: int, day: int) -> bool {
    &&& 3 <= m <= 14
    &&& 1 <= day <= 31
    &&& (m == 4 || m == 6 || m == 9 || m == 11) ==> day <= 30
    &&& m == 14 ==> day <= 29
    &&& (m == 14 && day == 29) ==> c % 4 == 3
}

/// The days from the start of the count to the given day of a shifted
/// month, by the rules of the Julian calendar.
spec fn days_to(c: int, m: int, day: int) -> int {
    (1461 * c) / 4 + (306001 * (m + 1)) / 10000 + day
}

/// Reading the year, the month and the day off a count of days gives back
/// the parts that the count was made of.
#[verifier::spinoff_prover]
#[verifier::rlimit(40)]
proof fn lemma_parts_of_days_to(c: int, m: int, day: int)
    requires
        exists_in_shifted_month(c, m, day),
    ensures
        (20 * days_to(c, m, day) - 2442) / 7305 == c,
        (10000 * (days_to(c, m, day) - (1461 * c) / 4)) / 306001 == m + 1,
{
    let t = (306001 * (m + 1)) / 10000 + day;
    assert(123 <= t <= 488);
    assert(t == 488 ==> m == 14 && day == 29);
    let b = days_to(c, m, day);
    let q = (1461 * c) / 4;
    assert(b == q + t);
    assert(4 * q <= 1461 * c <= 4 * q + 3);
    assert(t == 488 ==> 1461 * c == 4 * q + 3) by {
        if t == 488 {
            assert(c % 4 == 3);
            assert((1461 * c) % 4 == 3);
        }
    }
    assert(7305 * c <= 20 * b - 2442 < 7305 * c + 7305);
}

/// From the reform on, the day number of a Gregorian date with the dropped
/// days of the centuries put back is the count of days of the same date
/// by the rules of the Julian calendar.
#[verifier::spinoff_prover]
#[verifier::rlimit(40)]
proof fn lemma_julian_count_of_gregorian(y: int, m: int, day: int)
    requires
        exists_in_shifted_month(y + 4716, m, day),
        (m == 14 && day == 29 && (y + 1) % 100 == 0) ==> (y + 1) % 400 == 0,
        days_to(y + 4716, m, day) + gregorian_correction(y) - 1524 >= 2299161,
    ensures
        julian_count(days_to(y + 4716, m, day) + gregorian_correction(y) - 1524) == days_to(
            y + 4716,
            m,
            day,
        ) - 1524,
{
    let a = y / 100;
    let r = y % 100;
    let z = days_to(y + 4716, m, day) + gregorian_correction(y) - 1524;
    let t = (306001 * (m + 1)) / 10000 + day;
    assert(y == 100 * a + r);
    assert(1461 * (y + 4716) == 4 * (36525 * a + 1722519) + 1461 * r);
    assert((1461 * (y + 4716)) / 4 == 36525 * a + 1722519 + (1461 * r) / 4);
    assert(z == 36524 * a + a / 4 + 1720997 + (1461 * r) / 4 + t);
    assert(123 <= t <= 488);
    assert(0 <= (1461 * r) / 4 <= 36159);
    assert(t == 488 ==> m == 14 && day == 29);
    assert((1461 * r) / 4 + t == 36647 ==> a % 4 == 3) by {
        if (1461 * r) / 4 + t == 36647 {
            assert(r == 99);
            assert(y + 1 == 100 * (a + 1));
            assert((y + 1) % 400 == 0);
        }
    }
    let alpha = (4 * z - 7468865) / 146097;
    assert(146097 * (a - 4) <= 4 * z - 7468865 < 146097 * (a - 3));
    assert(alpha == a - 4);
    assert(alpha / 4 == a / 4 - 1);
}

/// A date that exists in its calendar, and is named in the calendar that
/// dates of its time are given in, is the date of its own Julian Day: the
/// calendar, the year, the month, the day and the fraction all come back
/// exactly.
#[verifier::spinoff_prover]
#[verifier::rlimit(40)]
pub proof fn lemma_date_of_its_julian_day(d: DateView)
    requires
        d.is_calendar_date(),
        d.in_calendar_of_its_time(),
    ensures
        date_of_ticks(d.jd_ticks()) == d,
{
    let y = shifted_year(d.year, d.month);
    let m = shifted_month(d.month);
    let c = y + 4716;
    let n = d.day_number();
    let shifted = d.jd_ticks() + (TICKS_PER_HALF_DAY as int);
    assert(shifted == n * 1_000_000_000 + d.fraction);
    assert(shifted / (TICKS_PER_DAY as int) == n);
    assert(shifted % (TICKS_PER_DAY as int) == d.fraction);
    assert(exists_in_shifted_month(c, m, d.day)) by {
        if d.month == 2 && d.day == 29 {
            assert(d.year % 4 == 0);
            assert(c == d.year + 4715);
        }
    }
    lemma_parts_of_days_to(c, m, d.day);
    match d.cal {
        Calendar::Julian => {
            assert(n == days_to(c, m, d.day) - 1524);
            assert(n < 2299161);
            assert(julian_count(n) == n);
        },
        Calendar::Gregorian => {
            assert(n == days_to(c, m, d.day) + gregorian_correction(y) - 1524);
            lemma_julian_count_of_gregorian(y, m, d.day);
            assert(d.jd_ticks() >= 2299161 * 1_000_000_000 - 500_000_000);
        },
    }
    assert(julian_count(n) + 1524 == days_to(c, m, d.day));
}

/// Reading a count of days as the days to a day of a shifted month, and
/// counting the days to that day, gives the count back; and the day that
/// was read exists in its month.
#[verifier::spinoff_prover]
#[verifier::rlimit(40)]
proof fn lemma_days_to_of_parts(b: int)
    ensures
        ({
            let c = (20 * b - 2442) / 7305;
            let e = (10000 * (b - (1461 * c) / 4)) / 306001;
            let day = b - (1461 * c) / 4 - (306001 * e) / 10000;
            exists_in_shifted_month(c, e - 1, day) && days_to(c, e - 1, day) == b
        }),
{
    let c = (20 * b - 2442) / 7305;
    let d = (1461 * c) / 4;
    let x = b - d;
    assert(7305 * c <= 20 * b - 2442 < 7305 * c + 7305);
    assert(4 * d <= 1461 * c <= 4 * d + 3);
    assert(123 <= x <= 488);
    assert(x == 488 ==> c % 4 == 3) by {
        if x == 488 {
            assert(1461 * c >= 4 * d + 3);
        }
    }
    let e = (10000 * x) / 306001;
    assert(4 <= e <= 15);
}

/// From the reform on, a day number with the dropped days of the centuries
/// put back is the count of days of a year whose century gives the same
/// days back as its correction; and where the count ends on a February 29
/// of the last year of a century, that century is a fourth one.
#[verifier::spinoff_prover]
#[verifier::rlimit(40)]
proof fn lemma_gregorian_correction_of_julian_count(z: int)
    requires
        z >= gregorian_reform_day(),
    ensures
        ({
            let b = julian_count(z) + 1524;
            let c = (20 * b - 2442) / 7305;
            &&& julian_count(z) + gregorian_correction(c - 4716) == z
            &&& (b - (1461 * c) / 4 == 488 && (c - 4715) % 100 == 0) ==> (c - 4715) % 400 == 0
        }),
{
    let alpha = (4 * z - 7468865) / 146097;
    let a = alpha + 4;
    assert(146097 * alpha <= 4 * z - 7468865 < 146097 * alpha + 146097);
    assert(alpha / 4 == a / 4 - 1);
    assert(4 * (a / 4) <= a <= 4 * (a / 4) + 3);
    let j = julian_count(z);
    assert(j == z + a - 2 - a / 4);
    let b = j + 1524;
    assert(36525 * a + 1722642 <= b);
    assert(b <= 36525 * a + 1759166);
    assert(b == 36525 * a + 1759166 ==> a % 4 == 3);
    let c = (20 * b - 2442) / 7305;
    assert(7305 * c <= 20 * b - 2442 < 7305 * c + 7305);
    assert(100 * a + 4716 <= c < 100 * a + 4816);
    assert((c - 4716) / 100 == a);
    assert(gregorian_correction(c - 4716) == 2 - a + a / 4);
    if b - (1461 * c) / 4 == 488 && (c - 4715) % 100 == 0 {
        assert(c == 100 * a + 4815);
        assert(1461 * c == 4 * (36525 * a + 1758678) + 3);
        assert((1461 * c) / 4 == 36525 * a + 1758678);
        assert(a % 4 == 3);
        assert(c - 4715 == 100 * (a + 1));
    }
}

/// The date of a Julian Day has that Julian Day, exists in its calendar and
/// is named in the calendar of its time, unless the Julian Day lies in the
/// months before the reform in which a date is already called Gregorian.
#[verifier::spinoff_prover]
#[verifier::rlimit(40)]
pub proof fn lemma_julian_day_of_its_date(ticks: int)
    requires
        ticks < gregorian_tag_ticks() || ticks >= gregorian_reform_day() * (TICKS_PER_DAY as int)
            - (TICKS_PER_HALF_DAY as int),
    ensures
        date_of_ticks(ticks).jd_ticks() == ticks,
        date_of_ticks(ticks).is_calendar_date(),
        date_of_ticks(ticks).in_calendar_of_its_time(),
{
    let shifted = ticks + (TICKS_PER_HALF_DAY as int);
    let z = shifted / (TICKS_PER_DAY as int);
    let f = shifted % (TICKS_PER_DAY as int);
    assert(shifted == z * 1_000_000_000 + f);
    assert(z >= 2299161 <==> ticks >= 2299161 * 1_000_000_000 - 500_000_000);
    let b = julian_count(z) + 1524;
    let c = (20 * b - 2442) / 7305;
    let d = (1461 * c) / 4;
    let e = (10000 * (b - d)) / 306001;
    let day = b - d - (306001 * e) / 10000;
    lemma_days_to_of_parts(b);
    let date = date_of_ticks(ticks);
    assert(date.month == if e < 14 { e - 1 } else { e - 13 });
    assert(date.day == day);
    assert(shifted_year(date.year, date.month) == c - 4716);
    assert(shifted_month(date.month) == e - 1);
    assert(day == 29 && e == 15 ==> b - d == 488);
    if z >= 2299161 {
        lemma_gregorian_correction_of_julian_count(z);
        assert(date.cal == Calendar::Gregorian);
        assert(date.day_number() == z);
    } else {
        assert(date.cal == Calendar::Julian);
        assert(date.day_number() == z);
    }
}

/// The date of every Julian Day exists in the calendar that it is named
/// in.
#[verifier::spinoff_prover]
#[verifier::rlimit(40)]
pub proof fn lemma_date_of_ticks_is_a_calendar_date(ticks: int)
    ensures
        date_of_ticks(ticks).is_calendar_date(),
{
    if ticks < gregorian_tag_ticks() || ticks >= gregorian_reform_day() * (TICKS_PER_DAY as int) - (
    TICKS_PER_HALF_DAY as int) {
        lemma_julian_day_of_its_date(ticks);
    } else {
        // The months before the reform: July 5 to October 4 of 1582.
        let shifted = ticks + (TICKS_PER_HALF_DAY as int);
        let z = shifted / (TICKS_PER_DAY as int);
        assert(2299069 <= z <= 2299160);
        let b = z + 1524;
        assert(julian_count(z) + 1524 == b);
        let c = (20 * b - 2442) / 7305;
        assert(c == 6298);
        let d = (1461 * c) / 4;
        assert(d == 2300344);
        let e = (10000 * (b - d)) / 306001;
        assert(8 <= e <= 11);
        lemma_days_to_of_parts(b);
    }
}

/// Day numbers run on through a calendar without a gap: the first day of a
/// month follows the last day of the month before, and the first day of a
/// year the last day of the year before.
#[verifier::spinoff_prover]
#[verifier::rlimit(40)]
pub proof fn lemma_day_numbers_run_on(cal: Calendar, year: int, month: int)
    requires
        1 <= month <= 12,
    ensures
        month < 12 ==> day_number(cal, year, month + 1, 1) == day_number(
            cal,
            year,
            month,
            days_in_month(cal, year, month),
        ) + 1,
        month == 12 ==> day_number(cal, year + 1, 1, 1) == day_number(cal, year, 12, 31) + 1,
{
    if month == 2 {
        let a = (year - 1) / 100;
        let q = (year - 1) / 4;
        assert(year % 4 == 0 <==> (year - 1) % 4 == 3);
        assert(year % 100 == 0 <==> (year - 1) % 100 == 99);
        assert(year % 400 == 0 <==> (year - 1) % 400 == 399);
        if year % 100 == 0 {
            assert(year / 100 == a + 1);
            assert(year % 400 == 0 <==> (a + 1) % 4 == 0);
        } else {
            assert(year / 100 == a);
        }
    }
}

/// Where the day numbers start and where the calendars meet: the day of
/// the epoch, January 1 of the year -4712 of the Julian calendar, has the
/// number 0, and October 15 of 1582 of the Gregorian calendar follows
/// October 4 of 1582 of the Julian calendar.
pub proof fn lemma_day_number_anchors()
    ensures
        day_number(Calendar::Julian, -4712, 1, 1) == 0,
        day_number(Calendar::Gregorian, 1582, 10, 15) == gregorian_reform_day(),
        day_number(Calendar::Gregorian, 1582, 10, 15) == day_number(Calendar::Julian, 1582, 10, 4)
            + 1,
{
}

/// The day of the week of a date does not depend on the time of day.
pub proof fn lemma_day_of_week_ignores_fraction(d: DateView, fraction: int)
    ensures
        (DateView { fraction, ..d }).day_of_week() == d.day_of_week(),
{
}

/// The day of the week of a date is found from its Julian Day: round it to
/// the nearest whole day, add 1 and take the remainder by 7, which is 0 on
/// a Sunday.
pub proof fn lemma_day_of_week_of_julian_day(d: DateView)
    requires
        d.has_day_fraction(),
    ensures
        d.day_of_week() == day_of_week_of_number(
            ((d.jd_ticks() + (TICKS_PER_HALF_DAY as int)) / (TICKS_PER_DAY as int) + 1) % 7,
        ),
{
    let n = d.day_number();
    let shifted = d.jd_ticks() + (TICKS_PER_HALF_DAY as int);
    assert(shifted == n * 1_000_000_000 + d.fraction);
    assert(shifted / (TICKS_PER_DAY as int) == n);
}

/// The number of days that the rule of the day of the year counts for a
/// month: February has 29 where the rule counts a leap day.
pub open spec fn counted_days_in_month(cal: Calendar, year: int, month: int) -> int {
    if month == 2 {
        if counts_leap_day(cal, year) {
            29
        } else {
            28
        }
    } else if month == 4 || month == 6 || month == 9 || month == 11 {
        30
    } else {
        31
    }
}

/// The days of a year are numbered in a row: those of January by their day
/// of the month, and those of each later month after all the days counted
/// for the month before.
pub proof fn lemma_day_of_year_runs_on(cal: Calendar, year: int, month: int, day: int)
    requires
        1 <= month <= 12,
    ensures
        month == 1 ==> day_of_year(cal, year, month, day) == day,
        month > 1 ==> day_of_year(cal, year, month, day) == day_of_year(cal, year, month - 1, 0)
            + counted_days_in_month(cal, year, month - 1) + day,
{
}

/// The day number of the spring day that an index names, in terms of the
/// index and of the days of the years before.
proof fn lemma_day_number_at_index(cal: Calendar, year: int, index: int)
    requires
        93 <= index < 155,
    ensures
        cal == Calendar::Julian ==> date_at_index(cal, year, index).day_number() == (1461 * (year
            + 4716)) / 4 + index - 1494,
        cal == Calendar::Gregorian ==> date_at_index(cal, year, index).day_number() == (1461 * (
        year + 4716)) / 4 + gregorian_correction(year) + index - 1494,
{
    let month = index / 31;
    assert(month == 3 || month == 4);
    assert(shifted_year(year, month) == year);
    assert(shifted_month(month) == month);
    if month == 3 {
        assert((306001 * (month + 1)) / 10000 == 122);
        assert(index % 31 == index - 93);
    } else {
        assert((306001 * (month + 1)) / 10000 == 153);
        assert(index % 31 == index - 124);
    }
}

/// The days of `year + 4716` years of 365 days and a quarter, the quarters
/// rounded down, in terms of the quotient and the remainder of the year
/// by 4.
proof fn lemma_days_of_years(year: int, q: int, r: int)
    requires
        year == 4 * q + r,
        0 <= r < 4,
    ensures
        (1461 * (year + 4716)) / 4 == 1461 * q + 365 * r + 1722519,
{
    assert(1461 * (year + 4716) == 4 * (1461 * q + 365 * r + 1722519) + r);
}

/// The parts `(h, l, m)` of which the Gregorian rule makes its index, for a
/// year that is not negative.
#[verifier::spinoff_prover]
#[verifier::rlimit(40)]
proof fn lemma_gregorian_index_parts(year: int) -> (p: (int, int, int))
    requires
        year >= 0,
    ensures
        gregorian_easter_index(year) == p.0 + p.1 - 7 * p.2 + 114,
        0 <= p.0 < 30,
        0 <= p.1 < 7,
        p.2 == (year % 19 + 11 * p.0 + 22 * p.1) / 451,
        (32 + 2 * ((year / 100) % 4) + 2 * ((year % 100) / 4) - p.0 - (year % 100) % 4 - p.1) % 7
            == 0,
{
    let a = year % 19;
    let b = year / 100;
    let c = year % 100;
    let d = b / 4;
    let e = b % 4;
    let f = (b + 8) / 25;
    let g = (b - f + 1) / 3;
    let h = (19 * a + b - d - g + 15) % 30;
    let i = c / 4;
    let k = c % 4;
    let l = (32 + 2 * e + 2 * i - h - k) % 7;
    let m = (a + 11 * h + 22 * l) / 451;
    assert(b >= 0 && 0 <= c < 100);
    assert(b - f + 1 >= 0);
    assert(g <= b + 1);
    assert(19 * a + b - d - g + 15 >= 0);
    assert(32 + 2 * e + 2 * i - h - k >= 0);
    (h, l, m)
}

/// A day whose number is made of these parts is a Sunday: the parts are
/// those of the Gregorian rule, with the quotients that go with its
/// remainders.
proof fn lemma_gregorian_parts_make_a_sunday(
    z: int,
    b: int,
    c: int,
    d: int,
    e: int,
    i: int,
    k: int,
    h: int,
    l: int,
    w: int,
    m: int,
)
    requires
        b == 4 * d + e,
        c == 4 * i + k,
        32 + 2 * e + 2 * i - h - k == 7 * w + l,
        z == 36524 * b + d + 365 * c + i + (h + l - 7 * m + 114) + 1721027,
    ensures
        (z + 1) % 7 == 0,
{
    assert(z + 1 == 7 * (20871 * d + 5218 * e + 209 * i + 52 * k - w - m + 245882));
}

/// The index that the Gregorian rule makes of its parts names a day from
/// March 22 to April 25.
proof fn lemma_gregorian_index_in_season(a: int, h: int, l: int, m: int)
    requires
        0 <= a < 19,
        0 <= h < 30,
        0 <= l < 7,
        m == (a + 11 * h + 22 * l) / 451,
    ensures
        114 <= h + l - 7 * m + 114 <= 148,
{
    let t = a + 11 * h + 22 * l;
    assert(0 <= t <= 469);
    assert(451 * m <= t < 451 * m + 451);
    assert(m == 0 || m == 1);
    if m == 1 {
        assert(11 * h + 22 * l >= 433);
        assert(h + l >= 7);
    } else {
        assert(11 * h + 22 * l <= 450);
        assert(h + l <= 34);
    }
}

/// In a year that is not negative, Easter by the Gregorian rule is a Sunday
/// between March 22 and April 25.
#[verifier::spinoff_prover]
#[verifier::rlimit(40)]
pub proof fn lemma_gregorian_easter_is_a_spring_sunday(year: int)
    requires
        year >= 0,
    ensures
        in_easter_season(gregorian_easter(year)),
        gregorian_easter(year).day_of_week() == DayOfWeek::Sunday,
{
    let (h, l, m) = lemma_gregorian_index_parts(year);
    let index = gregorian_easter_index(year);
    lemma_gregorian_index_in_season(year % 19, h, l, m);
    lemma_day_number_at_index(Calendar::Gregorian, year, index);
    let z = gregorian_easter(year).day_number();
    let b = year / 100;
    let c = year % 100;
    let d = b / 4;
    let e = b % 4;
    let i = c / 4;
    let k = c % 4;
    let w = (32 + 2 * e + 2 * i - h - k) / 7;
    assert(year == 100 * b + c && b == 4 * d + e && c == 4 * i + k);
    lemma_days_of_years(year, 25 * b + i, k);
    assert(gregorian_correction(year) == 2 - b + d);
    assert(z == (1461 * (25 * b + i) + 365 * k + 1722519) + (2 - b + d) + index - 1494);
    lemma_gregorian_parts_make_a_sunday(z, b, c, d, e, i, k, h, l, w, m);
    assert(in_easter_season(gregorian_easter(year))) by {
        assert(index / 31 == 3 || index / 31 == 4);
    }
}

/// The parts `(d, e)` of which the Julian rule makes its index, for a year
/// that is not negative.
#[verifier::spinoff_prover]
#[verifier::rlimit(40)]
proof fn lemma_julian_index_parts(year: int) -> (p: (int, int))
    requires
        year >= 0,
    ensures
        julian_easter_index(year) == p.0 + p.1 + 114,
        0 <= p.0 < 29,
        0 <= p.1 < 7,
        (2 * (year % 4) + 4 * (year % 7) - p.0 + 34 - p.1) % 7 == 0,
{
    let a = year % 4;
    let b = year % 7;
    let c = year % 19;
    let d = (19 * c + 15) % 30;
    let e = (2 * a + 4 * b - d + 34) % 7;
    assert(2 * a + 4 * b - d + 34 >= 0);
    assert(d != 29) by {
        let t = (19 * c + 15) / 30;
        assert(19 * c + 15 == 30 * t + d);
        assert(0 <= t <= 11);
        if d == 29 {
            assert(19 * c == 30 * t + 14);
            assert(false);
        }
    }
    (d, e)
}

/// A day whose number is made of these parts is a Sunday: the parts are
/// those of the Julian rule, with the quotients that go with its
/// remainders.
proof fn lemma_julian_parts_make_a_sunday(
    z: int,
    q: int,
    a: int,
    u: int,
    b: int,
    d: int,
    e: int,
    w: int,
)
    requires
        4 * q + a == 7 * u + b,
        2 * a + 4 * b - d + 34 == 7 * w + e,
        z == 1461 * q + 365 * a + (d + e + 114) + 1721025,
    ensures
        (z + 1) % 7 == 0,
{
    assert(z + 1 == 7 * (211 * q + 53 * a - 4 * u - w + 245882));
}

/// In a year that is not negative, Easter by the Julian rule is a Sunday
/// between March 22 and April 25.
#[verifier::spinoff_prover]
#[verifier::rlimit(40)]
pub proof fn lemma_julian_easter_is_a_spring_sunday(year: int)
    requires
        year >= 0,
    ensures
        in_easter_season(julian_easter(year)),
        julian_easter(year).day_of_week() == DayOfWeek::Sunday,
{
    let (d, e) = lemma_julian_index_parts(year);
    let index = julian_easter_index(year);
    assert(114 <= index <= 148);
    lemma_day_number_at_index(Calendar::Julian, year, index);
    let z = julian_easter(year).day_number();
    let q = year / 4;
    let a = year % 4;
    let u = year / 7;
    let b = year % 7;
    let w = (2 * a + 4 * b - d + 34) / 7;
    lemma_days_of_years(year, q, a);
    assert(z == 1461 * q + 365 * a + index + 1721025);
    lemma_julian_parts_make_a_sunday(z, q, a, u, b, d, e, w);
}

/// In a year that is not negative, Easter is a Sunday between March 22 and
/// April 25 of the calendar that the year is reckoned in.
pub proof fn lemma_easter_is_a_spring_sunday(year: int)
    requires
        year >= 0,
    ensures
        in_easter_season(easter(year)),
        easter(year).day_of_week() == DayOfWeek::Sunday,
{
    lemma_gregorian_easter_is_a_spring_sunday(year);
    lemma_julian_easter_is_a_spring_sunday(year);
}

/// The parts `(whole, j, put_off)` of which the rule of Passover makes its
/// day in a year from 1583 to 2500: the whole days of the moment, the
/// number that stands for their day of the week, and the days by which
/// the feast is put off.
#[verifier::spinoff_prover]
#[verifier::rlimit(40)]
proof fn lemma_passover_parts(x: int) -> (p: (int, int, int))
    requires
        1583 <= x <= 2500,
    ensures
        passover_march_day(x) == p.0 + 22 + p.2,
        2 <= p.0 <= 36,
        0 <= p.1 < 7,
        (p.0 + 3 * x + 5 * (x % 4) + 2 - (3 * (x / 100) - 5) / 4 - p.1) % 7 == 0,
        (p.1 == 2 || p.1 == 4 || p.1 == 6) ==> p.2 == 1,
        p.1 == 1 ==> p.2 == 0 || p.2 == 2,
        p.1 == 0 ==> p.2 == 0 || p.2 == 1,
        (p.1 == 3 || p.1 == 5) ==> p.2 == 0,
{
    let c = x / 100;
    let s = (3 * c - 5) / 4;
    let a = (12 * x + 12) % 19;
    let b = x % 4;
    assert(15 <= c <= 25);
    assert(100 * c <= x <= 100 * c + 99);
    assert(3 * c - 8 <= 4 * s <= 3 * c - 5);
    assert(3 * x - 1097 <= 400 * s <= 3 * x - 500);
    let q = passover_moment(x);
    assert(q == -1_904_412_361_576 + 1_554_241_796_621 * a + 250_000_000_000 * b - 3_177_794_022
        * x + 1_000_000_000_000 * s);
    assert(2_000_000_000_000 <= q < 37_000_000_000_000);
    let whole = q / 1_000_000_000_000;
    let part = q % 1_000_000_000_000;
    let t = whole + 3 * x + 5 * b + 2 - s;
    assert(t >= 0);
    let j = t % 7;
    let put_off: int = if j == 2 || j == 4 || j == 6 {
        1
    } else if j == 1 && a > 6 && part > 632_870_370_000 {
        2
    } else if j == 0 && a > 11 && part >= 897_723_765_000 {
        1
    } else {
        0
    };
    (whole, j, put_off)
}

/// A day of March or April whose number is made of these parts falls on
/// the day of the week whose number is `j + put_off - 1`, up to whole
/// weeks: the parts are those of the rule of Passover, with the quotients
/// that go with its remainders.
proof fn lemma_passover_parts_make_a_day_of_week(
    z: int,
    n: int,
    b: int,
    u: int,
    v: int,
    s: int,
    whole: int,
    w: int,
    j: int,
    put_off: int,
)
    requires
        0 <= v < 4,
        4 * s <= 3 * (4 * u + v) - 5 < 4 * s + 4,
        whole + 3 * (4 * n + b) + 5 * b + 2 - s == 7 * w + j,
        z == 1461 * n + 365 * b + 1722519 + (whole + 22 + put_off) + (2 - (4 * u + v) + u) - 1402,
    ensures
        (z + 1 - (j + put_off - 1)) % 7 == 0,
{
    assert(s - (4 * u + v) + u == -2);
    assert(z + 1 - (j + put_off - 1) == 7 * (207 * n + 51 * b + w + 245877));
}

/// The date of Passover where the rule gives a day from March 24 to
/// April 29: it exists in the calendar, and its day number is that of the
/// last day of February and as many days more as the rule gives.
#[verifier::spinoff_prover]
#[verifier::rlimit(40)]
proof fn lemma_passover_date(x: int, d: int)
    requires
        d == passover_march_day(x),
        24 <= d <= 60,
    ensures
        gregorian_passover(x).is_calendar_date(),
        gregorian_passover(x).month == 3 || gregorian_passover(x).month == 4,
        gregorian_passover(x).day_number() == (1461 * (x + 4716)) / 4 + d + gregorian_correction(x)
            - 1402,
{
    let date = gregorian_passover(x);
    if d > 31 {
        assert((d - 31) % 256 == d - 31);
        assert(date.month == 4 && date.day == d - 31);
        assert(shifted_year(x, 4) == x && shifted_month(4) == 4);
        assert((306001 * (4 + 1)) / 10000 == 153);
        assert(date.day_number() == day_number(Calendar::Gregorian, x, 4, d - 31));
    } else {
        assert(d % 256 == d);
        assert(date.month == 3 && date.day == d);
        assert(shifted_year(x, 3) == x && shifted_month(3) == 3);
        assert((306001 * (3 + 1)) / 10000 == 122);
        assert(date.day_number() == day_number(Calendar::Gregorian, x, 3, d));
    }
}

/// A day of a year of the Gregorian calendar, from the year 200 on, whose
/// number is made of the parts of the rule of Passover falls on a Sunday, a
/// Tuesday, a Thursday or a Saturday.
#[verifier::spinoff_prover]
#[verifier::rlimit(40)]
proof fn lemma_passover_parts_make_a_day_of_four(
    x: int,
    z: int,
    whole: int,
    j: int,
    put_off: int,
)
    requires
        200 <= x,
        0 <= j < 7,
        (whole + 3 * x + 5 * (x % 4) + 2 - (3 * (x / 100) - 5) / 4 - j) % 7 == 0,
        (j == 2 || j == 4 || j == 6) ==> put_off == 1,
        j == 1 ==> put_off == 0 || put_off == 2,
        j == 0 ==> put_off == 0 || put_off == 1,
        (j == 3 || j == 5) ==> put_off == 0,
        z == (1461 * (x + 4716)) / 4 + (whole + 22 + put_off) + gregorian_correction(x) - 1402,
    ensures
        (z + 1) % 7 == 0 || (z + 1) % 7 == 2 || (z + 1) % 7 == 4 || (z + 1) % 7 == 6,
{
    let n = x / 4;
    let b = x % 4;
    let c = x / 100;
    let u = c / 4;
    let v = c % 4;
    let s = (3 * c - 5) / 4;
    let t = whole + 3 * x + 5 * b + 2 - s - j;
    let w = t / 7;
    assert(t == 7 * w);
    lemma_days_of_years(x, n, b);
    assert(gregorian_correction(x) == 2 - c + u);
    assert(c == 4 * u + v);
    lemma_passover_parts_make_a_day_of_week(z, n, b, u, v, s, whole, w, j, put_off);
    lemma_day_of_week_from_remainder(z + 1, j + put_off - 1);
}

/// In the years from 1583 to 2500 Passover is a day of March or April that
/// exists in the calendar, and it falls on a Sunday, a Tuesday, a Thursday
/// or a Saturday.
#[verifier::spinoff_prover]
#[verifier::rlimit(40)]
pub proof fn lemma_passover_is_a_spring_day_of_four(x: int)
    requires
        1583 <= x <= 2500,
    ensures
        gregorian_passover(x).is_calendar_date(),
        gregorian_passover(x).month == 3 || gregorian_passover(x).month == 4,
        ({
            let day = gregorian_passover(x).day_of_week();
            ||| day == DayOfWeek::Sunday
            ||| day == DayOfWeek::Tuesday
            ||| day == DayOfWeek::Thursday
            ||| day == DayOfWeek::Saturday
        }),
{
    let (whole, j, put_off) = lemma_passover_parts(x);
    lemma_passover_date(x, whole + 22 + put_off);
    let z = gregorian_passover(x).day_number();
    lemma_passover_parts_make_a_day_of_four(x, z, whole, j, put_off);
}

/// A number that differs by whole weeks from one of -1, 0, 2, 4 and 6
/// leaves 6, 0, 2, 4 or 6 when divided by 7.
proof fn lemma_day_of_week_from_remainder(t: int, k: int)
    requires
        (t - k) % 7 == 0,
        k == -1 || k == 0 || k == 2 || k == 4 || k == 6,
    ensures
        t % 7 == 0 || t % 7 == 2 || t % 7 == 4 || t % 7 == 6,
{
}

} // verus!
