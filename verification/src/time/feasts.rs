//! The dates of Easter and of Passover in a given year.
//!
//! Both are closed-form rules over the number of the year. They take quotients
//! and remainders that round towards zero, which are written out here as
//! [`trunc_div`] and [`trunc_rem`]; for a year that is not negative these
//! are the ordinary quotient and remainder.

use crate::arith::floor_mod;
use crate::arith::trunc_div;
use crate::arith::trunc_rem;
use crate::time::date::Calendar;
use crate::time::date::Date;
use crate::time::date::DateView;
use crate::time::date::DayOfMonth;
use crate::time::date::DayOfWeek;
use crate::time::date::Month;
use crate::time::date::Year;
use crate::time::laws::lemma_gregorian_easter_is_a_spring_sunday;
use crate::time::laws::lemma_julian_easter_is_a_spring_sunday;
use crate::time::laws::lemma_passover_is_a_spring_day_of_four;
use vstd::prelude::*;

verus! {

/// The first year in which Easter is reckoned in the Gregorian calendar.
pub const FIRST_GREGORIAN_YEAR: i32 = 1583;

/// The place of Easter in the spring of a year of the Gregorian calendar:
/// 31 times the number of the month, plus the day of the month, less 1.
pub open spec fn gregorian_easter_index(year: int) -> int {
    let a = trunc_rem(year, 19);
    let b = trunc_div(year, 100);
    let c = trunc_rem(year, 100);
    let d = trunc_div(b, 4);
    let e = trunc_rem(b, 4);
    let f = trunc_div(b + 8, 25);
    let g = trunc_div(b - f + 1, 3);
    let h = trunc_rem(19 * a + b - d - g + 15, 30);
    let i = trunc_div(c, 4);
    let k = trunc_rem(c, 4);
    let l = trunc_rem(32 + 2 * e + 2 * i - h - k, 7);
    let m = trunc_div(a + 11 * h + 22 * l, 451);
    h + l - 7 * m + 114
}

/// The place of Easter in the spring of a year of the Julian calendar,
/// counted as in [`gregorian_easter_index`].
pub open spec fn julian_easter_index(year: int) -> int {
    let a = trunc_rem(year, 4);
    let b = trunc_rem(year, 7);
    let c = trunc_rem(year, 19);
    let d = trunc_rem(19 * c + 15, 30);
    let e = trunc_rem(2 * a + 4 * b - d + 34, 7);
    d + e + 114
}

/// The date at the start of the day that an index names in a year of a
/// calendar: the index divided by 31 is the month, the remainder the day
/// before the one meant.
pub open spec fn date_at_index(cal: Calendar, year: int, index: int) -> DateView {
    DateView { cal, year, month: index / 31, day: index % 31 + 1, fraction: 0 }
}

/// The date of Easter in a year of the Gregorian calendar.
pub open spec fn gregorian_easter(year: int) -> DateView {
    date_at_index(Calendar::Gregorian, year, gregorian_easter_index(year))
}

/// The date of Easter in a year of the Julian calendar.
pub open spec fn julian_easter(year: int) -> DateView {
    date_at_index(Calendar::Julian, year, julian_easter_index(year))
}

/// The date of Easter in a year, in the calendar that the year is reckoned
/// in: the Gregorian calendar from [`FIRST_GREGORIAN_YEAR`] on, the Julian
/// calendar before.
pub open spec fn easter(year: int) -> DateView {
    if year >= FIRST_GREGORIAN_YEAR {
        gregorian_easter(year)
    } else {
        julian_easter(year)
    }
}

/// Whether the date is a day of the season of Easter: March 22 to April 25.
pub open spec fn in_easter_season(d: DateView) -> bool {
    ||| d.month == 3 && 22 <= d.day <= 31
    ||| d.month == 4 && 1 <= d.day <= 25
}

/// Calculates the date of Easter for a given year.
///
/// This function handles the differences in the Gregorian and Julian
/// calendars, and uses 1583 as the first year of the Gregorian calendar. The
/// returned date has no fraction of a day.
pub fn find_easter_by_year(year: Year) -> (date: Date)
    ensures
        date@ == easter(year.0 as int),
        year.0 >= 0 ==> in_easter_season(date@) && date@.day_of_week() == DayOfWeek::Sunday,
{
    if year.0 >= FIRST_GREGORIAN_YEAR {
        find_gregorian_easter(year)
    } else {
        find_julian_easter(year)
    }
}

/// Calculates the date of Easter for a given year by the rule of the given
/// calendar.
pub fn find_easter_by_calendar(year: Year, calendar: Calendar) -> (date: Date)
    ensures
        calendar == Calendar::Julian ==> date@ == julian_easter(year.0 as int),
        calendar == Calendar::Gregorian ==> date@ == gregorian_easter(year.0 as int),
        year.0 >= 0 ==> in_easter_season(date@) && date@.day_of_week() == DayOfWeek::Sunday,
{
    match calendar {
        Calendar::Julian => find_julian_easter(year),
        Calendar::Gregorian => find_gregorian_easter(year),
    }
}

/// Calculates the date of Easter for a given year in the Gregorian calendar.
#[verifier::spinoff_prover]
#[verifier::rlimit(40)]
pub fn find_gregorian_easter(year: Year) -> (date: Date)
    ensures
        date@ == gregorian_easter(year.0 as int),
        year.0 >= 0 ==> in_easter_season(date@) && date@.day_of_week() == DayOfWeek::Sunday,
{
    proof {
        if year.0 >= 0 {
            lemma_gregorian_easter_is_a_spring_sunday(year.0 as int);
        }
    }
    let a: i32 = year.0 % 19;
    let b: i32 = year.0 / 100;
    let c: i32 = year.0 % 100;
    assert(a == trunc_rem(year.0 as int, 19) && -19 < a < 19);
    assert(b == trunc_div(year.0 as int, 100) && -21474837 < b < 21474837);
    assert(c == trunc_rem(year.0 as int, 100) && -100 < c < 100);
    let d: i32 = b / 4;
    let e: i32 = b % 4;
    assert(d == trunc_div(b as int, 4) && -5368710 < d < 5368710);
    assert(e == trunc_rem(b as int, 4) && -4 < e < 4);
    let f: i32 = (b + 8) / 25;
    assert(f == trunc_div(b + 8, 25) && -858994 < f < 858994);
    let g: i32 = (b - f + 1) / 3;
    assert(g == trunc_div(b - f + 1, 3) && -7444611 < g < 7444611);
    let h: i32 = (19 * a + b - d - g + 15) % 30;
    assert(h == trunc_rem(19 * a + b - d - g + 15, 30) && -30 < h < 30);
    let i: i32 = c / 4;
    let k: i32 = c % 4;
    assert(i == trunc_div(c as int, 4) && -25 < i < 25);
    assert(k == trunc_rem(c as int, 4) && -4 < k < 4);
    let l: i32 = (32 + 2 * e + 2 * i - h - k) % 7;
    assert(l == trunc_rem(32 + 2 * e + 2 * i - h - k, 7) && -7 < l < 7);
    let m: i32 = (a + 11 * h + 22 * l) / 451;
    assert(m == trunc_div(a + 11 * h + 22 * l, 451) && -2 < m < 2);
    let index: i32 = h + l - 7 * m + 114;
    assert(index == gregorian_easter_index(year.0 as int) && 62 <= index < 186);
    let n: i32 = index / 31;
    let p: i32 = index % 31;
    Date::at_midnight(Calendar::Gregorian, year, Month::from_number(n), DayOfMonth((p + 1) as u8))
}

/// Calculates the date of Easter for a given year in the Julian calendar.
pub fn find_julian_easter(year: Year) -> (date: Date)
    ensures
        date@ == julian_easter(year.0 as int),
        year.0 >= 0 ==> in_easter_season(date@) && date@.day_of_week() == DayOfWeek::Sunday,
{
    proof {
        if year.0 >= 0 {
            lemma_julian_easter_is_a_spring_sunday(year.0 as int);
        }
    }
    let a: i32 = year.0 % 4;
    let b: i32 = year.0 % 7;
    let c: i32 = year.0 % 19;
    let d: i32 = (19 * c + 15) % 30;
    let e: i32 = (2 * a + 4 * b - d + 34) % 7;
    let f: i32 = (d + e + 114) / 31;
    let g: i32 = (d + e + 114) % 31;
    Date::at_midnight(Calendar::Julian, year, Month::from_number(f), DayOfMonth((g + 1) as u8))
}

/// The unit in which the rule of Passover counts days: a million millionth
/// of a day.
pub const PASSOVER_SCALE: i128 = 1_000_000_000_000;

/// The number from which the rule of Passover finds the day, in units of a
/// million millionth of a day. With `a` the remainder of `12 x + 12` by 19,
/// `b` the remainder of `x` by 4, and `s` the quarter of three times the
/// century less 5, it is
/// `-1.904412361576 + 1.554241796621 a + 0.25 b - 0.003177794022 x + s`
/// days.
pub open spec fn passover_moment(x: int) -> int {
    let s = trunc_div(3 * trunc_div(x, 100) - 5, 4);
    let a = trunc_rem(12 * x + 12, 19);
    let b = trunc_rem(x, 4);
    -1_904_412_361_576 + 1_554_241_796_621 * a + 250_000_000_000 * b - 3_177_794_022 * x
        + 1_000_000_000_000 * s
}

/// The day of Passover in year `x` of the Gregorian calendar, counted in
/// days of March: a number above 31 is a day of April.
///
/// The whole part of [`passover_moment`] names a day and, with it, a day of
/// the week; the feast is put off by one or two days where that day of the
/// week, the place of the year in the cycle of 19 years and the fraction
/// of the moment ask for it.
pub open spec fn passover_march_day(x: int) -> int {
    let s = trunc_div(3 * trunc_div(x, 100) - 5, 4);
    let a = trunc_rem(12 * x + 12, 19);
    let b = trunc_rem(x, 4);
    let whole = trunc_div(passover_moment(x), PASSOVER_SCALE as int);
    let part = trunc_rem(passover_moment(x), PASSOVER_SCALE as int);
    let j = trunc_rem(whole + 3 * x + 5 * b + 2 - s, 7);
    if j == 2 || j == 4 || j == 6 {
        whole + 23
    } else if j == 1 && a > 6 && part > 632_870_370_000 {
        whole + 24
    } else if j == 0 && a > 11 && part >= 897_723_765_000 {
        whole + 23
    } else {
        whole + 22
    }
}

/// The date of Passover in year `x` of the Gregorian calendar.
///
/// The day of the month is held in eight bits: of a count that does not fit,
/// which the rule gives only for years millions of years away, the
/// remainder by 256 is kept.
pub open spec fn gregorian_passover(x: int) -> DateView {
    let d = passover_march_day(x);
    if d > 31 {
        DateView { cal: Calendar::Gregorian, year: x, month: 4, day: (d - 31) % 256, fraction: 0 }
    } else {
        DateView { cal: Calendar::Gregorian, year: x, month: 3, day: d % 256, fraction: 0 }
    }
}

/// Calculates the date of Passover for a given year of the Gregorian
/// calendar. The returned date has no fraction of a day.
#[verifier::spinoff_prover]
#[verifier::rlimit(40)]
pub fn find_gregorian_passover(greg_year: Year) -> (date: Date)
    ensures
        date@ == gregorian_passover(greg_year.0 as int),
        1583 <= greg_year.0 <= 2500 ==> date@.is_calendar_date() && (date@.month == 3
            || date@.month == 4),
{
    proof {
        if 1583 <= greg_year.0 <= 2500 {
            lemma_passover_is_a_spring_day_of_four(greg_year.0 as int);
        }
    }
    let x: i128 = greg_year.0 as i128;
    let c: i128 = x / 100;
    let s: i128 = (3 * c - 5) / 4;
    let a: i128 = (12 * x + 12) % 19;
    let b: i128 = x % 4;
    assert(s == trunc_div(3 * trunc_div(x as int, 100) - 5, 4) && -20_000_000 < s < 20_000_000);
    assert(a == trunc_rem(12 * x + 12, 19) && -19 < a < 19);
    assert(b == trunc_rem(x as int, 4) && -4 < b < 4);
    let q: i128 = -1_904_412_361_576 + 1_554_241_796_621 * a + 250_000_000_000 * b - 3_177_794_022
        * x + 1_000_000_000_000 * s;
    assert(q == passover_moment(x as int));
    let q_int: i128 = q / PASSOVER_SCALE;
    let r: i128 = q % PASSOVER_SCALE;
    assert(q_int == trunc_div(q as int, PASSOVER_SCALE as int) && -30_000_000 < q_int
        < 30_000_000);
    assert(r == trunc_rem(q as int, PASSOVER_SCALE as int));
    let j: i128 = (q_int + 3 * x + 5 * b + 2 - s) % 7;
    assert(j == trunc_rem(q_int + 3 * x + 5 * b + 2 - s, 7));
    let d: i128 = if j == 2 || j == 4 || j == 6 {
        q_int + 23
    } else if j == 1 && a > 6 && r > 632_870_370_000 {
        q_int + 24
    } else if j == 0 && a > 11 && r >= 897_723_765_000 {
        q_int + 23
    } else {
        q_int + 22
    };
    assert(d == passover_march_day(x as int));
    let (month, day) = if d > 31 {
        (Month::April, DayOfMonth(floor_mod(d - 31, 256) as u8))
    } else {
        (Month::March, DayOfMonth(floor_mod(d, 256) as u8))
    };
    Date::at_midnight(Calendar::Gregorian, greg_year, month, day)
}

} // verus!
