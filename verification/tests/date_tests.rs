use astro_algos::time::date::Calendar;
use astro_algos::time::date::Date;
use astro_algos::time::date::DayOfMonth;
use astro_algos::time::date::DayOfWeek;
use astro_algos::time::date::Month;
use astro_algos::time::date::Year;
use astro_algos::time::TimeError;
use astro_algos::time::JD;
use astro_algos::time::TICKS_PER_DAY;

/// A fraction of a day, given in ticks, as a floating-point number.
fn as_fraction(ticks: u64) -> f64 {
    ticks as f64 / TICKS_PER_DAY as f64
}

fn fraction_eq(frac1: f64, frac2: f64) -> bool {
    // 1 microsecond expressed in terms of fractions of a day, should be good enough for us
    let min_diff = 0.000001 * 60.0 * 60.0 * 24.0;
    (frac1 - frac2).abs() <= min_diff
}

fn date(cal: Calendar, year: i32, month: Month, day: u8, fraction: u64) -> Date {
    Date::new(cal, Year(year), month, DayOfMonth(day), fraction).unwrap()
}

#[test]
fn date_to_jd() {
    // 1957 October 4.81
    assert_eq!(
        date(Calendar::Gregorian, 1957, Month::October, 4, 810_000_000).to_jd(),
        JD::from(2_436_116_310_000_000u64)
    );

    // 333 January 27.5
    assert_eq!(
        date(Calendar::Julian, 333, Month::January, 27, 500_000_000).to_jd(),
        JD::from(1_842_713_000_000_000u64)
    );

    assert_eq!(
        date(Calendar::Gregorian, 2000, Month::January, 1, 500_000_000).to_jd(),
        JD::from(2_451_545_000_000_000u64)
    );

    assert_eq!(
        date(Calendar::Gregorian, 1600, Month::December, 31, 0).to_jd(),
        JD::from(2_305_812_500_000_000u64)
    );

    assert_eq!(
        date(Calendar::Julian, -1001, Month::August, 17, 900_000_000).to_jd(),
        JD::from(1_355_671_400_000_000u64)
    );

    assert_eq!(
        date(Calendar::Julian, -4712, Month::January, 1, 500_000_000).to_jd(),
        JD::from(0u64)
    );
}

#[test]
fn jd_to_date() {
    let d1 = Date::from_jd(JD::from(2_436_116_310_000_000u64));
    assert_eq!(d1.calendar(), Calendar::Gregorian);
    assert_eq!(d1.year(), Year(1957));
    assert_eq!(d1.month(), Month::October);
    assert_eq!(d1.day(), DayOfMonth(4));
    assert!(fraction_eq(as_fraction(d1.fraction()), 0.81));

    let d1 = Date::from_jd(JD::from(1_842_713_000_000_000u64));
    assert_eq!(d1.calendar(), Calendar::Julian);
    assert_eq!(d1.year(), Year(333));
    assert_eq!(d1.month(), Month::January);
    assert_eq!(d1.day(), DayOfMonth(27));
    assert!(fraction_eq(as_fraction(d1.fraction()), 0.5));

    let d1 = Date::from_jd(JD::from(1_507_900_130_000_000u64));
    assert_eq!(d1.calendar(), Calendar::Julian);
    assert_eq!(d1.year(), Year(-584));
    assert_eq!(d1.month(), Month::May);
    assert_eq!(d1.day(), DayOfMonth(28));
    assert!(fraction_eq(as_fraction(d1.fraction()), 0.63));
}

#[test]
fn day_of_week() {
    assert_eq!(
        date(Calendar::Gregorian, 1954, Month::June, 30, 0).get_day_of_week(),
        DayOfWeek::Wednesday
    );

    assert_eq!(
        date(Calendar::Gregorian, 2019, Month::July, 13, 0).get_day_of_week(),
        DayOfWeek::Saturday
    );
    assert_eq!(
        date(Calendar::Gregorian, 2019, Month::July, 13, 499_999_900).get_day_of_week(),
        DayOfWeek::Saturday
    );
    assert_eq!(
        date(Calendar::Gregorian, 2019, Month::July, 13, 500_000_000).get_day_of_week(),
        DayOfWeek::Saturday
    );
    assert_eq!(
        date(Calendar::Gregorian, 2019, Month::July, 13, 900_000_000).get_day_of_week(),
        DayOfWeek::Saturday
    );
    assert_eq!(
        date(Calendar::Gregorian, 2019, Month::July, 13, 999_999_990).get_day_of_week(),
        DayOfWeek::Saturday
    );
}

#[test]
fn day_of_year() {
    assert_eq!(
        date(Calendar::Gregorian, 1978, Month::November, 14, 0).get_day_of_year(),
        318
    );

    assert_eq!(
        date(Calendar::Gregorian, 1988, Month::April, 22, 0).get_day_of_year(),
        113
    );
}

#[test]
fn jd_fractions_come_back_exactly() {
    let d = Date::from_jd(JD::from(2_436_116_310_000_000u64));
    assert_eq!(d.fraction(), 810_000_000);
    let d = Date::from_jd(JD::from(1_507_900_130_000_000u64));
    assert_eq!(d.fraction(), 630_000_000);
    let d = Date::from_jd(JD::from(0u64));
    assert_eq!(d, date(Calendar::Julian, -4712, Month::January, 1, 500_000_000));
}

#[test]
fn date_comes_back_from_its_julian_day() {
    let dates = [
        date(Calendar::Gregorian, 1957, Month::October, 4, 810_000_000),
        date(Calendar::Gregorian, 2000, Month::February, 29, 1),
        date(Calendar::Gregorian, 1900, Month::February, 28, 999_999_999),
        date(Calendar::Gregorian, 1900, Month::March, 1, 0),
        date(Calendar::Gregorian, 1582, Month::October, 15, 0),
        date(Calendar::Gregorian, 40_000_000, Month::December, 31, 123_456_789),
        date(Calendar::Julian, 1582, Month::July, 4, 999_999_999),
        date(Calendar::Julian, 333, Month::January, 27, 500_000_000),
        date(Calendar::Julian, -584, Month::May, 28, 630_000_000),
        date(Calendar::Julian, -4712, Month::January, 1, 500_000_000),
        date(Calendar::Julian, -4, Month::February, 29, 0),
    ];
    for d in dates {
        assert_eq!(Date::from_jd(d.to_jd()), d);
        assert_eq!(Date::from(d.to_jd()), d);
    }
}

#[test]
fn julian_date_after_the_reform_comes_back_as_gregorian() {
    // The same instant has two names; after the reform the Gregorian one is given.
    let julian = date(Calendar::Julian, 1582, Month::October, 5, 0);
    let gregorian = date(Calendar::Gregorian, 1582, Month::October, 15, 0);
    assert_eq!(julian.to_jd(), gregorian.to_jd());
    assert_eq!(julian.to_jd(), JD::from(2_299_160_500_000_000u64));
    assert_eq!(Date::from_jd(julian.to_jd()), gregorian);
}

#[test]
fn dates_between_the_tag_and_the_reform() {
    // From 2299068.5 on a date is called Gregorian, but until the reform the
    // day is still read off by the Julian rules.
    let d = Date::from_jd(JD::from(2_299_068_500_000_000u64));
    assert_eq!(d, date(Calendar::Gregorian, 1582, Month::July, 5, 0));
    let d = Date::from_jd(JD::from(2_299_068_499_999_999u64));
    assert_eq!(d, date(Calendar::Julian, 1582, Month::July, 4, 999_999_999));
    let d = Date::from_jd(JD::from(2_299_160_499_999_999u64));
    assert_eq!(d, date(Calendar::Gregorian, 1582, Month::October, 4, 999_999_999));
}

#[test]
fn latest_julian_day_has_a_date() {
    let d = Date::from_jd(JD::from(u64::MAX));
    assert_eq!(d.calendar(), Calendar::Gregorian);
    assert_eq!(d.to_jd(), JD::from(u64::MAX));
    assert_eq!(d.year(), Year(50_500_757));
}

#[test]
fn try_to_jd_refuses_dates_without_a_julian_day() {
    let before = date(Calendar::Julian, -4712, Month::January, 1, 499_999_999);
    assert_eq!(before.try_to_jd(), Err(TimeError::NegativeJulianDay));
    assert_eq!(JD::try_from(before), Err(TimeError::NegativeJulianDay));
    let first = date(Calendar::Julian, -4712, Month::January, 1, 500_000_000);
    assert_eq!(first.try_to_jd(), Ok(JD::from(0u64)));
    assert_eq!(JD::try_from(first), Ok(JD::from(0u64)));
    let early = date(Calendar::Gregorian, i32::MIN, Month::January, 1, 0);
    assert_eq!(early.try_to_jd(), Err(TimeError::NegativeJulianDay));
    let late = date(Calendar::Julian, i32::MAX, Month::December, 31, 0);
    assert_eq!(late.try_to_jd(), Err(TimeError::JulianDayTooLate));
    assert_eq!(JD::try_from(late), Err(TimeError::JulianDayTooLate));
    let last = Date::from_jd(JD::from(u64::MAX));
    assert_eq!(last.try_to_jd(), Ok(JD::from(u64::MAX)));
    let next = Date::new(last.calendar(), last.year(), last.month(), last.day(), last.fraction() + 1)
        .unwrap();
    assert_eq!(next.try_to_jd(), Err(TimeError::JulianDayTooLate));
    let fine = date(Calendar::Gregorian, 2000, Month::January, 1, 500_000_000);
    assert_eq!(fine.try_to_jd(), Ok(JD::from(2_451_545_000_000_000u64)));
}

#[test]
fn date_new_refuses_a_whole_day_of_fraction() {
    assert_eq!(
        Date::new(Calendar::Julian, Year(1), Month::May, DayOfMonth(1), 1_000_000_000),
        Err(TimeError::InvalidFraction(1_000_000_000))
    );
    assert_eq!(
        Date::new(Calendar::Julian, Year(1), Month::May, DayOfMonth(1), u64::MAX),
        Err(TimeError::InvalidFraction(u64::MAX))
    );
    let d = Date::new(Calendar::Julian, Year(1), Month::May, DayOfMonth(2), 999_999_999).unwrap();
    assert_eq!(d.calendar(), Calendar::Julian);
    assert_eq!(d.year(), Year(1));
    assert_eq!(d.month(), Month::May);
    assert_eq!(d.day(), DayOfMonth(2));
    assert_eq!(d.fraction(), 999_999_999);
}

#[test]
fn at_midnight_has_no_fraction() {
    let d = Date::at_midnight(Calendar::Gregorian, Year(2024), Month::March, DayOfMonth(31));
    assert_eq!(d, date(Calendar::Gregorian, 2024, Month::March, 31, 0));
}

#[test]
fn day_of_week_of_known_days() {
    // 2000 January 1 was a Saturday, 1582 October 15 a Friday.
    assert_eq!(
        date(Calendar::Gregorian, 2000, Month::January, 1, 0).get_day_of_week(),
        DayOfWeek::Saturday
    );
    assert_eq!(
        date(Calendar::Gregorian, 1582, Month::October, 15, 0).get_day_of_week(),
        DayOfWeek::Friday
    );
    assert_eq!(
        date(Calendar::Julian, 1582, Month::October, 4, 750_000_000).get_day_of_week(),
        DayOfWeek::Thursday
    );
    // The epoch itself, at noon, was a Monday.
    assert_eq!(
        date(Calendar::Julian, -4712, Month::January, 1, 500_000_000).get_day_of_week(),
        DayOfWeek::Monday
    );
}

#[test]
fn day_of_year_counts_leap_days() {
    assert_eq!(date(Calendar::Gregorian, 2023, Month::January, 1, 0).get_day_of_year(), 1);
    assert_eq!(date(Calendar::Gregorian, 2023, Month::February, 28, 0).get_day_of_year(), 59);
    assert_eq!(date(Calendar::Gregorian, 2023, Month::March, 1, 0).get_day_of_year(), 60);
    assert_eq!(date(Calendar::Gregorian, 2023, Month::December, 31, 0).get_day_of_year(), 365);
    assert_eq!(date(Calendar::Gregorian, 2024, Month::March, 1, 0).get_day_of_year(), 61);
    assert_eq!(date(Calendar::Gregorian, 2024, Month::December, 31, 0).get_day_of_year(), 366);
    assert_eq!(date(Calendar::Julian, 1500, Month::December, 31, 0).get_day_of_year(), 366);
    assert_eq!(date(Calendar::Julian, -4, Month::March, 1, 0).get_day_of_year(), 61);
    // In the Gregorian calendar a multiple of 400 is counted without a leap day.
    assert_eq!(date(Calendar::Gregorian, 2000, Month::March, 1, 0).get_day_of_year(), 60);
    assert_eq!(date(Calendar::Julian, 2000, Month::March, 1, 0).get_day_of_year(), 61);
}

#[test]
fn month_from_number() {
    assert_eq!(Month::try_from(1), Ok(Month::January));
    assert_eq!(Month::try_from(2), Ok(Month::February));
    assert_eq!(Month::try_from(7), Ok(Month::July));
    assert_eq!(Month::try_from(12), Ok(Month::December));
    assert_eq!(Month::try_from(0), Err(TimeError::InvalidMonth(0)));
    assert_eq!(Month::try_from(13), Err(TimeError::InvalidMonth(13)));
    assert_eq!(Month::try_from(-3), Err(TimeError::InvalidMonth(-3)));
    for n in 1..=12 {
        assert_eq!(Month::from_number(n).number(), n);
        assert_eq!(Month::try_from(n), Ok(Month::from_number(n)));
    }
}

#[test]
fn day_of_week_from_number() {
    assert_eq!(DayOfWeek::try_from(0), Ok(DayOfWeek::Sunday));
    assert_eq!(DayOfWeek::try_from(3), Ok(DayOfWeek::Wednesday));
    assert_eq!(DayOfWeek::try_from(6), Ok(DayOfWeek::Saturday));
    assert_eq!(DayOfWeek::try_from(7), Err(TimeError::InvalidDayOfWeek(7)));
    assert_eq!(DayOfWeek::try_from(-1), Err(TimeError::InvalidDayOfWeek(-1)));
    for n in 0..=6 {
        assert_eq!(DayOfWeek::from_number(n).number(), n);
        assert_eq!(DayOfWeek::try_from(n), Ok(DayOfWeek::from_number(n)));
    }
}

#[test]
fn year_from_number() {
    assert_eq!(Year::from(1583), Year(1583));
    assert_eq!(Year::from(-4712), Year(-4712));
}

#[test]
fn negative_julian_day_is_refused() {
    // One day before the epoch.
    assert_eq!(JD::try_from(-1_000_000_000i64), Err(TimeError::NegativeJulianDay));
    assert_eq!(JD::try_from(-1i64), Err(TimeError::NegativeJulianDay));
    assert_eq!(JD::try_from(i64::MIN), Err(TimeError::NegativeJulianDay));
    assert_eq!(JD::try_from(0i64), Ok(JD::from(0u64)));
    assert_eq!(JD::try_from(2_451_545_000_000_000i64), Ok(JD::from_ticks(2_451_545_000_000_000)));
}

#[test]
fn julian_day_in_ticks() {
    let jd = JD::from(2_436_116_310_000_000u64);
    assert_eq!(jd.ticks(), 2_436_116_310_000_000);
    assert_eq!(u64::from(jd), 2_436_116_310_000_000);
    assert_eq!(JD::from_ticks(17).ticks(), 17);
}

#[test]
fn julian_day_comes_back_from_its_date() {
    let days = [
        0u64,
        1,
        499_999_999,
        500_000_000,
        1_507_900_130_000_000,
        2_299_068_499_999_999,
        2_299_160_500_000_000,
        2_436_116_310_000_000,
        2_451_545_000_000_000,
        u64::MAX,
    ];
    for ticks in days {
        let jd = JD::from(ticks);
        assert_eq!(Date::from_jd(jd).to_jd(), jd);
    }
    // In the months before the reform in which a date is already called
    // Gregorian, the day is still read off by the Julian rules: taken as a
    // Gregorian date it is ten days early.
    let jd = JD::from(2_299_100_000_000_000u64);
    let d = Date::from_jd(jd);
    assert_eq!(d, date(Calendar::Gregorian, 1582, Month::August, 5, 500_000_000));
    assert_eq!(d.to_jd(), JD::from(2_299_090_000_000_000u64));
}
