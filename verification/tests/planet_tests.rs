use astro_algos::angle::Angle;
use astro_algos::angle::TICKS_PER_DEGREE;
use astro_algos::planets::ticks_since_j2000;
use astro_algos::planets::wrap_latitude;
use astro_algos::planets::wrap_longitude;
use astro_algos::planets::Planet;
use astro_algos::planets::J2000_TICKS;
use astro_algos::planets::TICKS_PER_MILLENNIUM;
use astro_algos::time::date::Calendar;
use astro_algos::time::date::Date;
use astro_algos::time::date::DayOfMonth;
use astro_algos::time::date::Month;
use astro_algos::time::date::Year;
use astro_algos::time::JD;
use astro_algos::time::TICKS_PER_DAY;

fn degrees(d: i64) -> Angle {
    Angle::from_ticks(d * TICKS_PER_DEGREE)
}

#[test]
fn epoch_of_the_theory() {
    let noon =
        Date::new(Calendar::Gregorian, Year(2000), Month::January, DayOfMonth(1), 500_000_000)
            .unwrap();
    assert_eq!(noon.to_jd(), JD::from(J2000_TICKS));
    assert_eq!(TICKS_PER_MILLENNIUM, 365_250 * TICKS_PER_DAY);
}

#[test]
fn time_since_the_epoch() {
    assert_eq!(ticks_since_j2000(&JD::from(J2000_TICKS)), 0);
    assert_eq!(ticks_since_j2000(&JD::from(0u64)), -2_451_545_000_000_000);
    // One century of 36525 days before the epoch: a tenth of a millennium.
    assert_eq!(
        ticks_since_j2000(&JD::from(2_415_020_000_000_000u64)),
        -(TICKS_PER_MILLENNIUM as i128) / 10
    );
    assert_eq!(
        ticks_since_j2000(&JD::from(u64::MAX)),
        u64::MAX as i128 - 2_451_545_000_000_000
    );
}

#[test]
fn longitude_is_given_in_a_full_turn() {
    assert_eq!(wrap_longitude(degrees(10)), degrees(10));
    assert_eq!(wrap_longitude(degrees(370)), degrees(10));
    assert_eq!(wrap_longitude(degrees(-10)), degrees(350));
    assert_eq!(wrap_longitude(degrees(0)), degrees(0));
    assert_eq!(wrap_longitude(degrees(360)), degrees(360));
    assert_eq!(wrap_longitude(degrees(720)), degrees(360));
    assert_eq!(wrap_longitude(degrees(-720)), degrees(0));
    assert_eq!(wrap_longitude(Angle::from_ticks(-1)), Angle::from_ticks(129_599_999_999_999));
}

#[test]
fn latitude_is_given_in_half_a_turn() {
    assert_eq!(wrap_latitude(degrees(10)), degrees(10));
    assert_eq!(wrap_latitude(degrees(90)), degrees(90));
    assert_eq!(wrap_latitude(degrees(-90)), degrees(-90));
    assert_eq!(wrap_latitude(degrees(100)), degrees(-80));
    assert_eq!(wrap_latitude(degrees(-100)), degrees(80));
    assert_eq!(wrap_latitude(degrees(270)), degrees(90));
}

#[test]
fn planets_are_told_apart() {
    assert_eq!(Planet::Earth, Planet::Earth);
    assert_ne!(Planet::Earth, Planet::Mars);
    let all = [
        Planet::Mercury,
        Planet::Venus,
        Planet::Earth,
        Planet::Mars,
        Planet::Jupiter,
        Planet::Saturn,
        Planet::Uranus,
        Planet::Neptune,
    ];
    for (i, a) in all.iter().enumerate() {
        for (j, b) in all.iter().enumerate() {
            assert_eq!(a == b, i == j);
        }
    }
}
