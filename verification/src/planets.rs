//! The planets of our solar system, and the parts of finding their place
//! that are exact: the time since the epoch of the theory, and the ranges
//! in which a longitude and a latitude are given.

use crate::angle::wrapped;
use crate::angle::Angle;
use crate::angle::TICKS_PER_QUARTER_TURN;
use crate::angle::TICKS_PER_TURN;
use crate::time::JD;
use vstd::prelude::*;

verus! {

/// Representation of the planets in our solar system, in the order of their
/// distance from the sun.
#[derive(Debug, Copy, Clone, PartialEq, Eq, Structural)]
pub enum Planet {
    Mercury,
    Venus,
    Earth,
    Mars,
    Jupiter,
    Saturn,
    Uranus,
    Neptune,
}

/// The Julian Day 2451545.0 in ticks: the epoch J2000.0, noon on January 1
/// of the year 2000, from which the theory of the planets counts its time.
pub const J2000_TICKS: u64 = 2_451_545_000_000_000;

/// The number of ticks of time in a millennium of 365250 days, the unit in
/// which the theory of the planets counts its time.
pub const TICKS_PER_MILLENNIUM: u64 = 365_250_000_000_000;

/// The time from the epoch J2000.0 to a Julian Day in ticks, negative for a
/// Julian Day before the epoch. Divided by [`TICKS_PER_MILLENNIUM`] it is
/// the time in millennia.
pub fn ticks_since_j2000(t: &JD) -> (ticks: i128)
    ensures
        ticks == t@ - J2000_TICKS,
{
    t.ticks() as i128 - J2000_TICKS as i128
}

/// The longitude of a planet is given from 0 to 360 degrees.
pub fn wrap_longitude(longitude: Angle) -> (r: Angle)
    ensures
        r@ == wrapped(longitude@, 0, TICKS_PER_TURN as int),
        0 <= r@ <= TICKS_PER_TURN,
{
    let low = Angle::from_ticks(0);
    let high = Angle::from_ticks(TICKS_PER_TURN);
    longitude.wrap(&low, &high)
}

/// The latitude of a planet is given from -90 to 90 degrees.
pub fn wrap_latitude(latitude: Angle) -> (r: Angle)
    ensures
        r@ == wrapped(latitude@, -TICKS_PER_QUARTER_TURN, TICKS_PER_QUARTER_TURN as int),
        -TICKS_PER_QUARTER_TURN <= r@ <= TICKS_PER_QUARTER_TURN,
{
    let low = Angle::from_ticks(-TICKS_PER_QUARTER_TURN);
    let high = Angle::from_ticks(TICKS_PER_QUARTER_TURN);
    latitude.wrap(&low, &high)
}

} // verus!
