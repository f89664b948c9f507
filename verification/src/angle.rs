//! Angles are a core part of astronomical measurements.
//!
//! They are used everywhere and can have several representations. This
//! module holds an angle as a whole number of ticks, a tick being a
//! hundred-millionth of a second of arc, and converts between that and
//! the sexagesimal representations: degrees or hours, minutes, seconds.
//! A full turn is a whole number of ticks, so wrapping an angle into a
//! range and taking it apart into degrees, minutes and seconds are exact.

use crate::arith::floor_mod;
use crate::arith::trunc_div;
use crate::arith::trunc_rem;
use vstd::prelude::*;
use vstd::std_specs::ops::AddSpecImpl;
use vstd::std_specs::ops::SubSpecImpl;

verus! {

/// The number of ticks in a second of arc.
pub const TICKS_PER_ARCSECOND: i64 = 100_000_000;

/// The number of ticks in a minute of arc.
pub const TICKS_PER_ARCMINUTE: i64 = 6_000_000_000;

/// The number of ticks in a degree.
pub const TICKS_PER_DEGREE: i64 = 360_000_000_000;

/// The number of ticks in a full turn of 360 degrees.
pub const TICKS_PER_TURN: i64 = 129_600_000_000_000;

/// The number of ticks in a quarter of a turn, 90 degrees.
pub const TICKS_PER_QUARTER_TURN: i64 = 32_400_000_000_000;

/// The number of ticks in an hour of right ascension, which is 15 degrees.
pub const TICKS_PER_HOUR: i64 = 5_400_000_000_000;

/// The number of ticks in a minute of time, which is 15 minutes of arc.
pub const TICKS_PER_MINUTE_OF_TIME: i64 = 90_000_000_000;

/// The number of ticks in a second of time, which is 15 seconds of arc.
pub const TICKS_PER_SECOND_OF_TIME: i64 = 1_500_000_000;

/// Why an angle could not be wrapped.
#[derive(Debug, Copy, Clone, PartialEq, Eq, Structural)]
pub enum AngleError {
    /// The upper limit of a range is not above the lower one.
    EmptyRange,
}

/// The core representation of an angle: a whole number of ticks, positive
/// or negative.
#[derive(Debug, Copy, Clone, PartialEq, Eq, PartialOrd, Structural)]
pub struct Angle(i64);

/// An angle in degrees, minutes of arc and seconds of arc, the seconds
/// counted in ticks.
#[derive(Debug, Copy, Clone, PartialEq, Eq, PartialOrd, Structural)]
pub struct DegreesMinutesSeconds {
    pub degrees: i32,
    pub minutes: i32,
    /// Seconds of arc, in hundred-millionths.
    pub seconds: i64,
}

/// An angle in hours, minutes of time and seconds of time, the seconds
/// counted in hundred-millionths, each of which is 15 ticks.
#[derive(Debug, Copy, Clone, PartialEq, Eq, PartialOrd, Structural)]
pub struct HoursMinutesSeconds {
    pub hours: i32,
    pub minutes: i32,
    /// Seconds of time, in hundred-millionths.
    pub seconds: i64,
}

/// The size of a number of ticks, without its sign.
pub open spec fn magnitude(ticks: int) -> int {
    if ticks >= 0 {
        ticks
    } else {
        -ticks
    }
}

/// The angle, in ticks, that the three parts add up to, less the whole
/// turns in it: `degrees + minutes / 60 + seconds / 3600` degrees, reduced
/// to less than 360 degrees either side of zero. The sign is that of the
/// sum.
pub open spec fn dms_ticks(degrees: int, minutes: int, seconds: int) -> int {
    trunc_rem(
        degrees * 360_000_000_000 + minutes * 6_000_000_000 + seconds,
        129_600_000_000_000,
    )
}

/// The angle, in ticks, that the three parts add up to, less the whole
/// turns in it: `hours + minutes / 60 + seconds / 3600` hours of 15
/// degrees, reduced to less than 360 degrees either side of zero.
pub open spec fn hms_ticks(hours: int, minutes: int, seconds: int) -> int {
    trunc_rem(
        15 * (hours * 360_000_000_000 + minutes * 6_000_000_000 + seconds),
        129_600_000_000_000,
    )
}

/// The angle in `low ..= high` that differs from `a` by a whole number of
/// times the width of the range, `high - low`.
///
/// An angle inside the range is left as it is. An angle above it comes
/// down to the one such angle above `low`; an angle below it comes up to
/// the one such angle below `high`.
pub open spec fn wrapped(a: int, low: int, high: int) -> int
    recommends
        low < high,
{
    if a > high {
        high - (high - a) % (high - low)
    } else if a < low {
        low + (a - low) % (high - low)
    } else {
        a
    }
}

/// The angle `a` moved by `k` times `width`, upwards for a positive `k`.
pub open spec fn moved_by(a: int, k: int, width: int) -> int {
    a + k * width
}

impl View for Angle {
    type V = int;

    /// The angle in ticks.
    closed spec fn view(&self) -> int {
        self.0 as int
    }
}

impl Angle {
    /// The angle of the given number of ticks.
    pub fn from_ticks(ticks: i64) -> (angle: Angle)
        ensures
            angle@ == ticks,
    {
        Angle(ticks)
    }

    /// The angle in ticks.
    pub fn as_ticks(&self) -> (ticks: i64)
        ensures
            ticks == self@,
    {
        self.0
    }

    /// Converts an angle represented as degrees, minutes, and seconds into
    /// an `Angle`.
    pub fn from_dms(angle: DegreesMinutesSeconds) -> (r: Angle)
        ensures
            r@ == dms_ticks(angle.degrees as int, angle.minutes as int, angle.seconds as int),
    {
        angle.as_angle()
    }

    /// Converts an angle represented as hours, minutes, and seconds into an
    /// `Angle`.
    pub fn from_hms(angle: HoursMinutesSeconds) -> (r: Angle)
        ensures
            r@ == hms_ticks(angle.hours as int, angle.minutes as int, angle.seconds as int),
    {
        angle.as_angle()
    }

    /// Converts an `Angle` into a `DegreesMinutesSeconds`.
    pub fn as_dms(&self) -> (r: DegreesMinutesSeconds)
        ensures
            r.degrees == trunc_div(self@, 360_000_000_000),
            r.minutes == (magnitude(self@) % 360_000_000_000) / 6_000_000_000,
            r.seconds == magnitude(self@) % 6_000_000_000,
    {
        DegreesMinutesSeconds::from_angle(*self)
    }

    /// Converts an `Angle` into a `HoursMinutesSeconds`.
    pub fn as_hms(&self) -> (r: HoursMinutesSeconds)
        ensures
            r.hours == trunc_div(self@, 5_400_000_000_000),
            r.minutes == (magnitude(self@) % 5_400_000_000_000) / 90_000_000_000,
            r.seconds == (magnitude(self@) % 90_000_000_000) / 15,
    {
        HoursMinutesSeconds::from_angle(*self)
    }

    /// Wraps the value of an angle so that it is between the two given
    /// limits.
    ///
    /// In certain circumstances it is customary to keep the value of an
    /// angle between certain values, but the limits of the values are
    /// dependent on the use case. For example longitude values are between
    /// -180 and 180 degrees, while latitude values are between -90 and 90
    /// degrees.
    ///
    /// The upper limit must lie above the lower one; [`Angle::try_wrap`]
    /// tests that.
    pub fn wrap(self, low_limit: &Angle, high_limit: &Angle) -> (r: Angle)
        requires
            high_limit@ > low_limit@,
        ensures
            r@ == wrapped(self@, low_limit@, high_limit@),
            low_limit@ <= r@ <= high_limit@,
    {
        let a: i128 = self.0 as i128;
        let low: i128 = low_limit.0 as i128;
        let high: i128 = high_limit.0 as i128;
        let range: i128 = high - low;
        if a > high {
            let over: i128 = floor_mod(high - a, range);
            Angle((high - over) as i64)
        } else if a < low {
            let under: i128 = floor_mod(a - low, range);
            Angle((low + under) as i64)
        } else {
            self
        }
    }

    /// Wraps the value of an angle so that it is between the two given
    /// limits, or refuses limits of which the upper one does not lie above
    /// the lower one.
    pub fn try_wrap(self, low_limit: &Angle, high_limit: &Angle) -> (r: Result<Angle, AngleError>)
        ensures
            high_limit@ > low_limit@ ==> r.is_ok() && r.unwrap()@ == wrapped(
                self@,
                low_limit@,
                high_limit@,
            ),
            high_limit@ <= low_limit@ ==> r == Err::<Angle, AngleError>(AngleError::EmptyRange),
    {
        if high_limit.0 > low_limit.0 {
            Ok(self.wrap(low_limit, high_limit))
        } else {
            Err(AngleError::EmptyRange)
        }
    }
}

impl core::ops::Add for Angle {
    type Output = Angle;

    fn add(self, rhs: Angle) -> (r: Angle)
        ensures
            r@ == self@ + rhs@,
    {
        Angle(self.0 + rhs.0)
    }
}

impl AddSpecImpl for Angle {
    open spec fn obeys_add_spec() -> bool {
        true
    }

    /// The sum must be an angle that the type can hold.
    open spec fn add_req(self, rhs: Angle) -> bool {
        i64::MIN <= self@ + rhs@ <= i64::MAX
    }

    closed spec fn add_spec(self, rhs: Angle) -> Angle {
        Angle((self.0 + rhs.0) as i64)
    }
}

impl core::ops::Sub for Angle {
    type Output = Angle;

    fn sub(self, rhs: Angle) -> (r: Angle)
        ensures
            r@ == self@ - rhs@,
    {
        Angle(self.0 - rhs.0)
    }
}

impl SubSpecImpl for Angle {
    open spec fn obeys_sub_spec() -> bool {
        true
    }

    /// The difference must be an angle that the type can hold.
    open spec fn sub_req(self, rhs: Angle) -> bool {
        i64::MIN <= self@ - rhs@ <= i64::MAX
    }

    closed spec fn sub_spec(self, rhs: Angle) -> Angle {
        Angle((self.0 - rhs.0) as i64)
    }
}

impl core::ops::AddAssign for Angle {
    fn add_assign(&mut self, rhs: Angle)
        requires
            i64::MIN <= old(self)@ + rhs@ <= i64::MAX,
        ensures
            final(self)@ == old(self)@ + rhs@,
    {
        self.0 = self.0 + rhs.0;
    }
}

impl core::ops::SubAssign for Angle {
    fn sub_assign(&mut self, rhs: Angle)
        requires
            i64::MIN <= old(self)@ - rhs@ <= i64::MAX,
        ensures
            final(self)@ == old(self)@ - rhs@,
    {
        self.0 = self.0 - rhs.0;
    }
}

impl DegreesMinutesSeconds {
    /// Takes an angle apart. The degrees carry the sign of the angle; the
    /// minutes and the seconds are those of its magnitude.
    pub fn from_angle(angle: Angle) -> (r: Self)
        ensures
            r.degrees == trunc_div(angle@, 360_000_000_000),
            r.minutes == (magnitude(angle@) % 360_000_000_000) / 6_000_000_000,
            r.seconds == magnitude(angle@) % 6_000_000_000,
    {
        let ticks: i128 = angle.0 as i128;
        let size: i128 = if ticks >= 0 {
            ticks
        } else {
            -ticks
        };
        let degrees: i128 = ticks / 360_000_000_000;
        let minutes: i128 = (size % 360_000_000_000) / 6_000_000_000;
        let seconds: i128 = size % 6_000_000_000;
        Self { degrees: degrees as i32, minutes: minutes as i32, seconds: seconds as i64 }
    }

    /// Puts the angle together.
    pub fn as_angle(&self) -> (r: Angle)
        ensures
            r@ == dms_ticks(self.degrees as int, self.minutes as int, self.seconds as int),
    {
        let sum: i128 = (self.degrees as i128) * 360_000_000_000 + (self.minutes as i128)
            * 6_000_000_000 + self.seconds as i128;
        Angle((sum % 129_600_000_000_000) as i64)
    }
}

impl HoursMinutesSeconds {
    /// Takes an angle apart. The hours carry the sign of the angle; the
    /// minutes and the seconds are those of its magnitude, and what is left
    /// below a hundred-millionth of a second is dropped.
    pub fn from_angle(angle: Angle) -> (r: Self)
        ensures
            r.hours == trunc_div(angle@, 5_400_000_000_000),
            r.minutes == (magnitude(angle@) % 5_400_000_000_000) / 90_000_000_000,
            r.seconds == (magnitude(angle@) % 90_000_000_000) / 15,
    {
        let ticks: i128 = angle.0 as i128;
        let size: i128 = if ticks >= 0 {
            ticks
        } else {
            -ticks
        };
        let hours: i128 = ticks / 5_400_000_000_000;
        let minutes: i128 = (size % 5_400_000_000_000) / 90_000_000_000;
        let seconds: i128 = (size % 90_000_000_000) / 15;
        Self { hours: hours as i32, minutes: minutes as i32, seconds: seconds as i64 }
    }

    /// Puts the angle together.
    pub fn as_angle(&self) -> (r: Angle)
        ensures
            r@ == hms_ticks(self.hours as int, self.minutes as int, self.seconds as int),
    {
        let sum: i128 = ((self.hours as i128) * 360_000_000_000 + (self.minutes as i128)
            * 6_000_000_000 + self.seconds as i128) * 15;
        Angle((sum % 129_600_000_000_000) as i64)
    }
}

/// A wrapped angle lies in the range and differs from the angle that was
/// wrapped by a whole number of times the width of the range. It is the
/// first such angle that is met on the way to the range: coming down it is
/// still above the lower limit, coming up still below the upper one.
#[verifier::spinoff_prover]
pub proof fn lemma_wrapped_is_in_range_and_congruent(a: int, low: int, high: int)
    requires
        low < high,
    ensures
        low <= wrapped(a, low, high) <= high,
        a > high ==> low < wrapped(a, low, high),
        a < low ==> wrapped(a, low, high) < high,
        (wrapped(a, low, high) - a) % (high - low) == 0,
        exists|k: int| wrapped(a, low, high) == #[trigger] moved_by(a, k, high - low),
{
    let range = high - low;
    let r = wrapped(a, low, high);
    if a > high {
        let q = (high - a) / range;
        vstd::arithmetic::div_mod::lemma_fundamental_div_mod(high - a, range);
        assert(r - a == range * q);
        assert(r == a + q * range) by (nonlinear_arith)
            requires
                r - a == range * q,
        ;
        assert(r == moved_by(a, q, range));
        vstd::arithmetic::div_mod::lemma_mod_multiples_basic(q, range);
    } else if a < low {
        let q = (a - low) / range;
        vstd::arithmetic::div_mod::lemma_fundamental_div_mod(a - low, range);
        assert(r - a == range * (-q)) by (nonlinear_arith)
            requires
                a - low == range * q + (a - low) % range,
                r == low + (a - low) % range,
        ;
        assert(r == a + (-q) * range) by (nonlinear_arith)
            requires
                r - a == range * (-q),
        ;
        assert(r == moved_by(a, -q, range));
        vstd::arithmetic::div_mod::lemma_mod_multiples_basic(-q, range);
    } else {
        assert(r == moved_by(a, 0, range));
        assert(0int % range == 0);
    }
}

/// Wrapping an angle that lies in the range changes nothing, so wrapping
/// twice is wrapping once.
pub proof fn lemma_wrapped_twice(a: int, low: int, high: int)
    requires
        low < high,
    ensures
        low <= a <= high ==> wrapped(a, low, high) == a,
        wrapped(wrapped(a, low, high), low, high) == wrapped(a, low, high),
{
    lemma_wrapped_is_in_range_and_congruent(a, low, high);
}

/// An angle that is not negative and is taken apart into degrees, minutes
/// and seconds is put together again as the same angle, less its whole
/// turns.
#[verifier::spinoff_prover]
pub proof fn lemma_dms_of_angle_gives_angle(a: int)
    requires
        0 <= a,
    ensures
        dms_ticks(
            trunc_div(a, 360_000_000_000),
            (magnitude(a) % 360_000_000_000) / 6_000_000_000,
            magnitude(a) % 6_000_000_000,
        ) == a % 129_600_000_000_000,
{
    let d = a / 360_000_000_000;
    let in_degree = a % 360_000_000_000;
    let m = in_degree / 6_000_000_000;
    let in_minute = a % 6_000_000_000;
    assert(a == 360_000_000_000 * d + in_degree);
    assert(in_degree == 6_000_000_000 * m + in_degree % 6_000_000_000);
    assert(in_degree % 6_000_000_000 == in_minute) by {
        assert(a == 6_000_000_000 * (60 * d + m) + in_degree % 6_000_000_000);
    }
    assert(d * 360_000_000_000 + m * 6_000_000_000 + in_minute == a);
}

/// An angle that is not negative and is taken apart into hours, minutes
/// and seconds is put together again as the same angle, less what was
/// dropped below a hundred-millionth of a second of time and less its
/// whole turns.
#[verifier::spinoff_prover]
#[verifier::rlimit(40)]
pub proof fn lemma_hms_of_angle_gives_angle(a: int)
    requires
        0 <= a,
    ensures
        hms_ticks(
            trunc_div(a, 5_400_000_000_000),
            (magnitude(a) % 5_400_000_000_000) / 90_000_000_000,
            (magnitude(a) % 90_000_000_000) / 15,
        ) == (a - a % 15) % 129_600_000_000_000,
{
    let h = a / 5_400_000_000_000;
    let in_hour = a % 5_400_000_000_000;
    let m = in_hour / 90_000_000_000;
    let in_minute = a % 90_000_000_000;
    let s = in_minute / 15;
    assert(a == 5_400_000_000_000 * h + in_hour);
    assert(in_hour == 90_000_000_000 * m + in_hour % 90_000_000_000);
    assert(in_hour % 90_000_000_000 == in_minute) by {
        assert(a == 90_000_000_000 * (60 * h + m) + in_hour % 90_000_000_000);
    }
    assert(in_minute == 15 * s + in_minute % 15);
    assert(in_minute % 15 == a % 15) by {
        assert(a == 15 * (6_000_000_000 * (60 * h + m) + s) + in_minute % 15);
    }
    assert(15 * (h * 360_000_000_000 + m * 6_000_000_000 + s) == a - a % 15);
}

} // verus!
