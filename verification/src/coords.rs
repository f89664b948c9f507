//! The equinoxes to which a frame of coordinates can be referred.
//!
//! Each is a type without data: it stands in the type of a coordinate, so
//! that coordinates of two equinoxes cannot be mixed by accident.

use vstd::prelude::*;

verus! {

/// The equinox of the beginning of the year 2000.
#[derive(Debug, Copy, Clone, PartialEq, Eq, Structural)]
pub struct J2000 {}

/// The equinox of the beginning of the Besselian year 1950.
#[derive(Debug, Copy, Clone, PartialEq, Eq, Structural)]
pub struct B1950 {}

} // verus!
