//! Algorithms of positional astronomy in exact integer arithmetic: angles
//! and their sexagesimal parts, Julian Days and calendar dates, the dates
//! of Easter and Passover, and the exact parts of finding a planet's
//! place.
//!
//! Instants and angles are counted in whole ticks of a fixed unit, so every
//! conversion in this crate is exact and every contract is stated over
//! mathematical integers.

pub mod angle;
pub mod arith;
pub mod coords;
pub mod planets;
pub mod time;
