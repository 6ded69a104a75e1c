//! Point-to-point navigation for a planar robot, in fixed-point arithmetic.
//!
//! The library drives one navigation episode in two motion phases: rotate in
//! place until the robot faces the goal, then drive straight for a computed
//! duration and stop. Positions are measured in micro-units (one millionth of
//! a world unit) and angles in micro-radians, so every quantity is an integer
//! and every computation is exact and verified.
//!
//! The embedding program owns the transport: it feeds pose updates into a
//! [`pose::PoseTracker`], steps the [`controller::NavigationController`] at the
//! control rate, and performs the commands and sleeps that each step returns.

use vstd::prelude::*;

pub mod angle;
pub mod command;
pub mod controller;
pub mod geom;
pub mod pose;

verus! {

/// Micro-units per world unit (and micro-radians per radian).
pub const MICRO: i64 = 1_000_000;

/// pi in micro-radians, rounded to the nearest integer.
pub const PI_MICRO: i64 = 3_141_593;

/// pi/2 in micro-radians, rounded to the nearest integer.
pub const HALF_PI_MICRO: i64 = 1_570_796;

/// pi/4 in micro-radians, rounded to the nearest integer.
pub const QUARTER_PI_MICRO: i64 = 785_398;

/// Fixed angular speed of the rotation phase, in micro-radians per second.
pub const ANGULAR_SPEED_MICRO: i64 = 200_000;

/// Fixed linear speed of the translation phase, in micro-units per second.
pub const LINEAR_SPEED_MICRO: i64 = 200_000;

/// Alignment tolerance of the rotation stopping condition, in micro-radians.
pub const ALIGN_TOLERANCE_MICRO: i64 = 10_000;

/// Largest coordinate magnitude the library accepts, in micro-units.
pub const COORD_LIMIT_MICRO: i64 = 500_000_000_000;

/// Period of one control tick (a 10 Hz loop), in nanoseconds.
pub const TICK_NANOS: i64 = 100_000_000;

/// Nanoseconds per second, for converting durations.
pub const NANOS_PER_SECOND: i64 = 1_000_000_000;

} // verus!
