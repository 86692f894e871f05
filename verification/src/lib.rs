//! A verified core for a flocking ("boids") simulation.
//!
//! The simulation state lives in fixed-point arithmetic: every scalar is an
//! `i64` counted in thousandths of a unit, so the whole per-tick update —
//! neighbor discovery, steering rules, velocity blending, angular smoothing,
//! speed clamping, integration, boundary wrap and stagnation decay — is exact
//! integer computation with a mathematical contract.

pub mod boid;
pub mod fixed;
pub mod flock;
pub mod laws;
pub mod params;
pub mod trig;
pub mod vec2;

use vstd::prelude::*;

verus! {

/// Width of the simulation domain, in thousandths (1700 units).
pub const WIDTH_MILLI: i64 = 1_700_000;

/// Height of the simulation domain, in thousandths (800 units).
pub const HEIGHT_MILLI: i64 = 800_000;

/// Speed cap enforced after every integration step (10 units per tick).
pub const MAX_BOID_SPEED_MILLI: i64 = 10_000;

/// One quantum above the speed cap: a velocity component can exceed the cap
/// by at most one quantum after the integer rescaling.
pub const V_MAX: i64 = 10_001;

/// Global cap on the per-rule turn rate applied by the angular smoother.
/// Zero: the smoother's omega is computed in full and then silenced by
/// this clamp, a deliberate quirk of the simulation that the tests pin.
pub const MAX_OMEGA_MILLI: i64 = 0;

/// How far a position component can drift along x before the next wrap:
/// the domain width plus one tick of maximal motion.
pub const POS_X_BOUND: i64 = 1_710_001;

/// How far a position component can drift along y before the next wrap.
pub const POS_Y_BOUND: i64 = 810_001;

/// Cruising speed given to a fresh boid: 50 units per second at 24 ticks
/// per second, i.e. 2083 thousandths per tick.
pub const SPAWN_SPEED_MILLI: i64 = 2083;

/// Number of boids spawned at start and on every population reset.
pub const NB_BOIDS: usize = 30;

/// Distance at which the dormant edge-repulsion routine reacts (50 units).
pub const EDGE_DETECTION_DISTANCE_MILLI: i64 = 50_000;

/// Gain of the dormant edge-repulsion routine (5.0).
pub const STEERING_FACTOR_MILLI: i64 = 5_000;

} // verus!
