//! A verified core for a tick-based evolution simulation: an entity store
//! with deferred structural mutation, circle physics with impulse resolution,
//! ray-based sensing, a small fixed-point decision network, and stochastic
//! trait mutation for reproduction.
//!
//! All continuous quantities are fixed-point integers: distances and radii in
//! milli-units, times in milliseconds, and dimensionless factors (restitution,
//! mutation chance, network activations) scaled by `UNIT`.

pub mod collision;
pub mod data;
pub mod creature;
pub mod draw;
pub mod lazy;
pub mod math;
pub mod mutate;
pub mod nn;
pub mod rng;
pub mod vec2;
pub mod world;

use vstd::prelude::*;

verus! {

/// Scale of dimensionless fixed-point factors: 1.0 is represented as `UNIT`.
pub const UNIT: i64 = 1000;

/// Scale of the precomputed inverse mass stored in a body.
pub const RMASS_SCALE: i64 = 1000000000;

/// Largest body radius the store accepts, in milli-units.
pub const RADIUS_LIMIT: i64 = 100000;

/// Largest coordinate magnitude the store accepts, in milli-units.
pub const POS_LIMIT: i64 = 1000000000;

/// Largest velocity magnitude the store accepts, in milli-units per second.
pub const VEL_LIMIT: i64 = 1000000000;

/// Largest weight or bias magnitude a network may hold.
pub const W_LIMIT: i64 = 1000000000;

/// Largest matrix dimension a network may hold.
pub const DIM_LIMIT: usize = 2000;

/// World width, in milli-units.
pub const WIDTH: i64 = 1920000;

/// World height, in milli-units.
pub const HEIGHT: i64 = 1080000;

/// Wraparound margin around the world: the largest possible body radius,
/// in milli-units.
pub const RADIUS: i64 = 30000;

/// Creature speed, in milli-units per second.
pub const SPEED: i64 = 100000;

} // verus!
