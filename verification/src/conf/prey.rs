//! Configuration for the prey entity.

use vstd::prelude::*;

verus! {

/// Avoids bumping into another prey by repelling each other if they're too
/// close (80 pixels).
pub const AVOID_RADIUS: i64 = 80_000;

/// This many prey are spawned when the game starts, and as predators eat
/// prey it respawns, so there is approximately this much prey throughout
/// the game.
pub const COUNT: usize = 50;

/// How many milli-pixels per second a prey can move (350 pixels/s). Always
/// larger than the predators' max speed.
pub const MAX_SPEED: i64 = 350_000;

/// We want the prey to be always on the move (100 pixels/s).
pub const MIN_SPEED: i64 = 100_000;

/// Puts an upper bound on how much a prey can shift its velocity in one
/// flocking update (250 pixels/s).
pub const MAX_STEERING_FORCE: i64 = 250_000;

/// How far around itself a prey sees (150 pixels).
pub const VIEW_RADIUS: i64 = 150_000;

/// Calculating the flocking behavior is expensive, so it runs only once
/// per this interval, in milliseconds.
pub const RECALCULATE_FLOCKING_MS: u64 = 50;

/// Numerator scale of one separation term, `offset * SEPARATION_SCALE /
/// (sq_distance + 1)`: it keeps the direction of the inverse-square
/// repulsion representable in integers.
pub const SEPARATION_SCALE: i64 = 65_536;

/// Numerator scale of one escape term, `offset * ESCAPE_SCALE / distance`.
pub const ESCAPE_SCALE: i64 = 65_536;

/// Weight of the wall-repelling force, in tenths.
pub const WALL_REPELLING_FORCE: i64 = 10;

/// Weight of the alignment force, in tenths.
pub const ALIGNMENT_FORCE: i64 = 10;

/// Weight of the separation force, in tenths.
pub const SEPARATION_FORCE: i64 = 15;

/// Weight of the cohesion force, in tenths.
pub const COHESION_FORCE: i64 = 10;

/// Weight of the escape force, in tenths.
pub const ESCAPE_FORCE: i64 = 10;

} // verus!
