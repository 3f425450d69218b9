//! Configuration for the predator entity.

use vstd::prelude::*;

verus! {

/// It's important that the max speed (300 pixels/s) is less than the prey's.
pub const MAX_SPEED: i64 = 300_000;

/// From what distance predators spot prey (250 pixels). It is higher than
/// the prey's view radius.
pub const VIEW_RADIUS: i64 = 250_000;

/// If a predator gets at least this close to a prey, it eats it (30 pixels).
pub const STRIKE_RADIUS: i64 = 30_000;

/// How many milliseconds it takes for a predator to go from max speed to
/// zero by friction alone.
pub const FRICTION_MS: u64 = 5_000;

} // verus!
