//! Global game configuration.
//!
//! All lengths are measured in milli-pixels: one on-screen pixel of the
//! play field is `SCALE` units, so the whole simulation runs on exact
//! integer arithmetic. All speeds are milli-pixels per second.

pub mod predator;
pub mod prey;

use vstd::prelude::*;

verus! {

/// Milli-pixels per pixel: the fixed-point resolution of every length.
pub const SCALE: i64 = 1_000;

/// The map is a square where a = MAP_SIZE (1000 pixels).
pub const MAP_SIZE: i64 = 1_000_000;

/// Largest number of agents of one species the passes accept; keeps every
/// accumulated force sum far away from `i64` overflow.
pub const MAX_AGENTS: usize = 1_000;

/// Largest elapsed time per tick, in milliseconds. With the speed cap this
/// keeps a single-tick displacement strictly below `MAP_SIZE`, which the
/// single-correction wraparound of `entities::nudge` needs.
pub const MAX_TICK_MS: u64 = 2_000;

/// Force weights are expressed in tenths: a weight of 15 means 1.5.
pub const WEIGHT_UNIT: i64 = 10;

} // verus!
