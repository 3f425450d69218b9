//! A predator-prey simulation on a toroidal plane: prey flock with boids
//! rules and flee, predators hunt and cooperate. The whole per-tick agent
//! update - flocking forces, predator detection, speed clamps, wraparound
//! motion - runs on exact fixed-point integer arithmetic and is verified.
//!
//! The modules mirror the passes of one simulation tick:
//! * `entities`: predators and prey, and the passes that move them
//! * `components`: velocity, camera and wall state
//! * `resources`: the timers that throttle expensive work

pub mod components;
pub mod conf;
pub mod entities;
pub mod geometry;
pub mod math;
pub mod resources;
