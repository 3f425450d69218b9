//! Shared components: what an entity wants to do (velocity), what the camera
//! shows, and the walls around the play field.

pub mod camera;
pub mod walls;

use vstd::prelude::*;

use crate::conf;
use crate::geometry::{scale_spec, scale_to_len, Vec2, COORD_BOUND, LEN_BOUND};
use crate::math::{div_towards_zero, div_tz, lemma_abs_le_of_sq};

verus! {

/// Marks some entity as being controlled by the keyboard.
#[derive(Clone, Copy)]
pub struct KeyboardControlled;

/// Velocity represents into which direction and with how much magnitude an
/// entity wants to move, in milli-pixels per second.
#[derive(Clone, Copy, PartialEq, Eq, Structural, Debug)]
pub struct Velocity(pub Vec2);

impl Default for Velocity {
    fn default() -> (r: Self)
        ensures
            r.0 == (Vec2 { x: 0, y: 0 }),
    {
        Velocity(Vec2 { x: 0, y: 0 })
    }
}

/// A velocity integrated over `dt_ms` milliseconds of acceleration, before
/// any clamping: each axis gains `acc * dt_ms / 1000`, truncated toward zero.
pub open spec fn integrate_spec(v: Vec2, acc: Vec2, dt_ms: int) -> Vec2 {
    Vec2 {
        x: (v.x + div_tz(acc.x * dt_ms, 1000)) as i64,
        y: (v.y + div_tz(acc.y * dt_ms, 1000)) as i64,
    }
}

/// The speed-clamp discipline every velocity update goes through: a zero
/// velocity stays zero (nothing to normalize), a speed below `min` is raised
/// to `min`, one above `max` is lowered to `max`, and anything within the
/// band is kept exactly.
pub open spec fn clamp_speed_spec(v: Vec2, min: int, max: int) -> Vec2 {
    if v.is_zero_spec() {
        v
    } else if v.mag_sq() < min * min {
        scale_spec(v, min)
    } else if v.mag_sq() > max * max {
        scale_spec(v, max)
    } else {
        v
    }
}

/// What `Velocity::apply_acceleration` leaves behind: integration followed by
/// the speed clamp.
pub open spec fn apply_acc_spec(v: Vec2, acc: Vec2, dt_ms: int, min: int, max: int) -> Vec2 {
    clamp_speed_spec(integrate_spec(v, acc, dt_ms), min, max)
}

/// Clamps the magnitude of `v` into `[min, max]`, keeping its direction; a
/// zero vector is left alone. The resulting squared speed is at most
/// `max * max`, and - unless the input was zero - within a few milli-pixels
/// below `min` at the least.
pub fn clamp_speed(v: Vec2, min: i64, max: i64) -> (r: Vec2)
    requires
        v.in_range(COORD_BOUND as int),
        1 <= min <= max <= LEN_BOUND,
    ensures
        r == clamp_speed_spec(v, min as int, max as int),
        r.mag_sq() <= max * max,
        r.in_range(max as int),
        !v.is_zero_spec() ==> r.mag_sq() >= min * min - 4 * min - 128,
        v.is_zero_spec() ==> r == v,
{
    proof {
        assert(min * min <= max * max && 1 <= min * min && max * max <= LEN_BOUND * LEN_BOUND)
            by (nonlinear_arith)
            requires
                1 <= min <= max <= LEN_BOUND,
        ;
    }
    if v.is_zero() {
        proof {
            assert(v.mag_sq() == 0) by (nonlinear_arith)
                requires
                    v.x == 0,
                    v.y == 0,
            ;
        }
        v
    } else {
        let m2 = v.mag_sq_i64();
        if m2 < min * min {
            let r = scale_to_len(v, min);
            proof {
                assert(r.mag_sq() >= 0) by (nonlinear_arith);
            }
            r
        } else if m2 > max * max {
            let r = scale_to_len(v, max);
            proof {
                assert(r.mag_sq() >= 0) by (nonlinear_arith);
                assert(min * min - 4 * min - 128 <= max * max - 4 * max - 128 || min * min - 4 * min
                    - 128 <= 0) by (nonlinear_arith)
                    requires
                        1 <= min <= max,
                ;
            }
            r
        } else {
            proof {
                assert(v.x * v.x <= max * max && v.y * v.y <= max * max) by (nonlinear_arith)
                    requires
                        v.x * v.x + v.y * v.y <= max * max,
                ;
                lemma_abs_le_of_sq(v.x as int, max as int);
                lemma_abs_le_of_sq(v.y as int, max as int);
            }
            v
        }
    }
}

impl Velocity {
    /// Applies acceleration to self given how long the acceleration lasts
    /// and the speed band of the agent's species.
    pub fn apply_acceleration(&mut self, acc: Vec2, dt_ms: u64, min_speed: i64, max_speed: i64)
        requires
            old(self).0.in_range(LEN_BOUND as int),
            acc.in_range(LEN_BOUND as int),
            dt_ms <= conf::MAX_TICK_MS,
            1 <= min_speed <= max_speed <= LEN_BOUND,
        ensures
            final(self).0 == apply_acc_spec(
                old(self).0,
                acc,
                dt_ms as int,
                min_speed as int,
                max_speed as int,
            ),
            final(self).0.mag_sq() <= max_speed * max_speed,
            final(self).0.in_range(max_speed as int),
            !integrate_spec(old(self).0, acc, dt_ms as int).is_zero_spec()
                ==> final(self).0.mag_sq() >= min_speed * min_speed - 4 * min_speed - 128,
    {
        proof {
            assert(-(LEN_BOUND as int) * (conf::MAX_TICK_MS as int) <= acc.x * (dt_ms as int)
                <= (LEN_BOUND as int) * (conf::MAX_TICK_MS as int) && -(LEN_BOUND as int) * (
            conf::MAX_TICK_MS as int) <= acc.y * (dt_ms as int) <= (LEN_BOUND as int) * (
            conf::MAX_TICK_MS as int)) by (nonlinear_arith)
                requires
                    -LEN_BOUND <= acc.x <= LEN_BOUND,
                    -LEN_BOUND <= acc.y <= LEN_BOUND,
                    0 <= dt_ms <= conf::MAX_TICK_MS,
            ;
        }
        let dvx = div_towards_zero(acc.x * (dt_ms as i64), 1000);
        let dvy = div_towards_zero(acc.y * (dt_ms as i64), 1000);
        let next = Vec2 { x: self.0.x + dvx, y: self.0.y + dvy };
        self.0 = clamp_speed(next, min_speed, max_speed);
    }
}

} // verus!
