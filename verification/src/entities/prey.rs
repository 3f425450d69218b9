//! Prey entities are simple creatures. They flock around other prey and
//! when threatened, they run away along the vector formed by the predator's
//! position and their own.
//!
//! The catch is that the prey is faster than the predator. If the predators
//! are not organized, they won't get fed.

use vstd::prelude::*;

use crate::components::{clamp_speed_spec, Velocity};
use crate::conf;
use crate::entities::PreyAgent;
use crate::geometry::{
    clamp_mag, clamp_mag_spec, scale_spec, scale_to_len, vsub, Vec2, COORD_BOUND, LEN_BOUND,
};
use crate::math::{div_towards_zero, div_tz, lemma_abs_le_of_sq, lemma_div_tz_bounded};
use crate::resources::{timer_tick_spec, FlockUpdateTimer};

verus! {

/// The tag distinguishing a prey agent from predators in queries.
#[derive(Clone, Copy, Debug)]
pub struct Prey;

/// Creates the initial batch of prey: `COUNT` of them, scattered randomly
/// over the map, not yet moving.
pub fn init() -> (r: Vec<PreyAgent>)
    ensures
        r@.len() == conf::prey::COUNT,
        forall|k: int| 0 <= k < r@.len() ==> (#[trigger] r@[k]).wf(),
        forall|k: int| 0 <= k < r@.len() ==> (#[trigger] r@[k]).vel.0 == (Vec2 { x: 0, y: 0 }),
{
    let mut prey: Vec<PreyAgent> = Vec::new();
    let mut i: usize = 0;
    while i < conf::prey::COUNT
        invariant
            0 <= i <= conf::prey::COUNT,
            prey@.len() == i,
            forall|k: int| 0 <= k < i ==> (#[trigger] prey@[k]).wf(),
            forall|k: int| 0 <= k < i ==> (#[trigger] prey@[k]).vel.0 == (Vec2 { x: 0, y: 0 }),
        decreases conf::prey::COUNT - i,
    {
        let agent = PreyAgent { pos: Vec2::random(), vel: Velocity(Vec2 { x: 0, y: 0 }) };
        proof {
            assert(agent.vel.0.mag_sq() == 0) by (nonlinear_arith)
                requires
                    agent.vel.0.x == 0,
                    agent.vel.0.y == 0,
            ;
            assert(conf::prey::MAX_SPEED * conf::prey::MAX_SPEED > 0) by (nonlinear_arith)
                requires
                    conf::prey::MAX_SPEED == 350_000i64,
            ;
        }
        prey.push(agent);
        i = i + 1;
    }
    prey
}

/// What `steer_towards` returns: the desired direction normalized to full
/// speed, minus the current velocity, with its magnitude clamped to
/// `MAX_STEERING_FORCE`; a zero desired direction yields a zero steering
/// force instead of dividing by a zero length.
pub open spec fn steer_spec(velocity: Vec2, force: Vec2) -> Vec2 {
    if force.is_zero_spec() {
        Vec2 { x: 0, y: 0 }
    } else {
        clamp_mag_spec(
            vsub(scale_spec(force, conf::prey::MAX_SPEED as int), velocity),
            conf::prey::MAX_STEERING_FORCE as int,
        )
    }
}

/// Given prey's current velocity, turns a desired direction into a bounded
/// acceleration: however large the raw force accumulator got, what comes
/// out never exceeds `MAX_STEERING_FORCE` in magnitude.
pub fn steer_towards(velocity: Velocity, force: Vec2) -> (r: Vec2)
    requires
        force.in_range(COORD_BOUND as int),
        velocity.0.in_range(LEN_BOUND as int),
    ensures
        r == steer_spec(velocity.0, force),
        r.mag_sq() <= conf::prey::MAX_STEERING_FORCE * conf::prey::MAX_STEERING_FORCE,
        r.in_range(conf::prey::MAX_STEERING_FORCE as int),
{
    if force.is_zero() {
        proof {
            assert(Vec2 { x: 0, y: 0 }.mag_sq() == 0 && conf::prey::MAX_STEERING_FORCE
                * conf::prey::MAX_STEERING_FORCE >= 0) by (nonlinear_arith);
        }
        return Vec2 { x: 0, y: 0 };
    }
    let desired = scale_to_len(force, conf::prey::MAX_SPEED);
    let delta = desired.sub(velocity.0);
    let r = clamp_mag(delta, conf::prey::MAX_STEERING_FORCE);
    proof {
        assert(delta == vsub(scale_spec(force, conf::prey::MAX_SPEED as int), velocity.0));
        assert(r.x * r.x <= conf::prey::MAX_STEERING_FORCE * conf::prey::MAX_STEERING_FORCE && r.y
            * r.y <= conf::prey::MAX_STEERING_FORCE * conf::prey::MAX_STEERING_FORCE)
            by (nonlinear_arith)
            requires
                r.x * r.x + r.y * r.y <= conf::prey::MAX_STEERING_FORCE
                    * conf::prey::MAX_STEERING_FORCE,
        ;
        crate::math::lemma_abs_le_of_sq(r.x as int, conf::prey::MAX_STEERING_FORCE as int);
        crate::math::lemma_abs_le_of_sq(r.y as int, conf::prey::MAX_STEERING_FORCE as int);
    }
    r
}

/// Clamps a prey's speed into its configured band, keeping direction; the
/// discipline every prey velocity update ends with.
pub fn clamp_speed(v: Vec2) -> (r: Vec2)
    requires
        v.in_range(COORD_BOUND as int),
    ensures
        r == clamp_speed_spec(v, conf::prey::MIN_SPEED as int, conf::prey::MAX_SPEED as int),
        r.mag_sq() <= conf::prey::MAX_SPEED * conf::prey::MAX_SPEED,
        !v.is_zero_spec() ==> r.mag_sq() >= conf::prey::MIN_SPEED * conf::prey::MIN_SPEED - 4
            * conf::prey::MIN_SPEED - 128,
{
    crate::components::clamp_speed(v, conf::prey::MIN_SPEED, conf::prey::MAX_SPEED)
}

/// Is prey `j` a flockmate of prey `i`: another prey strictly within view.
pub open spec fn is_flockmate(s: Seq<PreyAgent>, i: int, j: int) -> bool {
    j != i && s[i].pos.dist_sq(s[j].pos) < conf::prey::VIEW_RADIUS * conf::prey::VIEW_RADIUS
}

/// A flockmate close enough that the separation force pushes away from it.
pub open spec fn is_close(s: Seq<PreyAgent>, i: int, j: int) -> bool {
    is_flockmate(s, i, j) && s[i].pos.dist_sq(s[j].pos) < conf::prey::AVOID_RADIUS
        * conf::prey::AVOID_RADIUS
}

/// How many flockmates prey `i` has among indices `[0, n)`.
pub open spec fn flockmates_count(s: Seq<PreyAgent>, i: int, n: int) -> int
    decreases n,
{
    if n <= 0 {
        0
    } else {
        flockmates_count(s, i, n - 1) + if is_flockmate(s, i, n - 1) {
            1int
        } else {
            0int
        }
    }
}

/// Sum of the velocity vectors of prey `i`'s flockmates among `[0, n)`.
pub open spec fn heading_sum(s: Seq<PreyAgent>, i: int, n: int) -> (int, int)
    decreases n,
{
    if n <= 0 {
        (0, 0)
    } else {
        let rest = heading_sum(s, i, n - 1);
        if is_flockmate(s, i, n - 1) {
            (rest.0 + s[n - 1].vel.0.x, rest.1 + s[n - 1].vel.0.y)
        } else {
            rest
        }
    }
}

/// Sum of the positions of prey `i`'s flockmates among `[0, n)`.
pub open spec fn center_sum(s: Seq<PreyAgent>, i: int, n: int) -> (int, int)
    decreases n,
{
    if n <= 0 {
        (0, 0)
    } else {
        let rest = center_sum(s, i, n - 1);
        if is_flockmate(s, i, n - 1) {
            (rest.0 + s[n - 1].pos.x, rest.1 + s[n - 1].pos.y)
        } else {
            rest
        }
    }
}

/// The separation direction for prey `i`: for every too-close flockmate,
/// the offset away from it weighted inversely by the squared distance
/// (`offset * SEPARATION_SCALE / (sq_distance + 1)`, the `+ 1` guarding the
/// singularity at zero distance).
pub open spec fn separation_sum(s: Seq<PreyAgent>, i: int, n: int) -> (int, int)
    decreases n,
{
    if n <= 0 {
        (0, 0)
    } else {
        let rest = separation_sum(s, i, n - 1);
        if is_close(s, i, n - 1) {
            (
                rest.0 + div_tz(
                    (s[i].pos.x - s[n - 1].pos.x) * conf::prey::SEPARATION_SCALE,
                    s[i].pos.dist_sq(s[n - 1].pos) + 1,
                ),
                rest.1 + div_tz(
                    (s[i].pos.y - s[n - 1].pos.y) * conf::prey::SEPARATION_SCALE,
                    s[i].pos.dist_sq(s[n - 1].pos) + 1,
                ),
            )
        } else {
            rest
        }
    }
}

/// The weighted acceleration one flocking update gives prey `i`, in tenths
/// of force units: the wall-repelling steer plus - when there are any
/// flockmates - the cohesion, alignment and separation steers, each scaled
/// by its configured weight.
pub open spec fn flock_accel_spec(s: Seq<PreyAgent>, i: int, n: int) -> (int, int) {
    let vel = s[i].vel.0;
    let wall = match wall_force_spec(s[i].pos) {
        Some(f) => {
            let st = steer_spec(vel, f);
            (st.x * conf::prey::WALL_REPELLING_FORCE, st.y * conf::prey::WALL_REPELLING_FORCE)
        },
        None => (0int, 0int),
    };
    let mates = flockmates_count(s, i, n);
    if mates > 0 {
        let center = center_sum(s, i, n);
        let offset_to_flock_center = Vec2 {
            x: (div_tz(center.0, mates) - s[i].pos.x) as i64,
            y: (div_tz(center.1, mates) - s[i].pos.y) as i64,
        };
        let cohesion = steer_spec(vel, offset_to_flock_center);
        let heading = heading_sum(s, i, n);
        let alignment = steer_spec(vel, Vec2 { x: heading.0 as i64, y: heading.1 as i64 });
        let sep = separation_sum(s, i, n);
        let with_flock = (
            wall.0 + cohesion.x * conf::prey::COHESION_FORCE + alignment.x
                * conf::prey::ALIGNMENT_FORCE,
            wall.1 + cohesion.y * conf::prey::COHESION_FORCE + alignment.y
                * conf::prey::ALIGNMENT_FORCE,
        );
        if sep.0 != 0 || sep.1 != 0 {
            let separation = steer_spec(vel, Vec2 { x: sep.0 as i64, y: sep.1 as i64 });
            (
                with_flock.0 + separation.x * conf::prey::SEPARATION_FORCE,
                with_flock.1 + separation.y * conf::prey::SEPARATION_FORCE,
            )
        } else {
            with_flock
        }
    } else {
        wall
    }
}

/// The velocity one flocking update leaves prey `i` with: the accumulated
/// acceleration integrated over the recalculation interval and clamped into
/// the speed band; with no acceleration at all the velocity is untouched.
pub open spec fn flock_vel_spec(s: Seq<PreyAgent>, i: int, n: int) -> Vec2 {
    let acc = flock_accel_spec(s, i, n);
    if acc.0 == 0 && acc.1 == 0 {
        s[i].vel.0
    } else {
        let integrated = Vec2 {
            x: (s[i].vel.0.x + div_tz(
                acc.0 * conf::prey::RECALCULATE_FLOCKING_MS,
                1000 * conf::WEIGHT_UNIT,
            )) as i64,
            y: (s[i].vel.0.y + div_tz(
                acc.1 * conf::prey::RECALCULATE_FLOCKING_MS,
                1000 * conf::WEIGHT_UNIT,
            )) as i64,
        };
        clamp_speed_spec(integrated, conf::prey::MIN_SPEED as int, conf::prey::MAX_SPEED as int)
    }
}

/// The per-axis force pushing a prey back onto the middle of the map when it
/// strays within a tenth of the map size of an edge.
pub open spec fn wall_force_x(pos: Vec2) -> int {
    if pos.x < conf::MAP_SIZE / 10 {
        conf::prey::MAX_SPEED as int
    } else if pos.x > conf::MAP_SIZE - conf::MAP_SIZE / 10 {
        -(conf::prey::MAX_SPEED as int)
    } else {
        0
    }
}

pub open spec fn wall_force_y(pos: Vec2) -> int {
    if pos.y < conf::MAP_SIZE / 10 {
        conf::prey::MAX_SPEED as int
    } else if pos.y > conf::MAP_SIZE - conf::MAP_SIZE / 10 {
        -(conf::prey::MAX_SPEED as int)
    } else {
        0
    }
}

/// Where `wall_repelling_force` pushes: away from each edge the prey is too
/// close to, with max speed on that axis, or nothing when it is well inside.
pub open spec fn wall_force_spec(pos: Vec2) -> Option<Vec2> {
    if wall_force_x(pos) != 0 || wall_force_y(pos) != 0 {
        Some(Vec2 { x: wall_force_x(pos) as i64, y: wall_force_y(pos) as i64 })
    } else {
        None
    }
}

/// If the prey is too close to a wall, it attempts to run away from it.
pub fn wall_repelling_force(pos: Vec2) -> (r: Option<Vec2>)
    ensures
        r == wall_force_spec(pos),
{
    let map_10p = conf::MAP_SIZE / 10;
    let x: i64 = if pos.x < map_10p {
        conf::prey::MAX_SPEED
    } else if pos.x > conf::MAP_SIZE - map_10p {
        -conf::prey::MAX_SPEED
    } else {
        0
    };
    let y: i64 = if pos.y < map_10p {
        conf::prey::MAX_SPEED
    } else if pos.y > conf::MAP_SIZE - map_10p {
        -conf::prey::MAX_SPEED
    } else {
        0
    };
    if x != 0 || y != 0 {
        Some(Vec2 { x, y })
    } else {
        None
    }
}

/// One prey's flocking update, computed against the unchanged snapshot of
/// all prey: scans every other prey, accumulates the weighted forces, and
/// integrates and clamps the velocity.
#[verifier::rlimit(100)]
fn flock_update_one(prey: &Vec<PreyAgent>, i: usize) -> (r: Vec2)
    requires
        prey@.len() <= conf::MAX_AGENTS,
        forall|k: int| 0 <= k < prey@.len() ==> (#[trigger] prey@[k]).wf(),
        i < prey@.len(),
    ensures
        r == flock_vel_spec(prey@, i as int, prey@.len() as int),
        r == prey@[i as int].vel.0 || r.mag_sq() == 0 || (conf::prey::MIN_SPEED
            * conf::prey::MIN_SPEED - 4 * conf::prey::MIN_SPEED - 128 <= r.mag_sq()
            <= conf::prey::MAX_SPEED * conf::prey::MAX_SPEED),
        r.mag_sq() <= conf::prey::MAX_SPEED * conf::prey::MAX_SPEED,
{
    let ghost s = prey@;
    let n = prey.len();
    let iterated = prey[i];
    let pos_i = iterated.pos;
    let vel_i = iterated.vel;
    proof {
        assert(vel_i.0.x * vel_i.0.x <= conf::prey::MAX_SPEED * conf::prey::MAX_SPEED
            && vel_i.0.y * vel_i.0.y <= conf::prey::MAX_SPEED * conf::prey::MAX_SPEED)
            by (nonlinear_arith)
            requires
                vel_i.0.x * vel_i.0.x + vel_i.0.y * vel_i.0.y <= conf::prey::MAX_SPEED
                    * conf::prey::MAX_SPEED,
        ;
        lemma_abs_le_of_sq(vel_i.0.x as int, conf::prey::MAX_SPEED as int);
        lemma_abs_le_of_sq(vel_i.0.y as int, conf::prey::MAX_SPEED as int);
    }
    // How many other prey are nearby, and the accumulated heading,
    // center and separation vectors of the scan.
    let mut flockmates: i64 = 0;
    let mut heading_x: i64 = 0;
    let mut heading_y: i64 = 0;
    let mut center_x: i64 = 0;
    let mut center_y: i64 = 0;
    let mut separation_x: i64 = 0;
    let mut separation_y: i64 = 0;
    let mut j: usize = 0;
    while j < n
        invariant
            prey@ == s,
            n == s.len() <= conf::MAX_AGENTS,
            forall|k: int| 0 <= k < n ==> (#[trigger] s[k]).wf(),
            0 <= i < n,
            0 <= j <= n,
            pos_i == s[i as int].pos,
            vel_i == s[i as int].vel,
            flockmates == flockmates_count(s, i as int, j as int),
            0 <= flockmates <= j,
            heading_x == heading_sum(s, i as int, j as int).0,
            heading_y == heading_sum(s, i as int, j as int).1,
            -flockmates * conf::prey::MAX_SPEED <= heading_x <= flockmates
                * conf::prey::MAX_SPEED,
            -flockmates * conf::prey::MAX_SPEED <= heading_y <= flockmates
                * conf::prey::MAX_SPEED,
            center_x == center_sum(s, i as int, j as int).0,
            center_y == center_sum(s, i as int, j as int).1,
            0 <= center_x <= flockmates * conf::MAP_SIZE,
            0 <= center_y <= flockmates * conf::MAP_SIZE,
            separation_x == separation_sum(s, i as int, j as int).0,
            separation_y == separation_sum(s, i as int, j as int).1,
            -flockmates * conf::prey::SEPARATION_SCALE <= separation_x <= flockmates
                * conf::prey::SEPARATION_SCALE,
            -flockmates * conf::prey::SEPARATION_SCALE <= separation_y <= flockmates
                * conf::prey::SEPARATION_SCALE,
        decreases n - j,
    {
        if j != i {
            let other = prey[j];
            let offset_x = pos_i.x - other.pos.x;
            let offset_y = pos_i.y - other.pos.y;
            let sq_distance = pos_i.dist_sq_i64(other.pos);
            if sq_distance < conf::prey::VIEW_RADIUS * conf::prey::VIEW_RADIUS {
                proof {
                    assert(other.vel.0.x * other.vel.0.x <= conf::prey::MAX_SPEED
                        * conf::prey::MAX_SPEED && other.vel.0.y * other.vel.0.y
                        <= conf::prey::MAX_SPEED * conf::prey::MAX_SPEED)
                        by (nonlinear_arith)
                        requires
                            other.vel.0.x * other.vel.0.x + other.vel.0.y * other.vel.0.y
                                <= conf::prey::MAX_SPEED * conf::prey::MAX_SPEED,
                    ;
                    lemma_abs_le_of_sq(other.vel.0.x as int, conf::prey::MAX_SPEED as int);
                    lemma_abs_le_of_sq(other.vel.0.y as int, conf::prey::MAX_SPEED as int);
                }
                flockmates = flockmates + 1;
                // Used to calculate the effect of the alignment force.
                heading_x = heading_x + other.vel.0.x;
                heading_y = heading_y + other.vel.0.y;
                // Used to calculate the effect of the cohesion force.
                center_x = center_x + other.pos.x;
                center_y = center_y + other.pos.y;
                // If prey are too close to each other, change direction
                // so that they don't bump.
                if sq_distance < conf::prey::AVOID_RADIUS * conf::prey::AVOID_RADIUS {
                    proof {
                        assert(offset_x * offset_x <= sq_distance && offset_y * offset_y
                            <= sq_distance) by (nonlinear_arith)
                            requires
                                sq_distance == offset_x * offset_x + offset_y * offset_y,
                        ;
                        assert(-(sq_distance + 1) * conf::prey::SEPARATION_SCALE <= offset_x
                            * conf::prey::SEPARATION_SCALE <= (sq_distance + 1)
                            * conf::prey::SEPARATION_SCALE && -(sq_distance + 1)
                            * conf::prey::SEPARATION_SCALE <= offset_y
                            * conf::prey::SEPARATION_SCALE <= (sq_distance + 1)
                            * conf::prey::SEPARATION_SCALE) by (nonlinear_arith)
                            requires
                                offset_x * offset_x <= sq_distance,
                                offset_y * offset_y <= sq_distance,
                                conf::prey::SEPARATION_SCALE == 65_536i64,
                        ;
                        lemma_div_tz_bounded(
                            offset_x * conf::prey::SEPARATION_SCALE,
                            sq_distance + 1,
                            conf::prey::SEPARATION_SCALE as int,
                        );
                        lemma_div_tz_bounded(
                            offset_y * conf::prey::SEPARATION_SCALE,
                            sq_distance + 1,
                            conf::prey::SEPARATION_SCALE as int,
                        );
                    }
                    separation_x = separation_x + div_towards_zero(
                        offset_x * conf::prey::SEPARATION_SCALE,
                        sq_distance + 1,
                    );
                    separation_y = separation_y + div_towards_zero(
                        offset_y * conf::prey::SEPARATION_SCALE,
                        sq_distance + 1,
                    );
                }
            }
        }
        j = j + 1;
    }
    // Accumulate the (weighted) forces into one acceleration.
    let mut acc_x: i64 = 0;
    let mut acc_y: i64 = 0;
    // If the prey gets too close to a wall, we push it out.
    if let Some(f) = wall_repelling_force(pos_i) {
        let st = steer_towards(vel_i, f);
        acc_x = acc_x + st.x * conf::prey::WALL_REPELLING_FORCE;
        acc_y = acc_y + st.y * conf::prey::WALL_REPELLING_FORCE;
    }
    if flockmates > 0 {
        // Weighted sum of positions of nearby flockmates, then the
        // offset from the current position to their center.
        proof {
            lemma_div_tz_bounded(center_x as int, flockmates as int, conf::MAP_SIZE as int);
            lemma_div_tz_bounded(center_y as int, flockmates as int, conf::MAP_SIZE as int);
        }
        let offset_to_flock_center = Vec2 {
            x: div_towards_zero(center_x, flockmates) - pos_i.x,
            y: div_towards_zero(center_y, flockmates) - pos_i.y,
        };
        let cohesion_force = steer_towards(vel_i, offset_to_flock_center);
        acc_x = acc_x + cohesion_force.x * conf::prey::COHESION_FORCE;
        acc_y = acc_y + cohesion_force.y * conf::prey::COHESION_FORCE;
        // Aligns velocity vectors with nearby flockmates.
        let alignment_force = steer_towards(
            vel_i,
            Vec2 { x: heading_x, y: heading_y },
        );
        acc_x = acc_x + alignment_force.x * conf::prey::ALIGNMENT_FORCE;
        acc_y = acc_y + alignment_force.y * conf::prey::ALIGNMENT_FORCE;
        // If there is some separation to be sustained with nearby
        // flockmates, apply that force to the acceleration too.
        if separation_x != 0 || separation_y != 0 {
            let separation_force = steer_towards(
                vel_i,
                Vec2 { x: separation_x, y: separation_y },
            );
            acc_x = acc_x + separation_force.x * conf::prey::SEPARATION_FORCE;
            acc_y = acc_y + separation_force.y * conf::prey::SEPARATION_FORCE;
        }
    }
    proof {
        assert(acc_x == flock_accel_spec(s, i as int, n as int).0 && acc_y == flock_accel_spec(
            s,
            i as int,
            n as int,
        ).1);
    }
    // If the entity picked up some acceleration, update its velocity.
    proof {
        assert(-11_250_000 <= acc_x <= 11_250_000 && -11_250_000 <= acc_y <= 11_250_000);
    }
    let new_vel: Vec2 = if acc_x != 0 || acc_y != 0 {
        proof {
            lemma_div_tz_bounded(
                acc_x * (conf::prey::RECALCULATE_FLOCKING_MS as i64),
                1000 * conf::WEIGHT_UNIT,
                113_000,
            );
            lemma_div_tz_bounded(
                acc_y * (conf::prey::RECALCULATE_FLOCKING_MS as i64),
                1000 * conf::WEIGHT_UNIT,
                113_000,
            );
        }
        let dv_x = div_towards_zero(
            acc_x * (conf::prey::RECALCULATE_FLOCKING_MS as i64),
            1000 * conf::WEIGHT_UNIT,
        );
        let dv_y = div_towards_zero(
            acc_y * (conf::prey::RECALCULATE_FLOCKING_MS as i64),
            1000 * conf::WEIGHT_UNIT,
        );
        clamp_speed(Vec2 { x: vel_i.0.x + dv_x, y: vel_i.0.y + dv_y })
    } else {
        vel_i.0
    };
    new_vel
}

/// Simulates flocking behavior, throttled by the flock-update timer: only
/// when the accumulated time reaches the recalculation interval does the
/// expensive neighbor-interaction pass run; on all other ticks no velocity
/// changes at all. On firing ticks every prey's new velocity is computed
/// from a consistent snapshot of all prey, then written back after the
/// whole scan: the per-agent result is exactly `flock_vel_spec` over the
/// incoming state, and every updated speed is zero or stays within the
/// configured band (up to the documented few milli-pixels of rounding
/// below `MIN_SPEED`).
pub fn flocking_behavior(timer: &mut FlockUpdateTimer, delta_ms: u64, prey: &mut Vec<PreyAgent>)
    requires
        old(timer).wf(),
        old(prey)@.len() <= conf::MAX_AGENTS,
        forall|k: int| 0 <= k < old(prey)@.len() ==> (#[trigger] old(prey)@[k]).wf(),
    ensures
        final(timer).wf(),
        timer_tick_spec(
            old(timer).elapsed_ms as int,
            delta_ms as int,
            conf::prey::RECALCULATE_FLOCKING_MS as int,
            final(timer).elapsed_ms as int,
            final(timer).finished,
        ),
        final(prey)@.len() == old(prey)@.len(),
        !final(timer).finished ==> final(prey)@ == old(prey)@,
        final(timer).finished ==> forall|i: int|
            0 <= i < old(prey)@.len() ==> {
                &&& (#[trigger] final(prey)@[i]).pos == old(prey)@[i].pos
                &&& final(prey)@[i].vel.0 == flock_vel_spec(
                    old(prey)@,
                    i,
                    old(prey)@.len() as int,
                )
                &&& final(prey)@[i].wf()
                &&& (final(prey)@[i].vel.0 == old(prey)@[i].vel.0 || final(prey)@[i].vel.0.mag_sq()
                    == 0 || (conf::prey::MIN_SPEED * conf::prey::MIN_SPEED - 4
                    * conf::prey::MIN_SPEED - 128 <= final(prey)@[i].vel.0.mag_sq()
                    <= conf::prey::MAX_SPEED * conf::prey::MAX_SPEED))
            },
{
    // Ticks and checks that enough time has passed and it's time to update
    // the flocking again.
    timer.tick(delta_ms);
    if !timer.is_finished() {
        return;
    }
    let ghost s = prey@;
    let n = prey.len();
    // First pass: compute every new velocity from the unchanged snapshot.
    let mut updated: Vec<Vec2> = Vec::new();
    let mut i: usize = 0;
    while i < n
        invariant
            prey@ == s,
            n == s.len() <= conf::MAX_AGENTS,
            forall|k: int| 0 <= k < n ==> (#[trigger] s[k]).wf(),
            0 <= i <= n,
            updated@.len() == i,
            forall|k: int|
                0 <= k < i ==> (#[trigger] updated@[k]) == flock_vel_spec(s, k, n as int),
            forall|k: int|
                0 <= k < i ==> ((#[trigger] updated@[k]) == s[k].vel.0 || updated@[k].mag_sq()
                    == 0 || (conf::prey::MIN_SPEED * conf::prey::MIN_SPEED - 4
                    * conf::prey::MIN_SPEED - 128 <= updated@[k].mag_sq()
                    <= conf::prey::MAX_SPEED * conf::prey::MAX_SPEED)),
            forall|k: int|
                0 <= k < i ==> (#[trigger] updated@[k]).mag_sq() <= conf::prey::MAX_SPEED
                    * conf::prey::MAX_SPEED,
        decreases n - i,
    {
        let next = flock_update_one(prey, i);
        updated.push(next);
        i = i + 1;
    }
    // Second pass: write the velocities back after the whole scan completed.
    let mut k: usize = 0;
    while k < n
        invariant
            n == s.len(),
            prey@.len() == n,
            updated@.len() == n,
            0 <= k <= n,
            forall|m: int|
                0 <= m < n ==> (#[trigger] updated@[m]) == flock_vel_spec(s, m, n as int),
            forall|m: int|
                0 <= m < n ==> ((#[trigger] updated@[m]) == s[m].vel.0 || updated@[m].mag_sq()
                    == 0 || (conf::prey::MIN_SPEED * conf::prey::MIN_SPEED - 4
                    * conf::prey::MIN_SPEED - 128 <= updated@[m].mag_sq()
                    <= conf::prey::MAX_SPEED * conf::prey::MAX_SPEED)),
            forall|m: int|
                0 <= m < n ==> (#[trigger] updated@[m]).mag_sq() <= conf::prey::MAX_SPEED
                    * conf::prey::MAX_SPEED,
            forall|m: int| 0 <= m < n ==> (#[trigger] s[m]).wf(),
            forall|m: int|
                k <= m < n ==> (#[trigger] prey@[m]) == s[m],
            forall|m: int|
                0 <= m < k ==> (#[trigger] prey@[m]).pos == s[m].pos && prey@[m].vel.0
                    == updated@[m],
        decreases n - k,
    {
        let next = updated[k];
        let entry = &mut prey[k];
        entry.vel = Velocity(next);
        k = k + 1;
    }
}

} // verus!
