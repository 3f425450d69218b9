//! Prey and predators, as the name suggests, is a game where predators hunt
//! prey. If a predator gets to a certain distance of prey, it can see it. If
//! the predator gets closer, the prey can see it back. If they get very
//! close, the predator eats the prey.
//!
//! Prey is faster than predators, hence predators must cooperate.

pub mod predator;
pub mod prey;

use vstd::prelude::*;

use crate::components::{apply_acc_spec, Velocity};
use crate::conf;
use crate::geometry::Vec2;
use crate::math::{div_towards_zero, div_tz, sqrt_floor};

verus! {

/// One prey agent as the passes see it: where it is and where it heads.
#[derive(Clone, Copy, PartialEq, Eq, Structural, Debug)]
pub struct PreyAgent {
    pub pos: Vec2,
    pub vel: Velocity,
}

impl PreyAgent {
    /// On the map, and never faster than the species allows.
    pub open spec fn wf(self) -> bool {
        &&& self.pos.in_map()
        &&& self.vel.0.mag_sq() <= conf::prey::MAX_SPEED * conf::prey::MAX_SPEED
    }
}

/// One predator agent as the passes see it: the predator's own state next
/// to where it stands.
#[derive(Debug)]
pub struct PredatorAgent {
    pub predator: predator::Predator,
    pub pos: Vec2,
}

impl PredatorAgent {
    /// On the map.
    pub open spec fn wf(self) -> bool {
        self.pos.in_map()
    }
}

/// One axis of the toroidal wraparound: a single correction step, valid
/// because a displacement never reaches a full map length.
pub open spec fn wrap_coord(p: int, d: int) -> int {
    if p + d >= conf::MAP_SIZE {
        p + d - conf::MAP_SIZE
    } else if p + d < 0 {
        p + d + conf::MAP_SIZE
    } else {
        p + d
    }
}

/// Wraparound: for any position on the map and any single-tick displacement
/// smaller than the map, the wrapped position is back on the map and is
/// congruent to `position + displacement` modulo `MAP_SIZE`.
pub proof fn lemma_wrap_is_mod(p: int, d: int)
    requires
        0 <= p < conf::MAP_SIZE,
        -conf::MAP_SIZE < d < conf::MAP_SIZE,
    ensures
        0 <= wrap_coord(p, d) < conf::MAP_SIZE,
        wrap_coord(p, d) == (p + d) % (conf::MAP_SIZE as int),
{
    let m = conf::MAP_SIZE as int;
    if p + d >= m {
        vstd::arithmetic::div_mod::lemma_fundamental_div_mod_converse_mod(p + d, m, 1, p + d - m);
    } else if p + d < 0 {
        vstd::arithmetic::div_mod::lemma_fundamental_div_mod_converse_mod(p + d, m, -1, p + d + m);
    } else {
        vstd::arithmetic::div_mod::lemma_fundamental_div_mod_converse_mod(p + d, m, 0, p + d);
    }
}

/// The velocity left behind by one tick of friction: each axis shrinks by
/// the elapsed fraction of `FRICTION_MS`, truncated toward zero.
pub open spec fn friction_spec(v: Vec2, dt_ms: int) -> Vec2 {
    Vec2 {
        x: div_tz(v.x * (conf::predator::FRICTION_MS - dt_ms), conf::predator::FRICTION_MS as int)
            as i64,
        y: div_tz(v.y * (conf::predator::FRICTION_MS - dt_ms), conf::predator::FRICTION_MS as int)
            as i64,
    }
}

/// A component scaled by a fraction `f / big <= 1` keeps its sign and never
/// grows in magnitude.
proof fn lemma_scaled_component_bounded(a: int, f: int, big: int)
    requires
        0 <= f <= big,
        big >= 1,
    ensures
        a >= 0 ==> 0 <= div_tz(a * f, big) <= a,
        a < 0 ==> a <= div_tz(a * f, big) <= 0,
{
    if a >= 0 {
        assert(0 <= a * f <= a * big) by (nonlinear_arith)
            requires
                a >= 0,
                0 <= f <= big,
        ;
        vstd::arithmetic::div_mod::lemma_div_pos_is_pos(a * f, big);
        vstd::arithmetic::div_mod::lemma_div_is_ordered(a * f, a * big, big);
        vstd::arithmetic::div_mod::lemma_div_multiples_vanish(a, big);
        assert(a * big == big * a) by (nonlinear_arith);
        assert(div_tz(a * f, big) == (a * f) / big);
    } else {
        let b = -a;
        assert(0 <= b * f <= b * big) by (nonlinear_arith)
            requires
                b >= 0,
                0 <= f <= big,
        ;
        vstd::arithmetic::div_mod::lemma_div_pos_is_pos(b * f, big);
        vstd::arithmetic::div_mod::lemma_div_is_ordered(b * f, b * big, big);
        vstd::arithmetic::div_mod::lemma_div_multiples_vanish(b, big);
        assert(b * big == big * b) by (nonlinear_arith);
        assert(-(a * f) == b * f) by (nonlinear_arith)
            requires
                b == -a,
        ;
        assert(div_tz(a * f, big) == -((b * f) / big));
    }
}

/// The positions of a row of predators, in index order.
pub open spec fn pred_positions(s: Seq<PredatorAgent>) -> Seq<Vec2> {
    s.map_values(|a: PredatorAgent| a.pos)
}

/// Prey within this distance of a predator is eaten.
pub open spec fn eats(pred_pos: Vec2, prey_pos: Vec2) -> bool {
    pred_pos.dist_sq(prey_pos) <= conf::predator::STRIKE_RADIUS * conf::predator::STRIKE_RADIUS
}

/// The predator sees the prey: within its view radius, but not close enough
/// to eat it.
pub open spec fn sees_prey(pred_pos: Vec2, prey_pos: Vec2) -> bool {
    pred_pos.dist_sq(prey_pos) <= conf::predator::VIEW_RADIUS * conf::predator::VIEW_RADIUS
        && !eats(pred_pos, prey_pos)
}

/// The prey sees the predator back: the prey always has a lower or equal
/// visibility radius than the predators.
pub open spec fn prey_sees(pred_pos: Vec2, prey_pos: Vec2) -> bool {
    sees_prey(pred_pos, prey_pos) && pred_pos.dist_sq(prey_pos) < conf::prey::VIEW_RADIUS
        * conf::prey::VIEW_RADIUS
}

/// Is the prey within a grasp of any of the first `m` predators?
pub open spec fn is_eaten(prey_pos: Vec2, preds: Seq<Vec2>, m: int) -> bool
    decreases m,
{
    if m <= 0 {
        false
    } else {
        is_eaten(prey_pos, preds, m - 1) || eats(preds[m - 1], prey_pos)
    }
}

/// How many of the first `n` prey stand within this predator's strike
/// radius: its score grows by exactly this much in one interaction pass.
pub open spec fn eaten_count(prey_s: Seq<PreyAgent>, pred_pos: Vec2, n: int) -> int
    decreases n,
{
    if n <= 0 {
        0
    } else {
        eaten_count(prey_s, pred_pos, n - 1) + if eats(pred_pos, prey_s[n - 1].pos) {
            1int
        } else {
            0int
        }
    }
}

/// The prey positions this predator spots in one interaction pass, in prey
/// index order: every prey it sees that is not eaten this tick.
pub open spec fn spotted(
    prey_s: Seq<PreyAgent>,
    preds: Seq<Vec2>,
    pred_pos: Vec2,
    n: int,
) -> Seq<Vec2>
    decreases n,
{
    if n <= 0 {
        Seq::empty()
    } else {
        let rest = spotted(prey_s, preds, pred_pos, n - 1);
        if sees_prey(pred_pos, prey_s[n - 1].pos) && !is_eaten(
            prey_s[n - 1].pos,
            preds,
            preds.len() as int,
        ) {
            rest.push(prey_s[n - 1].pos)
        } else {
            rest
        }
    }
}

/// Does the prey see any of the first `m` predators?
pub open spec fn sees_any(prey_pos: Vec2, preds: Seq<Vec2>, m: int) -> bool
    decreases m,
{
    if m <= 0 {
        false
    } else {
        sees_any(prey_pos, preds, m - 1) || prey_sees(preds[m - 1], prey_pos)
    }
}

/// The summed escape direction: for every predator the prey sees, the offset
/// away from it scaled by `ESCAPE_SCALE` and divided by the distance, so
/// nearer threats matter more.
pub open spec fn escape_sum(prey_pos: Vec2, preds: Seq<Vec2>, m: int) -> (int, int)
    decreases m,
{
    if m <= 0 {
        (0, 0)
    } else {
        let rest = escape_sum(prey_pos, preds, m - 1);
        if prey_sees(preds[m - 1], prey_pos) {
            let dist = sqrt_floor(preds[m - 1].dist_sq(prey_pos) as nat) as int;
            (
                rest.0 + div_tz((prey_pos.x - preds[m - 1].x) * conf::prey::ESCAPE_SCALE, dist),
                rest.1 + div_tz((prey_pos.y - preds[m - 1].y) * conf::prey::ESCAPE_SCALE, dist),
            )
        } else {
            rest
        }
    }
}

/// The velocity one interaction pass leaves a threatened prey with: the
/// weighted escape direction steered and applied as an immediate
/// acceleration - not gated by the flocking throttle, danger response is
/// always on. A prey that sees no predator keeps its velocity.
pub open spec fn escape_vel(p: PreyAgent, preds: Seq<Vec2>, m: int, dt_ms: int) -> Vec2 {
    if !sees_any(p.pos, preds, m) {
        p.vel.0
    } else {
        let e = escape_sum(p.pos, preds, m);
        let weighted = Vec2 {
            x: div_tz(e.0 * conf::prey::ESCAPE_FORCE, conf::WEIGHT_UNIT as int) as i64,
            y: div_tz(e.1 * conf::prey::ESCAPE_FORCE, conf::WEIGHT_UNIT as int) as i64,
        };
        let acc = prey::steer_spec(p.vel.0, weighted);
        apply_acc_spec(
            p.vel.0,
            acc,
            dt_ms,
            conf::prey::MIN_SPEED as int,
            conf::prey::MAX_SPEED as int,
        )
    }
}

/// The three-way classification is a partition: the predators that eat a
/// prey and those that merely see it together are exactly those within the
/// predator view radius, no predator does both at once, and a predator the
/// prey sees back always sees the prey.
pub proof fn lemma_classification_partition(pred_pos: Vec2, prey_pos: Vec2)
    ensures
        (eats(pred_pos, prey_pos) || sees_prey(pred_pos, prey_pos)) <==> pred_pos.dist_sq(prey_pos)
            <= conf::predator::VIEW_RADIUS * conf::predator::VIEW_RADIUS,
        !(eats(pred_pos, prey_pos) && sees_prey(pred_pos, prey_pos)),
        prey_sees(pred_pos, prey_pos) ==> sees_prey(pred_pos, prey_pos),
{
}

/// One predator in strike range makes the prey eaten, whatever the rest do.
pub proof fn lemma_eats_implies_eaten(prey_pos: Vec2, preds: Seq<Vec2>, k: int, m: int)
    requires
        0 <= k < m,
        eats(preds[k], prey_pos),
    ensures
        is_eaten(prey_pos, preds, m),
    decreases m,
{
    if k < m - 1 {
        lemma_eats_implies_eaten(prey_pos, preds, k, m - 1);
    }
}

/// Counting further prey never loses an already-counted catch.
proof fn lemma_eaten_count_mono(prey_s: Seq<PreyAgent>, pred_pos: Vec2, n1: int, n2: int)
    requires
        0 <= n1 <= n2,
    ensures
        eaten_count(prey_s, pred_pos, n1) <= eaten_count(prey_s, pred_pos, n2),
    decreases n2 - n1,
{
    if n1 < n2 {
        lemma_eaten_count_mono(prey_s, pred_pos, n1, n2 - 1);
    }
}

/// Eaten-before-sighted priority: a prey that stands within the strike
/// radius of predator `a` and is merely seen by predator `b` counts as
/// eaten, so the interaction pass leaves its velocity alone (no escape
/// force from `b`), predator `a`'s score grows by at least one, and the
/// prey adds nothing to `b`'s sighting list - the two branches are mutually
/// exclusive.
pub proof fn lemma_eaten_before_sighted(
    prey_s: Seq<PreyAgent>,
    preds: Seq<Vec2>,
    i: int,
    a: int,
    b: int,
)
    requires
        0 <= i < prey_s.len(),
        0 <= a < preds.len(),
        0 <= b < preds.len(),
        eats(preds[a], prey_s[i].pos),
        sees_prey(preds[b], prey_s[i].pos),
    ensures
        is_eaten(prey_s[i].pos, preds, preds.len() as int),
        eaten_count(prey_s, preds[a], prey_s.len() as int) >= 1,
        spotted(prey_s, preds, preds[b], i + 1) == spotted(prey_s, preds, preds[b], i),
{
    lemma_eats_implies_eaten(prey_s[i].pos, preds, a, preds.len() as int);
    lemma_eaten_count_bounds(prey_s, preds[a], i);
    lemma_eaten_count_mono(prey_s, preds[a], i + 1, prey_s.len() as int);
}

/// A prey not eaten by the first `m` predators is not in any of their strike
/// radii.
proof fn lemma_not_eaten_all(prey_pos: Vec2, preds: Seq<Vec2>, m: int)
    requires
        !is_eaten(prey_pos, preds, m),
    ensures
        forall|k: int| 0 <= k < m ==> !eats(preds[k], prey_pos),
    decreases m,
{
    if m > 0 {
        lemma_not_eaten_all(prey_pos, preds, m - 1);
    }
}

/// A predator's score never grows by more than the number of prey.
pub proof fn lemma_eaten_count_bounds(prey_s: Seq<PreyAgent>, pred_pos: Vec2, n: int)
    ensures
        0 <= eaten_count(prey_s, pred_pos, n),
        n >= 0 ==> eaten_count(prey_s, pred_pos, n) <= n,
    decreases n,
{
    if n > 0 {
        lemma_eaten_count_bounds(prey_s, pred_pos, n - 1);
    }
}

/// Translates prey or predator based on its velocity vector. The game space
/// is a topological torus in 2 dimensions, so each axis wraps around the map
/// independently. For predator-class agents friction also makes the velocity
/// a little bit smaller each tick, so they passively decelerate.
///
/// Deriving the facing angle from the velocity direction is left to the
/// presentation layer, which owns all trigonometry.
pub fn nudge(pos: &mut Vec2, vel: &mut Velocity, dt_ms: u64, friction: bool)
    requires
        old(pos).in_map(),
        old(vel).0.mag_sq() <= conf::prey::MAX_SPEED * conf::prey::MAX_SPEED,
        dt_ms <= conf::MAX_TICK_MS,
    ensures
        final(pos).x == wrap_coord(old(pos).x as int, div_tz(old(vel).0.x * dt_ms, 1000)),
        final(pos).y == wrap_coord(old(pos).y as int, div_tz(old(vel).0.y * dt_ms, 1000)),
        final(pos).x == (old(pos).x + div_tz(old(vel).0.x * dt_ms, 1000)) % (
        conf::MAP_SIZE as int),
        final(pos).y == (old(pos).y + div_tz(old(vel).0.y * dt_ms, 1000)) % (
        conf::MAP_SIZE as int),
        final(pos).in_map(),
        (!friction || old(vel).0.is_zero_spec()) ==> *final(vel) == *old(vel),
        (friction && !old(vel).0.is_zero_spec()) ==> final(vel).0 == friction_spec(
            old(vel).0,
            dt_ms as int,
        ),
        final(vel).0.mag_sq() <= conf::prey::MAX_SPEED * conf::prey::MAX_SPEED,
{
    let vx = vel.0.x;
    let vy = vel.0.y;
    proof {
        assert(vx * vx <= conf::prey::MAX_SPEED * conf::prey::MAX_SPEED && vy * vy
            <= conf::prey::MAX_SPEED * conf::prey::MAX_SPEED) by (nonlinear_arith)
            requires
                vx * vx + vy * vy <= conf::prey::MAX_SPEED * conf::prey::MAX_SPEED,
        ;
        crate::math::lemma_abs_le_of_sq(vx as int, conf::prey::MAX_SPEED as int);
        crate::math::lemma_abs_le_of_sq(vy as int, conf::prey::MAX_SPEED as int);
        assert(-conf::prey::MAX_SPEED * conf::MAX_TICK_MS <= vx * (dt_ms as int)
            <= conf::prey::MAX_SPEED * conf::MAX_TICK_MS && -conf::prey::MAX_SPEED
            * conf::MAX_TICK_MS <= vy * (dt_ms as int) <= conf::prey::MAX_SPEED
            * conf::MAX_TICK_MS) by (nonlinear_arith)
            requires
                -conf::prey::MAX_SPEED <= vx <= conf::prey::MAX_SPEED,
                -conf::prey::MAX_SPEED <= vy <= conf::prey::MAX_SPEED,
                0 <= dt_ms <= conf::MAX_TICK_MS,
        ;
        crate::math::lemma_div_tz_bounded(vx * (dt_ms as int), 1000, 700_000);
        crate::math::lemma_div_tz_bounded(vy * (dt_ms as int), 1000, 700_000);
    }
    let dx = div_towards_zero(vx * (dt_ms as i64), 1000);
    let dy = div_towards_zero(vy * (dt_ms as i64), 1000);
    proof {
        assert(-conf::MAP_SIZE < dx < conf::MAP_SIZE && -conf::MAP_SIZE < dy < conf::MAP_SIZE);
        lemma_wrap_is_mod(pos.x as int, dx as int);
        lemma_wrap_is_mod(pos.y as int, dy as int);
    }
    let moved_x = pos.x + dx;
    let moved_y = pos.y + dy;
    let wrapped_x = if moved_x >= conf::MAP_SIZE {
        moved_x - conf::MAP_SIZE
    } else if moved_x < 0 {
        moved_x + conf::MAP_SIZE
    } else {
        moved_x
    };
    let wrapped_y = if moved_y >= conf::MAP_SIZE {
        moved_y - conf::MAP_SIZE
    } else if moved_y < 0 {
        moved_y + conf::MAP_SIZE
    } else {
        moved_y
    };
    *pos = Vec2 { x: wrapped_x, y: wrapped_y };
    // If the velocity vector is not zero, friction makes it a little bit
    // smaller; only predator-class agents decelerate passively.
    if friction && !vel.0.is_zero() {
        let factor = (conf::predator::FRICTION_MS - dt_ms) as i64;
        proof {
            lemma_scaled_component_bounded(vx as int, factor as int, 5000);
            lemma_scaled_component_bounded(vy as int, factor as int, 5000);
        }
        let fx = div_towards_zero(vx * factor, 5000);
        let fy = div_towards_zero(vy * factor, 5000);
        proof {
            assert(fx * fx <= vx * vx && fy * fy <= vy * vy) by (nonlinear_arith)
                requires
                    vx >= 0 ==> 0 <= fx <= vx,
                    vx < 0 ==> vx <= fx <= 0,
                    vy >= 0 ==> 0 <= fy <= vy,
                    vy < 0 ==> vy <= fy <= 0,
            ;
        }
        vel.0 = Vec2 { x: fx, y: fy };
    }
}

/// One prey's interaction with the full row of predators: every predator in
/// strike range scores and the prey respawns at a random spot; otherwise the
/// prey's escape response is applied and every predator that sees it is told
/// where it is.
#[verifier::rlimit(100)]
fn interact_one(p: &mut PreyAgent, predators: &mut Vec<PredatorAgent>, dt_ms: u64)
    requires
        old(p).wf(),
        old(predators)@.len() <= conf::MAX_AGENTS,
        forall|j: int|
            0 <= j < old(predators)@.len() ==> (#[trigger] old(predators)@[j]).wf(),
        forall|j: int|
            0 <= j < old(predators)@.len() ==> (#[trigger] old(
                predators,
            )@[j]).predator.score < u64::MAX,
        dt_ms <= conf::MAX_TICK_MS,
    ensures
        final(predators)@.len() == old(predators)@.len(),
        forall|j: int|
            0 <= j < old(predators)@.len() ==> {
                &&& (#[trigger] final(predators)@[j]).pos == old(predators)@[j].pos
                &&& final(predators)@[j].predator.nearby_predators == old(
                    predators,
                )@[j].predator.nearby_predators
                &&& final(predators)@[j].predator.score == old(predators)@[j].predator.score
                    + if eats(old(predators)@[j].pos, old(p).pos) {
                    1int
                } else {
                    0int
                }
                &&& final(predators)@[j].predator.nearby_prey@ == if sees_prey(
                    old(predators)@[j].pos,
                    old(p).pos,
                ) && !is_eaten(
                    old(p).pos,
                    pred_positions(old(predators)@),
                    old(predators)@.len() as int,
                ) {
                    old(predators)@[j].predator.nearby_prey@.push(old(p).pos)
                } else {
                    old(predators)@[j].predator.nearby_prey@
                }
            },
        is_eaten(old(p).pos, pred_positions(old(predators)@), old(predators)@.len() as int)
            ==> final(p).vel == old(p).vel && final(p).pos.in_map(),
        !is_eaten(old(p).pos, pred_positions(old(predators)@), old(predators)@.len() as int)
            ==> final(p).pos == old(p).pos && final(p).vel.0 == escape_vel(
            *old(p),
            pred_positions(old(predators)@),
            old(predators)@.len() as int,
            dt_ms as int,
        ),
        final(p).wf(),
{
    let ghost preds0 = predators@;
    let ghost p0 = *p;
    let ghost pp = pred_positions(predators@);
    let n = predators.len();
    let prey_pos = p.pos;
    let prey_vel = p.vel;
    proof {
        assert(prey_vel.0.x * prey_vel.0.x <= conf::prey::MAX_SPEED * conf::prey::MAX_SPEED
            && prey_vel.0.y * prey_vel.0.y <= conf::prey::MAX_SPEED * conf::prey::MAX_SPEED)
            by (nonlinear_arith)
            requires
                prey_vel.0.x * prey_vel.0.x + prey_vel.0.y * prey_vel.0.y <= conf::prey::MAX_SPEED
                    * conf::prey::MAX_SPEED,
        ;
        crate::math::lemma_abs_le_of_sq(prey_vel.0.x as int, conf::prey::MAX_SPEED as int);
        crate::math::lemma_abs_le_of_sq(prey_vel.0.y as int, conf::prey::MAX_SPEED as int);
    }
    // Finds out whether the prey is within a grasp of any predator.
    let mut eaten = false;
    let mut j: usize = 0;
    while j < n
        invariant
            predators@ == preds0,
            pp == pred_positions(predators@),
            n == predators@.len() <= conf::MAX_AGENTS,
            pp.len() == n,
            forall|m: int| 0 <= m < n ==> (#[trigger] predators@[m]).wf(),
            forall|m: int| 0 <= m < n ==> (#[trigger] pp[m]) == predators@[m].pos,
            0 <= j <= n,
            prey_pos.in_map(),
            eaten == is_eaten(prey_pos, pp, j as int),
        decreases n - j,
    {
        let distance_sq = predators[j].pos.dist_sq_i64(prey_pos);
        if distance_sq <= conf::predator::STRIKE_RADIUS * conf::predator::STRIKE_RADIUS {
            eaten = true;
        }
        j = j + 1;
    }
    if eaten {
        // Prey is within a grasp of a predator - eaten. Every predator
        // within its strike radius scores.
        let mut j: usize = 0;
        while j < n
            invariant
                predators@.len() == n == preds0.len(),
                pp == pred_positions(preds0),
                pp.len() == n,
                forall|m: int| 0 <= m < n ==> (#[trigger] pp[m]) == preds0[m].pos,
                forall|m: int| 0 <= m < n ==> (#[trigger] preds0[m]).wf(),
                forall|m: int|
                    0 <= m < n ==> (#[trigger] preds0[m]).predator.score < u64::MAX,
                0 <= j <= n,
                prey_pos.in_map(),
                prey_pos == p0.pos,
                forall|m: int|
                    0 <= m < n ==> {
                        &&& (#[trigger] predators@[m]).pos == preds0[m].pos
                        &&& predators@[m].predator.nearby_predators == preds0[m].predator.nearby_predators
                        &&& predators@[m].predator.nearby_prey == preds0[m].predator.nearby_prey
                        &&& predators@[m].predator.score == preds0[m].predator.score
                            + if m < j && eats(preds0[m].pos, prey_pos) {
                            1int
                        } else {
                            0int
                        }
                    },
            decreases n - j,
        {
            let distance_sq = predators[j].pos.dist_sq_i64(prey_pos);
            if distance_sq <= conf::predator::STRIKE_RADIUS * conf::predator::STRIKE_RADIUS {
                let entry = &mut predators[j];
                entry.predator.score();
            }
            j = j + 1;
        }
        // Re-spawns the prey at a random place somewhere else. This works ok
        // if the map is very large and there aren't that many predators.
        p.pos = Vec2::random();
    } else {
        proof {
            lemma_not_eaten_all(prey_pos, pp, n as int);
        }
        // Accumulates the escape direction away from every predator the
        // prey sees, and lets every predator that sees the prey spot it.
        let mut escape_x: i64 = 0;
        let mut escape_y: i64 = 0;
        let mut any_seen = false;
        let mut j: usize = 0;
        while j < n
            invariant
                predators@.len() == n == preds0.len(),
                pp == pred_positions(preds0),
                pp.len() == n,
                forall|m: int| 0 <= m < n ==> (#[trigger] pp[m]) == preds0[m].pos,
                forall|m: int| 0 <= m < n ==> (#[trigger] preds0[m]).wf(),
                0 <= j <= n,
                prey_pos.in_map(),
                prey_pos == p0.pos,
                !is_eaten(prey_pos, pp, n as int),
                forall|k: int| 0 <= k < n ==> !eats(#[trigger] pp[k], prey_pos),
                forall|m: int|
                    0 <= m < n ==> {
                        &&& (#[trigger] predators@[m]).pos == preds0[m].pos
                        &&& predators@[m].predator.nearby_predators == preds0[m].predator.nearby_predators
                        &&& predators@[m].predator.score == preds0[m].predator.score
                        &&& predators@[m].predator.nearby_prey@ == if m < j && sees_prey(
                            preds0[m].pos,
                            prey_pos,
                        ) {
                            preds0[m].predator.nearby_prey@.push(prey_pos)
                        } else {
                            preds0[m].predator.nearby_prey@
                        }
                    },
                n <= conf::MAX_AGENTS,
                escape_x == escape_sum(prey_pos, pp, j as int).0,
                escape_y == escape_sum(prey_pos, pp, j as int).1,
                -(j as int) * conf::prey::ESCAPE_SCALE <= escape_x <= (j as int)
                    * conf::prey::ESCAPE_SCALE,
                -(j as int) * conf::prey::ESCAPE_SCALE <= escape_y <= (j as int)
                    * conf::prey::ESCAPE_SCALE,
                any_seen == sees_any(prey_pos, pp, j as int),
            decreases n - j,
        {
            let pred_pos = predators[j].pos;
            proof {
                assert(pp[j as int] == preds0[j as int].pos);
                assert(!eats(pp[j as int], prey_pos));
                assert(pred_pos == pp[j as int]);
            }
            let distance_sq = pred_pos.dist_sq_i64(prey_pos);
            // If the prey is out of the predator's visibility radius, it has
            // nothing to worry about.
            if distance_sq <= conf::predator::VIEW_RADIUS * conf::predator::VIEW_RADIUS {
                let entry = &mut predators[j];
                entry.predator.spot_prey(prey_pos);
                // The prey always has a lower or equal visibility radius.
                if distance_sq < conf::prey::VIEW_RADIUS * conf::prey::VIEW_RADIUS {
                    any_seen = true;
                    let dist128 = crate::math::isqrt_u128(distance_sq as u128);
    proof {
                        crate::math::lemma_sqrt_floor(distance_sq as nat);
                        let di = dist128 as int;
                        let dq = distance_sq as int;
                        assert(di >= 30_000) by (nonlinear_arith)
                            requires
                                di * di <= dq,
                                dq < (di + 1) * (di + 1),
                                dq > 900_000_000,
                                di >= 0,
                        ;
                        assert(di <= 150_000) by (nonlinear_arith)
                            requires
                                di * di <= dq,
                                dq < 22_500_000_000int,
                                di >= 0,
                        ;
                    }
                    let dist = dist128 as i64;
                    let off_x = prey_pos.x - pred_pos.x;
                    let off_y = prey_pos.y - pred_pos.y;
                    proof {
                        assert(off_x * off_x <= distance_sq && off_y * off_y <= distance_sq)
                            by (nonlinear_arith)
                            requires
                                distance_sq == (pred_pos.x - prey_pos.x) * (pred_pos.x
                                    - prey_pos.x) + (pred_pos.y - prey_pos.y) * (pred_pos.y
                                    - prey_pos.y),
                                off_x == prey_pos.x - pred_pos.x,
                                off_y == prey_pos.y - pred_pos.y,
                        ;
                        assert(-dist <= off_x <= dist && -dist <= off_y <= dist)
                            by (nonlinear_arith)
                            requires
                                off_x * off_x <= distance_sq,
                                off_y * off_y <= distance_sq,
                                distance_sq < ((dist as int) + 1) * ((dist as int) + 1),
                                dist >= 1,
                        ;
                        assert(-(dist as int) * conf::prey::ESCAPE_SCALE <= off_x
                            * conf::prey::ESCAPE_SCALE <= (dist as int) * conf::prey::ESCAPE_SCALE
                            && -(dist as int) * conf::prey::ESCAPE_SCALE <= off_y
                            * conf::prey::ESCAPE_SCALE <= (dist as int)
                            * conf::prey::ESCAPE_SCALE) by (nonlinear_arith)
                            requires
                                -dist <= off_x <= dist,
                                -dist <= off_y <= dist,
                                conf::prey::ESCAPE_SCALE == 65_536i64,
                                dist >= 1,
                        ;
                        crate::math::lemma_div_tz_bounded(
                            off_x * conf::prey::ESCAPE_SCALE,
                            dist as int,
                            conf::prey::ESCAPE_SCALE as int,
                        );
                        crate::math::lemma_div_tz_bounded(
                            off_y * conf::prey::ESCAPE_SCALE,
                            dist as int,
                            conf::prey::ESCAPE_SCALE as int,
                        );
                    }
                    escape_x = escape_x + div_towards_zero(
                        off_x * conf::prey::ESCAPE_SCALE,
                        dist,
                    );
                    escape_y = escape_y + div_towards_zero(
                        off_y * conf::prey::ESCAPE_SCALE,
                        dist,
                    );
                }
            }
            j = j + 1;
        }
        proof {
            assert forall|m: int| 0 <= m < n implies !eats(preds0[m].pos, p0.pos) by {
                assert(pp[m] == preds0[m].pos);
                assert(!eats(pp[m], prey_pos));
            }
        }
        if any_seen {
            proof {
                crate::math::lemma_div_tz_bounded(
                    escape_x * conf::prey::ESCAPE_FORCE,
                    conf::WEIGHT_UNIT as int,
                    65_536_000,
                );
                crate::math::lemma_div_tz_bounded(
                    escape_y * conf::prey::ESCAPE_FORCE,
                    conf::WEIGHT_UNIT as int,
                    65_536_000,
                );
            }
            // Steers away along the summed escape direction and applies it
            // as an immediate acceleration.
            let weighted = Vec2 {
                x: div_towards_zero(escape_x * conf::prey::ESCAPE_FORCE, conf::WEIGHT_UNIT),
                y: div_towards_zero(escape_y * conf::prey::ESCAPE_FORCE, conf::WEIGHT_UNIT),
            };
            let acc = prey::steer_towards(prey_vel, weighted);
            let mut vel = prey_vel;
            vel.apply_acceleration(
                acc,
                dt_ms,
                conf::prey::MIN_SPEED,
                conf::prey::MAX_SPEED,
            );
            p.vel = vel;
        }
    }
}

/// Iterates over all prey and all predators. If a prey is close to a
/// predator, the predator either sees it or eats it: every eaten prey
/// scores each predator whose strike radius it is in and respawns at a
/// random spot with its velocity kept; every other prey applies its escape
/// response and is spotted by each predator that sees it. Eating wins over
/// sighting: an eaten prey neither flees nor is recorded as seen.
pub fn interact(prey: &mut Vec<PreyAgent>, predators: &mut Vec<PredatorAgent>, dt_ms: u64)
    requires
        old(prey)@.len() <= conf::MAX_AGENTS,
        old(predators)@.len() <= conf::MAX_AGENTS,
        forall|i: int| 0 <= i < old(prey)@.len() ==> (#[trigger] old(prey)@[i]).wf(),
        forall|j: int|
            0 <= j < old(predators)@.len() ==> (#[trigger] old(predators)@[j]).wf(),
        forall|j: int|
            0 <= j < old(predators)@.len() ==> (#[trigger] old(
                predators,
            )@[j]).predator.score + old(prey)@.len() <= u64::MAX,
        dt_ms <= conf::MAX_TICK_MS,
    ensures
        final(prey)@.len() == old(prey)@.len(),
        final(predators)@.len() == old(predators)@.len(),
        forall|j: int|
            0 <= j < old(predators)@.len() ==> {
                &&& (#[trigger] final(predators)@[j]).pos == old(predators)@[j].pos
                &&& final(predators)@[j].predator.nearby_predators == old(
                    predators,
                )@[j].predator.nearby_predators
                &&& final(predators)@[j].predator.score == old(predators)@[j].predator.score
                    + eaten_count(old(prey)@, old(predators)@[j].pos, old(prey)@.len() as int)
                &&& final(predators)@[j].predator.score >= old(predators)@[j].predator.score
                &&& final(predators)@[j].predator.nearby_prey@ == old(
                    predators,
                )@[j].predator.nearby_prey@ + spotted(
                    old(prey)@,
                    pred_positions(old(predators)@),
                    old(predators)@[j].pos,
                    old(prey)@.len() as int,
                )
            },
        forall|i: int|
            0 <= i < old(prey)@.len() ==> {
                &&& (is_eaten(
                    old(prey)@[i].pos,
                    pred_positions(old(predators)@),
                    old(predators)@.len() as int,
                ) ==> (#[trigger] final(prey)@[i]).vel == old(prey)@[i].vel
                    && final(prey)@[i].pos.in_map())
                &&& (!is_eaten(
                    old(prey)@[i].pos,
                    pred_positions(old(predators)@),
                    old(predators)@.len() as int,
                ) ==> final(prey)@[i].pos == old(prey)@[i].pos && final(prey)@[i].vel.0
                    == escape_vel(
                    old(prey)@[i],
                    pred_positions(old(predators)@),
                    old(predators)@.len() as int,
                    dt_ms as int,
                ))
                &&& final(prey)@[i].wf()
            },
{
    let ghost ys0 = prey@;
    let ghost ps0 = predators@;
    let ghost pp = pred_positions(ps0);
    let n_prey = prey.len();
    let n_pred = predators.len();
    let mut i: usize = 0;
    while i < n_prey
        invariant
            prey@.len() == n_prey == ys0.len(),
            predators@.len() == n_pred == ps0.len(),
            n_prey <= conf::MAX_AGENTS,
            n_pred <= conf::MAX_AGENTS,
            pp == pred_positions(ps0),
            pp.len() == n_pred,
            dt_ms <= conf::MAX_TICK_MS,
            forall|m: int| 0 <= m < n_pred ==> (#[trigger] pp[m]) == ps0[m].pos,
            forall|k: int| 0 <= k < n_prey ==> (#[trigger] ys0[k]).wf(),
            forall|m: int| 0 <= m < n_pred ==> (#[trigger] ps0[m]).wf(),
            forall|m: int|
                0 <= m < n_pred ==> (#[trigger] ps0[m]).predator.score + n_prey <= u64::MAX,
            0 <= i <= n_prey,
            forall|m: int|
                0 <= m < n_pred ==> {
                    &&& (#[trigger] predators@[m]).pos == ps0[m].pos
                    &&& predators@[m].predator.nearby_predators == ps0[m].predator.nearby_predators
                    &&& predators@[m].predator.score == ps0[m].predator.score + eaten_count(
                        ys0,
                        ps0[m].pos,
                        i as int,
                    )
                    &&& predators@[m].predator.nearby_prey@ == ps0[m].predator.nearby_prey@
                        + spotted(ys0, pp, ps0[m].pos, i as int)
                },
            forall|k: int| i <= k < n_prey ==> (#[trigger] prey@[k]) == ys0[k],
            forall|k: int|
                0 <= k < i ==> {
                    &&& (is_eaten(ys0[k].pos, pp, n_pred as int) ==> (#[trigger] prey@[k]).vel
                        == ys0[k].vel && prey@[k].pos.in_map())
                    &&& (!is_eaten(ys0[k].pos, pp, n_pred as int) ==> prey@[k].pos == ys0[k].pos
                        && prey@[k].vel.0 == escape_vel(ys0[k], pp, n_pred as int, dt_ms as int))
                    &&& prey@[k].wf()
                },
        decreases n_prey - i,
    {
        proof {
            lemma_eaten_count_bounds(ys0, ps0[i as int].pos, i as int);
            assert(forall|m: int|
                0 <= m < n_pred ==> (#[trigger] predators@[m]).predator.score < u64::MAX) by {
                assert forall|m: int| 0 <= m < n_pred implies (#[trigger] predators@[m]).predator.score
                    < u64::MAX by {
                    lemma_eaten_count_bounds(ys0, ps0[m].pos, i as int);
                }
            }
        }
        proof {
            assert(pred_positions(predators@) =~= pp);
        }
        let entry = &mut prey[i];
        interact_one(entry, predators, dt_ms);
        proof {
            assert(pred_positions(predators@) =~= pp);
            assert forall|m: int| 0 <= m < n_pred implies (#[trigger] predators@[m]).predator.nearby_prey@
                == ps0[m].predator.nearby_prey@ + spotted(ys0, pp, ps0[m].pos, i + 1) by {
                if sees_prey(ps0[m].pos, ys0[i as int].pos) && !is_eaten(
                    ys0[i as int].pos,
                    pp,
                    n_pred as int,
                ) {
                    assert((ps0[m].predator.nearby_prey@ + spotted(ys0, pp, ps0[m].pos, i as int))
                        .push(ys0[i as int].pos) =~= ps0[m].predator.nearby_prey@ + (spotted(
                        ys0,
                        pp,
                        ps0[m].pos,
                        i as int,
                    ).push(ys0[i as int].pos)));
                }
            }
        }
        i = i + 1;
    }
    proof {
        assert forall|j: int| 0 <= j < n_pred implies eaten_count(ys0, ps0[j].pos, n_prey as int)
            >= 0 by {
            lemma_eaten_count_bounds(ys0, ps0[j].pos, n_prey as int);
        }
    }
}

} // verus!
