//! A predator is an entity which is controlled by an agent, and for
//! debugging purposes it can also be controlled by the keyboard.
//!
//! A predator is slower than a prey, therefore predators must cooperate
//! with each other in order to score points.

use vstd::prelude::*;

use crate::components::Velocity;
use crate::conf;
use crate::entities::PredatorAgent;
use crate::geometry::{scale_spec, scale_to_len, Vec2};
use crate::math::{div_towards_zero, div_tz};
use crate::resources::{timer_tick_spec, KeyPressDelay};

verus! {

/// Fixed-point length of the direction vectors the keyboard steering works
/// with (2^16).
pub const DIRECTION_UNIT: i64 = 65_536;

/// What a predator knows and has achieved: its transient world view of this
/// tick, and its score so far.
#[derive(Debug)]
pub struct Predator {
    /// Lists positions of prey nearby. With each tick, this value is reset.
    pub nearby_prey: Vec<Vec2>,
    /// Lists positions of nearby predators. With each tick, this value is
    /// reset.
    pub nearby_predators: Vec<Vec2>,
    /// How many prey this predator has eaten. It only ever grows.
    pub score: u64,
}

impl Predator {
    pub fn new() -> (r: Self)
        ensures
            r.nearby_prey@ == Seq::<Vec2>::empty(),
            r.nearby_predators@ == Seq::<Vec2>::empty(),
            r.score == 0,
    {
        Predator { nearby_prey: Vec::new(), nearby_predators: Vec::new(), score: 0 }
    }

    /// Adds a new prey position into its world view.
    pub fn spot_prey(&mut self, at: Vec2)
        ensures
            final(self).nearby_prey@ == old(self).nearby_prey@.push(at),
            final(self).nearby_predators == old(self).nearby_predators,
            final(self).score == old(self).score,
    {
        self.nearby_prey.push(at);
    }

    /// Adds a new predator position into its world view.
    pub fn spot_predator(&mut self, at: Vec2)
        ensures
            final(self).nearby_predators@ == old(self).nearby_predators@.push(at),
            final(self).nearby_prey == old(self).nearby_prey,
            final(self).score == old(self).score,
    {
        self.nearby_predators.push(at);
    }

    /// Adds a batch of predator positions into its world view, draining the
    /// given buffer so it can be reused.
    pub fn spot_predators(&mut self, positions: &mut Vec<Vec2>)
        ensures
            final(self).nearby_predators@ == old(self).nearby_predators@ + old(positions)@,
            final(positions)@ == Seq::<Vec2>::empty(),
            final(self).nearby_prey == old(self).nearby_prey,
            final(self).score == old(self).score,
    {
        self.nearby_predators.append(positions);
    }

    /// Scores one eaten prey.
    pub fn score(&mut self)
        requires
            old(self).score < u64::MAX,
        ensures
            final(self).score == old(self).score + 1,
            final(self).nearby_prey == old(self).nearby_prey,
            final(self).nearby_predators == old(self).nearby_predators,
    {
        self.score = self.score + 1;
    }
}

/// Two predators see each other when they stand strictly within the view
/// radius of one another.
pub open spec fn sees_other(a: Vec2, b: Vec2) -> bool {
    a.dist_sq(b) < conf::predator::VIEW_RADIUS * conf::predator::VIEW_RADIUS
}

/// The positions, in index order, of the predators with index in `[lo, hi)`
/// other than `k` itself that predator `k` sees.
pub open spec fn near_seq(s: Seq<PredatorAgent>, k: int, lo: int, hi: int) -> Seq<Vec2>
    decreases hi - lo,
{
    if lo >= hi {
        Seq::empty()
    } else {
        let prefix = near_seq(s, k, lo, hi - 1);
        if hi - 1 != k && sees_other(s[k].pos, s[hi - 1].pos) {
            prefix.push(s[hi - 1].pos)
        } else {
            prefix
        }
    }
}

/// Distance does not care which end it is measured from.
pub proof fn lemma_dist_sq_symmetric(a: Vec2, b: Vec2)
    ensures
        a.dist_sq(b) == b.dist_sq(a),
{
    assert(a.dist_sq(b) == b.dist_sq(a)) by (nonlinear_arith);
}

/// Splitting the scanned index range splits the recorded positions.
proof fn lemma_near_seq_concat(s: Seq<PredatorAgent>, k: int, lo: int, mid: int, hi: int)
    requires
        lo <= mid <= hi,
    ensures
        near_seq(s, k, lo, hi) == near_seq(s, k, lo, mid) + near_seq(s, k, mid, hi),
    decreases hi - mid,
{
    if hi == mid {
        assert(near_seq(s, k, lo, mid) + near_seq(s, k, mid, hi) =~= near_seq(s, k, lo, mid));
    } else {
        lemma_near_seq_concat(s, k, lo, mid, hi - 1);
        if hi - 1 != k && sees_other(s[k].pos, s[hi - 1].pos) {
            assert((near_seq(s, k, lo, mid) + near_seq(s, k, mid, hi - 1)).push(s[hi - 1].pos)
                =~= near_seq(s, k, lo, mid) + near_seq(s, k, mid, hi - 1).push(s[hi - 1].pos));
        }
    }
}

/// A scan never records the scanned predator itself.
proof fn lemma_near_seq_skip_self(s: Seq<PredatorAgent>, k: int, hi: int)
    requires
        k < hi,
    ensures
        near_seq(s, k, k, hi) == near_seq(s, k, k + 1, hi),
    decreases hi - k,
{
    if hi == k + 1 {
        assert(near_seq(s, k, k, k) =~= Seq::<Vec2>::empty());
        assert(near_seq(s, k, k, hi) =~= Seq::<Vec2>::empty());
        assert(near_seq(s, k, k + 1, hi) =~= Seq::<Vec2>::empty());
    } else {
        lemma_near_seq_skip_self(s, k, hi - 1);
        assert(near_seq(s, k, k, hi) == if hi - 1 != k && sees_other(s[k].pos, s[hi - 1].pos) {
            near_seq(s, k, k, hi - 1).push(s[hi - 1].pos)
        } else {
            near_seq(s, k, k, hi - 1)
        });
        assert(near_seq(s, k, k + 1, hi) == if hi - 1 != k && sees_other(s[k].pos, s[hi - 1].pos) {
            near_seq(s, k, k + 1, hi - 1).push(s[hi - 1].pos)
        } else {
            near_seq(s, k, k + 1, hi - 1)
        });
    }
}

/// How often a value occurs in a sequence of positions.
pub open spec fn count_of(s: Seq<Vec2>, v: Vec2) -> int
    decreases s.len(),
{
    if s.len() == 0 {
        0
    } else {
        count_of(s.drop_last(), v) + if s.last() == v {
            1int
        } else {
            0int
        }
    }
}

/// With pairwise-distinct positions, a scan records predator `j`'s position
/// once when `j` is seen and scanned, and not at all otherwise.
proof fn lemma_near_seq_count(s: Seq<PredatorAgent>, k: int, j: int, hi: int)
    requires
        0 <= k < s.len(),
        0 <= j < s.len(),
        j != k,
        0 <= hi <= s.len(),
        forall|a: int, b: int|
            0 <= a < b < s.len() ==> #[trigger] s[a].pos != #[trigger] s[b].pos,
    ensures
        count_of(near_seq(s, k, 0, hi), s[j].pos) == if j < hi && sees_other(s[k].pos, s[j].pos) {
            1int
        } else {
            0int
        },
    decreases hi,
{
    if hi == 0 {
        assert(count_of(near_seq(s, k, 0, 0), s[j].pos) == 0);
    } else {
        lemma_near_seq_count(s, k, j, hi - 1);
        let prefix = near_seq(s, k, 0, hi - 1);
        let e = s[hi - 1].pos;
        if hi - 1 != k && sees_other(s[k].pos, e) {
            assert(near_seq(s, k, 0, hi) == prefix.push(e));
            assert(prefix.push(e).drop_last() =~= prefix);
            assert(prefix.push(e).last() == e);
            if hi - 1 != j {
                assert(e != s[j].pos);
            }
        }
    }
}

/// Symmetry of predator sighting: for any two predators that stand within
/// view radius of each other, one cooperative-sighting scan records each in
/// the other's nearby-predators list exactly once. Predators are told apart
/// by their positions, so those must be pairwise distinct.
pub proof fn lemma_sighting_symmetric(s: Seq<PredatorAgent>, i: int, j: int)
    requires
        0 <= i < s.len(),
        0 <= j < s.len(),
        i != j,
        sees_other(s[i].pos, s[j].pos),
        forall|a: int, b: int|
            0 <= a < b < s.len() ==> #[trigger] s[a].pos != #[trigger] s[b].pos,
    ensures
        count_of(near_seq(s, i, 0, s.len() as int), s[j].pos) == 1,
        count_of(near_seq(s, j, 0, s.len() as int), s[i].pos) == 1,
{
    lemma_dist_sq_symmetric(s[i].pos, s[j].pos);
    lemma_near_seq_count(s, i, j, s.len() as int);
    lemma_near_seq_count(s, j, i, s.len() as int);
}

/// We find predators which are nearby each other and update their state:
/// each predator's world view gains the position of every other predator it
/// sees, in index order. Predator `i` is compared only against predators
/// `i+1..n`, and both sides of one comparison are updated, so every
/// unordered pair is visited once.
pub fn find_nearby_predators(predators: &mut Vec<PredatorAgent>)
    requires
        forall|k: int|
            0 <= k < old(predators)@.len() ==> (#[trigger] old(predators)@[k]).wf(),
    ensures
        final(predators)@.len() == old(predators)@.len(),
        forall|k: int|
            0 <= k < old(predators)@.len() ==> {
                &&& (#[trigger] final(predators)@[k]).pos == old(predators)@[k].pos
                &&& final(predators)@[k].predator.nearby_prey == old(
                    predators,
                )@[k].predator.nearby_prey
                &&& final(predators)@[k].predator.score == old(predators)@[k].predator.score
                &&& final(predators)@[k].predator.nearby_predators@ == old(
                    predators,
                )@[k].predator.nearby_predators@ + near_seq(
                    old(predators)@,
                    k,
                    0,
                    old(predators)@.len() as int,
                )
            },
{
    let ghost s0 = old(predators)@;
    let n = predators.len();
    // This gets emptied after each cycle so we can reuse it.
    let mut neighbours: Vec<Vec2> = Vec::new();
    let mut i: usize = 0;
    while i < n
        invariant
            predators@.len() == n == s0.len(),
            0 <= i <= n,
            neighbours@ == Seq::<Vec2>::empty(),
            forall|k: int| 0 <= k < n ==> (#[trigger] s0[k]).wf(),
            forall|k: int|
                0 <= k < n ==> {
                    &&& (#[trigger] predators@[k]).pos == s0[k].pos
                    &&& predators@[k].predator.nearby_prey == s0[k].predator.nearby_prey
                    &&& predators@[k].predator.score == s0[k].predator.score
                },
            forall|k: int|
                0 <= k < i ==> (#[trigger] predators@[k]).predator.nearby_predators@
                    == s0[k].predator.nearby_predators@ + near_seq(s0, k, 0, n as int),
            forall|k: int|
                i <= k < n ==> (#[trigger] predators@[k]).predator.nearby_predators@
                    == s0[k].predator.nearby_predators@ + near_seq(s0, k, 0, i as int),
        decreases n - i,
    {
        let pos_i = predators[i].pos;
        let mut j: usize = i + 1;
        while j < n
            invariant
                predators@.len() == n == s0.len(),
                0 <= i < n,
                i + 1 <= j <= n,
                pos_i == s0[i as int].pos,
                forall|k: int| 0 <= k < n ==> (#[trigger] s0[k]).wf(),
                forall|k: int|
                    0 <= k < n ==> {
                        &&& (#[trigger] predators@[k]).pos == s0[k].pos
                        &&& predators@[k].predator.nearby_prey == s0[k].predator.nearby_prey
                        &&& predators@[k].predator.score == s0[k].predator.score
                    },
                neighbours@ == near_seq(s0, i as int, i + 1, j as int),
                forall|k: int|
                    0 <= k < i ==> (#[trigger] predators@[k]).predator.nearby_predators@
                        == s0[k].predator.nearby_predators@ + near_seq(s0, k, 0, n as int),
                predators@[i as int].predator.nearby_predators@ == s0[i as int].predator.nearby_predators@
                    + near_seq(s0, i as int, 0, i as int),
                forall|k: int|
                    i < k < j ==> (#[trigger] predators@[k]).predator.nearby_predators@
                        == s0[k].predator.nearby_predators@ + near_seq(s0, k, 0, i + 1),
                forall|k: int|
                    j <= k < n ==> (#[trigger] predators@[k]).predator.nearby_predators@
                        == s0[k].predator.nearby_predators@ + near_seq(s0, k, 0, i as int),
            decreases n - j,
        {
            let pos_j = predators[j].pos;
            proof {
                lemma_dist_sq_symmetric(pos_i, pos_j);
            }
            let distance_sq = pos_i.dist_sq_i64(pos_j);
            // If the other predator is nearby the currently iterated one,
            // push to the world view of both predators.
            if distance_sq < conf::predator::VIEW_RADIUS * conf::predator::VIEW_RADIUS {
                let entry = &mut predators[j];
                entry.predator.spot_predator(pos_i);
                neighbours.push(pos_j);
                proof {
                    assert(near_seq(s0, j as int, 0, i + 1) == near_seq(s0, j as int, 0, i as int)
                        .push(s0[i as int].pos));
                    assert((s0[j as int].predator.nearby_predators@ + near_seq(
                        s0,
                        j as int,
                        0,
                        i as int,
                    )).push(s0[i as int].pos) =~= s0[j as int].predator.nearby_predators@
                        + near_seq(s0, j as int, 0, i as int).push(s0[i as int].pos));
                }
            } else {
                proof {
                    assert(near_seq(s0, j as int, 0, i + 1) == near_seq(
                        s0,
                        j as int,
                        0,
                        i as int,
                    ));
                }
            }
            j = j + 1;
        }
        let entry = &mut predators[i];
        entry.predator.spot_predators(&mut neighbours);
        proof {
            lemma_near_seq_skip_self(s0, i as int, n as int);
            lemma_near_seq_concat(s0, i as int, 0, i as int, n as int);
            assert((s0[i as int].predator.nearby_predators@ + near_seq(s0, i as int, 0, i as int))
                + near_seq(s0, i as int, i + 1, n as int) =~= s0[i as int].predator.nearby_predators@
                + (near_seq(s0, i as int, 0, i as int) + near_seq(s0, i as int, i + 1, n as int)));
        }
        i = i + 1;
    }
}

/// A new predator joining the game: a fresh world view, a random spot on the
/// map, and no motion yet.
pub fn init() -> (r: (PredatorAgent, Velocity))
    ensures
        r.0.predator.nearby_prey@ == Seq::<Vec2>::empty(),
        r.0.predator.nearby_predators@ == Seq::<Vec2>::empty(),
        r.0.predator.score == 0,
        r.0.pos.in_map(),
        r.1.0 == (Vec2 { x: 0, y: 0 }),
{
    let agent = PredatorAgent { predator: Predator::new(), pos: Vec2::random() };
    (agent, Velocity(Vec2 { x: 0, y: 0 }))
}

/// The direction a keyboard-controlled predator accelerates along: with no
/// motion yet it faces along the x axis; otherwise left and right turn it
/// along the perpendicular of its heading, and up continues forward.
pub open spec fn keyboard_direction(vel: Vec2, up: bool, left: bool, right: bool) -> Vec2 {
    if vel.is_zero_spec() {
        Vec2 { x: DIRECTION_UNIT, y: 0 }
    } else {
        let norm = scale_spec(vel, DIRECTION_UNIT as int);
        if left {
            Vec2 { x: (-norm.y) as i64, y: norm.x }
        } else if right {
            Vec2 { x: norm.y, y: (-norm.x) as i64 }
        } else if up {
            norm
        } else {
            Vec2 { x: 0, y: 0 }
        }
    }
}

/// Up and down keys respectively speed up and slow down the acceleration.
pub open spec fn keyboard_speed(up: bool, down: bool) -> int {
    if up {
        2 * conf::predator::MAX_SPEED
    } else if down {
        conf::predator::MAX_SPEED / 2
    } else {
        conf::predator::MAX_SPEED as int
    }
}

/// The velocity a keyboard-controlled predator is left with: the chosen
/// direction scaled by the distance this tick's speed covers, added to the
/// velocity, and the whole renormalized to max speed; with no acceleration
/// the velocity is untouched.
pub open spec fn keyboard_vel_spec(
    vel: Vec2,
    up: bool,
    down: bool,
    left: bool,
    right: bool,
    dt_ms: int,
) -> Vec2 {
    let dir = keyboard_direction(vel, up, left, right);
    let travel = div_tz(keyboard_speed(up, down) * dt_ms, 1000);
    let acc = Vec2 {
        x: div_tz(dir.x * travel, DIRECTION_UNIT as int) as i64,
        y: div_tz(dir.y * travel, DIRECTION_UNIT as int) as i64,
    };
    if acc.is_zero_spec() {
        vel
    } else {
        scale_spec(
            Vec2 { x: (vel.x + acc.x) as i64, y: (vel.y + acc.y) as i64 },
            conf::predator::MAX_SPEED as int,
        )
    }
}

/// Moves a predator which is controlled by the keyboard. Left and right
/// rotate the entity - holding one indefinitely makes it go in circles - and
/// whenever some acceleration was picked up, the velocity is renormalized to
/// max speed, so a driven predator always moves at full tilt.
pub fn keyboard_movement(
    vel: &mut Velocity,
    up: bool,
    down: bool,
    left: bool,
    right: bool,
    dt_ms: u64,
)
    requires
        old(vel).0.mag_sq() <= conf::predator::MAX_SPEED * conf::predator::MAX_SPEED,
        dt_ms <= conf::MAX_TICK_MS,
    ensures
        final(vel).0 == keyboard_vel_spec(old(vel).0, up, down, left, right, dt_ms as int),
        final(vel).0.mag_sq() <= conf::predator::MAX_SPEED * conf::predator::MAX_SPEED,
{
    let v = vel.0;
    proof {
        assert(v.x * v.x <= conf::predator::MAX_SPEED * conf::predator::MAX_SPEED && v.y * v.y
            <= conf::predator::MAX_SPEED * conf::predator::MAX_SPEED) by (nonlinear_arith)
            requires
                v.x * v.x + v.y * v.y <= conf::predator::MAX_SPEED * conf::predator::MAX_SPEED,
        ;
        crate::math::lemma_abs_le_of_sq(v.x as int, conf::predator::MAX_SPEED as int);
        crate::math::lemma_abs_le_of_sq(v.y as int, conf::predator::MAX_SPEED as int);
    }
    // Left and right keys rotate the entity; if the velocity was zero,
    // normalizing would give us gibberish, so a default direction is used.
    let dir: Vec2 = if v.is_zero() {
        Vec2 { x: DIRECTION_UNIT, y: 0 }
    } else {
        let norm = scale_to_len(v, DIRECTION_UNIT);
        if left {
            Vec2 { x: -norm.y, y: norm.x }
        } else if right {
            norm.perpendicular()
        } else if up {
            norm
        } else {
            Vec2 { x: 0, y: 0 }
        }
    };
    let speed: i64 = if up {
        2 * conf::predator::MAX_SPEED
    } else if down {
        conf::predator::MAX_SPEED / 2
    } else {
        conf::predator::MAX_SPEED
    };
    proof {
        assert(-1_200_000 * 1000 <= speed * (dt_ms as int) <= 1_200_000 * 1000)
            by (nonlinear_arith)
            requires
                0 <= speed <= 600_000,
                0 <= dt_ms <= 2_000,
        ;
        crate::math::lemma_div_tz_bounded(speed * (dt_ms as int), 1000, 1_200_000);
    }
    let travel = div_towards_zero(speed * (dt_ms as i64), 1000);
    proof {
        assert(-1_200_000 * DIRECTION_UNIT <= dir.x * travel <= 1_200_000 * DIRECTION_UNIT
            && -1_200_000 * DIRECTION_UNIT <= dir.y * travel <= 1_200_000 * DIRECTION_UNIT)
            by (nonlinear_arith)
            requires
                -DIRECTION_UNIT <= dir.x <= DIRECTION_UNIT,
                -DIRECTION_UNIT <= dir.y <= DIRECTION_UNIT,
                -1_200_000 <= travel <= 1_200_000,
        ;
        crate::math::lemma_div_tz_bounded(dir.x * travel, DIRECTION_UNIT as int, 1_200_000);
        crate::math::lemma_div_tz_bounded(dir.y * travel, DIRECTION_UNIT as int, 1_200_000);
    }
    let acc = Vec2 {
        x: div_towards_zero(dir.x * travel, DIRECTION_UNIT),
        y: div_towards_zero(dir.y * travel, DIRECTION_UNIT),
    };
    if !acc.is_zero() {
        // And adds the change in speed to the entity.
        vel.0 = scale_to_len(v.add(acc), conf::predator::MAX_SPEED);
    }
}

/// Resets the state which is at the end of each tick sent to the actor which
/// controls the predator. This MUST be called in the beginning of each tick
/// before any world update happens: both transient world-view lists are
/// cleared exactly once per tick, and never survive a tick boundary.
pub fn reset_world_view(predators: &mut Vec<PredatorAgent>)
    ensures
        final(predators)@.len() == old(predators)@.len(),
        forall|k: int|
            0 <= k < old(predators)@.len() ==> {
                &&& final(predators)@[k].predator.nearby_prey@ == Seq::<Vec2>::empty()
                &&& final(predators)@[k].predator.nearby_predators@ == Seq::<Vec2>::empty()
                &&& final(predators)@[k].predator.score == old(predators)@[k].predator.score
                &&& final(predators)@[k].pos == old(predators)@[k].pos
            },
{
    let n = predators.len();
    let mut i: usize = 0;
    while i < n
        invariant
            n == predators@.len() == old(predators)@.len(),
            0 <= i <= n,
            forall|k: int|
                i <= k < n ==> predators@[k] == old(predators)@[k],
            forall|k: int|
                0 <= k < i ==> {
                    &&& predators@[k].predator.nearby_prey@ == Seq::<Vec2>::empty()
                    &&& predators@[k].predator.nearby_predators@ == Seq::<Vec2>::empty()
                    &&& predators@[k].predator.score == old(predators)@[k].predator.score
                    &&& predators@[k].pos == old(predators)@[k].pos
                },
        decreases n - i,
    {
        let entry = &mut predators[i];
        entry.predator.nearby_prey.clear();
        entry.predator.nearby_predators.clear();
        i = i + 1;
    }
}

/// If the user presses "space" - and the key-press delay lets it through -
/// the camera focus moves to a different predator: with no focus yet, to
/// the predator with the smallest id; otherwise to the one whose id follows
/// the focused id in sorted order, or to the largest id when none follows.
/// (Sorting the ids and stepping to the focused id's insertion point
/// would select the same predator; picking the successor directly needs
/// no sort.)
pub fn change_camera_focus(
    timer: &mut KeyPressDelay,
    dt_ms: u64,
    space_pressed: bool,
    focused: Option<u64>,
    predators: &Vec<u64>,
) -> (r: Option<u64>)
    requires
        old(timer).wf(),
    ensures
        final(timer).wf(),
        timer_tick_spec(
            old(timer).elapsed_ms as int,
            dt_ms as int,
            crate::resources::KEY_PRESS_DELAY_MS as int,
            final(timer).elapsed_ms as int,
            final(timer).finished,
        ),
        (!final(timer).finished || !space_pressed || predators@.len() == 0) ==> r == focused,
        (final(timer).finished && space_pressed && predators@.len() > 0) ==> match focused {
            None => {
                &&& r matches Some(x) && predators@.contains(x) && forall|k: int|
                    0 <= k < predators@.len() ==> x <= #[trigger] predators@[k]
            },
            Some(f) => {
                if exists|k: int| 0 <= k < predators@.len() && #[trigger] predators@[k] > f {
                    &&& r matches Some(x) && predators@.contains(x) && x > f && forall|k: int|
                        0 <= k < predators@.len() && #[trigger] predators@[k] > f ==> x
                            <= predators@[k]
                } else {
                    &&& r matches Some(x) && predators@.contains(x) && forall|k: int|
                        0 <= k < predators@.len() ==> #[trigger] predators@[k] <= x
                }
            },
        },
{
    timer.tick(dt_ms);
    // Only switch focus if space is pressed and the delay has run out.
    if !timer.is_finished() || !space_pressed {
        return focused;
    }
    let n = predators.len();
    // If there are no other predators we cannot focus anyone.
    if n == 0 {
        return focused;
    }
    match focused {
        None => {
            // If no predator is focused yet, focus the one with the
            // smallest id.
            let mut best = predators[0];
            let ghost mut bi: int = 0;
            let mut i: usize = 1;
            while i < n
                invariant
                    n == predators@.len(),
                    0 < i <= n,
                    0 <= bi < n,
                    best == predators@[bi],
                    forall|k: int| 0 <= k < i ==> best <= #[trigger] predators@[k],
                decreases n - i,
            {
                let candidate = predators[i];
                if candidate < best {
                    best = candidate;
                    proof {
                        bi = i as int;
                    }
                }
                i = i + 1;
            }
            proof {
                assert(predators@.contains(best)) by {
                    assert(predators@[bi] == best);
                }
            }
            Some(best)
        },
        Some(f) => {
            // Focus the predator whose id follows the focused one; if the
            // focused id is already the largest, focus the largest id.
            let mut next: Option<u64> = None;
            let mut largest = predators[0];
            let ghost mut li: int = 0;
            let ghost mut ni: int = 0;
            let mut i: usize = 0;
            while i < n
                invariant
                    n == predators@.len(),
                    0 <= i <= n,
                    0 <= li < n,
                    largest == predators@[li],
                    forall|k: int| 0 <= k < i ==> #[trigger] predators@[k] <= largest,
                    next matches Some(b) ==> 0 <= ni < n && b == predators@[ni] && b > f
                        && forall|k: int|
                        0 <= k < i && #[trigger] predators@[k] > f ==> b <= predators@[k],
                    next is None ==> forall|k: int| 0 <= k < i ==> !(#[trigger] predators@[k] > f),
                decreases n - i,
            {
                let candidate = predators[i];
                if candidate > largest {
                    largest = candidate;
                    proof {
                        li = i as int;
                    }
                }
                if candidate > f {
                    match next {
                        None => {
                            next = Some(candidate);
                            proof {
                                ni = i as int;
                            }
                        },
                        Some(b) => {
                            if candidate < b {
                                next = Some(candidate);
                                proof {
                                    ni = i as int;
                                }
                            }
                        },
                    }
                }
                i = i + 1;
            }
            match next {
                Some(b) => {
                    proof {
                        assert(predators@.contains(b)) by {
                            assert(predators@[ni] == b);
                        }
                    }
                    Some(b)
                },
                None => {
                    proof {
                        assert(predators@.contains(largest)) by {
                            assert(predators@[li] == largest);
                        }
                    }
                    Some(largest)
                },
            }
        },
    }
}

} // verus!
