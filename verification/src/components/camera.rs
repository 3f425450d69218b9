//! The camera's own state: where it looks and how far it is zoomed out.
//! Zoom is held in hundredths: 100 is the identity zoom, and one key
//! press changes it by 5 (a twentieth of the identity).

use vstd::prelude::*;

use crate::conf;
use crate::geometry::Vec2;
use crate::math::{div_towards_zero, div_tz};

verus! {

/// Identity zoom (1.00).
pub const SCALE_IDENTITY: i64 = 100;

/// Closest zoom (0.50) reachable with "+".
pub const SCALE_MIN: i64 = 50;

/// Farthest zoom (4.00) reachable with "-".
pub const SCALE_MAX: i64 = 400;

/// Zoom change of one key press (0.05).
pub const SCALE_STEP: i64 = 5;

/// Accesses camera.
#[derive(Clone, Copy)]
pub struct Main;

/// Marks some entity as being focused by the camera.
#[derive(Clone, Copy)]
pub struct Focus;

/// What a key press asks of the zoom level.
#[derive(Clone, Copy, PartialEq, Eq, Structural, Debug)]
pub enum ZoomIntent {
    /// Zoom in on "+".
    Closer,
    /// Zoom out on "-".
    Farther,
    /// Neither key pressed.
    Hold,
}

/// The state of the main camera: its position over the play field and its
/// zoom level in hundredths.
#[derive(Clone, Copy, PartialEq, Eq, Structural, Debug)]
pub struct Camera {
    pub pos: Vec2,
    pub scale: i64,
}

impl Camera {
    /// The zoom level stays within its configured band.
    pub open spec fn wf(self) -> bool {
        SCALE_MIN <= self.scale <= SCALE_MAX
    }
}

/// A new zoomed-out camera, looking at the middle of the map.
pub fn new() -> (r: Camera)
    ensures
        r.pos == (Vec2 { x: (conf::MAP_SIZE / 2) as i64, y: (conf::MAP_SIZE / 2) as i64 }),
        r.scale == SCALE_IDENTITY,
        r.wf(),
{
    Camera { pos: Vec2 { x: conf::MAP_SIZE / 2, y: conf::MAP_SIZE / 2 }, scale: SCALE_IDENTITY }
}

/// Zooms with "+" and "-" keys: one step per press, clamped to the band.
pub fn zoom(camera: &mut Camera, intent: ZoomIntent)
    requires
        old(camera).wf(),
    ensures
        final(camera).wf(),
        final(camera).pos == old(camera).pos,
        intent == ZoomIntent::Closer ==> final(camera).scale == if old(camera).scale - SCALE_STEP
            > SCALE_MIN {
            old(camera).scale - SCALE_STEP
        } else {
            SCALE_MIN as int
        },
        intent == ZoomIntent::Farther ==> final(camera).scale == if old(camera).scale + SCALE_STEP
            < SCALE_MAX {
            old(camera).scale + SCALE_STEP
        } else {
            SCALE_MAX as int
        },
        intent == ZoomIntent::Hold ==> final(camera).scale == old(camera).scale,
{
    match intent {
        ZoomIntent::Closer => {
            let lowered = camera.scale - SCALE_STEP;
            camera.scale = if lowered > SCALE_MIN {
                lowered
            } else {
                SCALE_MIN
            };
        }
        ZoomIntent::Farther => {
            let raised = camera.scale + SCALE_STEP;
            camera.scale = if raised < SCALE_MAX {
                raised
            } else {
                SCALE_MAX
            };
        }
        ZoomIntent::Hold => {}
    }
}

/// Camera follows around the entity which is marked as focused: to get a
/// smooth transition it closes a `dt/1000` fraction of the gap each tick.
pub fn follow(camera: &mut Camera, target: Vec2, dt_ms: u64)
    requires
        old(camera).pos.in_map(),
        target.in_map(),
        dt_ms <= conf::MAX_TICK_MS,
    ensures
        final(camera).scale == old(camera).scale,
        final(camera).pos.x == old(camera).pos.x - div_tz(
            (old(camera).pos.x - target.x) * dt_ms,
            1000,
        ),
        final(camera).pos.y == old(camera).pos.y - div_tz(
            (old(camera).pos.y - target.y) * dt_ms,
            1000,
        ),
{
    let dx = camera.pos.x - target.x;
    let dy = camera.pos.y - target.y;
    proof {
        assert(-conf::MAP_SIZE * conf::MAX_TICK_MS <= dx * (dt_ms as int) <= conf::MAP_SIZE
            * conf::MAX_TICK_MS && -conf::MAP_SIZE * conf::MAX_TICK_MS <= dy * (dt_ms as int)
            <= conf::MAP_SIZE * conf::MAX_TICK_MS) by (nonlinear_arith)
            requires
                -conf::MAP_SIZE <= dx <= conf::MAP_SIZE,
                -conf::MAP_SIZE <= dy <= conf::MAP_SIZE,
                0 <= dt_ms <= conf::MAX_TICK_MS,
        ;
    }
    let change_x = div_towards_zero(dx * (dt_ms as i64), 1000);
    let change_y = div_towards_zero(dy * (dt_ms as i64), 1000);
    camera.pos = Vec2 { x: camera.pos.x - change_x, y: camera.pos.y - change_y };
}

} // verus!
