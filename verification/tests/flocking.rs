use prey_predators::components::Velocity;
use prey_predators::entities::prey::{
    clamp_speed, flocking_behavior, init, steer_towards, wall_repelling_force,
};
use prey_predators::entities::PreyAgent;
use prey_predators::geometry::Vec2;
use prey_predators::resources::FlockUpdateTimer;

fn prey_at(x: i64, y: i64, vx: i64, vy: i64) -> PreyAgent {
    PreyAgent {
        pos: Vec2 { x, y },
        vel: Velocity(Vec2 { x: vx, y: vy }),
    }
}

#[test]
fn steering_force_is_bounded() {
    // However large the raw force, the steering force caps at 250 px/s.
    let r = steer_towards(Velocity(Vec2 { x: 0, y: 0 }), Vec2 { x: 1_000_000, y: 0 });
    assert_eq!(r, Vec2 { x: 250_000, y: 0 });
    let r = steer_towards(Velocity(Vec2 { x: 0, y: 0 }), Vec2 { x: 3, y: 4 });
    assert_eq!(r, Vec2 { x: 150_000, y: 200_000 });
    assert_eq!(r.x * r.x + r.y * r.y, 250_000i64 * 250_000);
    // A zero desired direction yields a zero force, not a division by zero.
    let r = steer_towards(Velocity(Vec2 { x: 5_000, y: 0 }), Vec2 { x: 0, y: 0 });
    assert_eq!(r, Vec2 { x: 0, y: 0 });
}

#[test]
fn speed_clamp_band() {
    // Zero stays exactly zero.
    assert_eq!(clamp_speed(Vec2 { x: 0, y: 0 }), Vec2 { x: 0, y: 0 });
    // Below MIN_SPEED the speed is raised to it.
    assert_eq!(clamp_speed(Vec2 { x: 50_000, y: 0 }), Vec2 { x: 100_000, y: 0 });
    // Within the band the velocity is kept exactly.
    assert_eq!(
        clamp_speed(Vec2 { x: 150_000, y: 60_000 }),
        Vec2 { x: 150_000, y: 60_000 }
    );
    // Above MAX_SPEED the speed is lowered to it.
    assert_eq!(clamp_speed(Vec2 { x: 400_000, y: 0 }), Vec2 { x: 350_000, y: 0 });
}

#[test]
fn wall_force_pushes_back_onto_the_field() {
    // Well inside: no force.
    assert_eq!(wall_repelling_force(Vec2 { x: 500_000, y: 500_000 }), None);
    // Within a tenth of the map of the left edge: pushed along +x.
    assert_eq!(
        wall_repelling_force(Vec2 { x: 50_000, y: 500_000 }),
        Some(Vec2 { x: 350_000, y: 0 })
    );
    // Near the far corner: pushed away on both axes.
    assert_eq!(
        wall_repelling_force(Vec2 { x: 950_000, y: 950_000 }),
        Some(Vec2 {
            x: -350_000,
            y: -350_000
        })
    );
    // The boundary itself (exactly a tenth in) is not yet "too close".
    assert_eq!(wall_repelling_force(Vec2 { x: 100_000, y: 100_000 }), None);
}

#[test]
fn flocking_update_with_one_flockmate() {
    // A prey with a single flockmate 10 px to its right: alignment and
    // cohesion pull along +x, separation pushes along -x; with the
    // configured weights the net pull is +x, and the speed clamp raises
    // the tiny integrated velocity to MIN_SPEED exactly.
    let mut timer = FlockUpdateTimer::default();
    let mut prey = vec![
        prey_at(100_000, 100_000, 0, 0),
        prey_at(110_000, 100_000, 5_000, 0),
    ];
    flocking_behavior(&mut timer, 50, &mut prey);
    assert!(timer.is_finished());
    assert_eq!(prey[0].pos, Vec2 { x: 100_000, y: 100_000 });
    assert_eq!(prey[0].vel.0, Vec2 { x: 100_000, y: 0 });
    assert_eq!(prey[1].vel.0, Vec2 { x: 100_000, y: 0 });
}

#[test]
fn flocking_is_throttled() {
    // Before the recalculation interval has passed nothing changes.
    let mut timer = FlockUpdateTimer::default();
    let mut prey = vec![
        prey_at(100_000, 100_000, 0, 0),
        prey_at(110_000, 100_000, 5_000, 0),
    ];
    flocking_behavior(&mut timer, 20, &mut prey);
    assert!(!timer.is_finished());
    assert_eq!(prey[0].vel.0, Vec2 { x: 0, y: 0 });
    assert_eq!(prey[1].vel.0, Vec2 { x: 5_000, y: 0 });
    // The next tick crosses the interval and fires.
    flocking_behavior(&mut timer, 30, &mut prey);
    assert!(timer.is_finished());
    assert_eq!(prey[0].vel.0, Vec2 { x: 100_000, y: 0 });
}

#[test]
fn lone_prey_far_from_walls_keeps_its_velocity() {
    let mut timer = FlockUpdateTimer::default();
    let mut prey = vec![prey_at(500_000, 500_000, 120_000, 0)];
    flocking_behavior(&mut timer, 50, &mut prey);
    assert_eq!(prey[0].vel.0, Vec2 { x: 120_000, y: 0 });
}

#[test]
fn lone_prey_near_a_wall_is_pushed_away() {
    let mut timer = FlockUpdateTimer::default();
    let mut prey = vec![prey_at(50_000, 500_000, 0, 0)];
    flocking_behavior(&mut timer, 50, &mut prey);
    // Wall force (+x at max speed) steered from rest, weighted and
    // integrated over 50 ms, then raised to MIN_SPEED.
    assert_eq!(prey[0].vel.0, Vec2 { x: 100_000, y: 0 });
}

#[test]
fn init_scatters_the_configured_count() {
    let prey = init();
    assert_eq!(prey.len(), prey_predators::conf::prey::COUNT);
    for agent in &prey {
        assert!(0 <= agent.pos.x && agent.pos.x < prey_predators::conf::MAP_SIZE);
        assert!(0 <= agent.pos.y && agent.pos.y < prey_predators::conf::MAP_SIZE);
        assert_eq!(agent.vel.0, Vec2 { x: 0, y: 0 });
    }
}
