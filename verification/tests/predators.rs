use prey_predators::components::Velocity;
use prey_predators::entities::predator::{
    change_camera_focus, find_nearby_predators, init, keyboard_movement, reset_world_view,
    Predator,
};
use prey_predators::entities::PredatorAgent;
use prey_predators::geometry::Vec2;
use prey_predators::resources::KeyPressDelay;

fn predator_at(x: i64, y: i64) -> PredatorAgent {
    PredatorAgent {
        predator: Predator::new(),
        pos: Vec2 { x, y },
    }
}

#[test]
fn world_view_accumulates_and_resets() {
    let mut p = Predator::new();
    assert_eq!(p.score, 0);
    p.spot_prey(Vec2 { x: 1, y: 2 });
    p.spot_prey(Vec2 { x: 3, y: 4 });
    p.spot_predator(Vec2 { x: 5, y: 6 });
    let mut batch = vec![Vec2 { x: 7, y: 8 }, Vec2 { x: 9, y: 10 }];
    p.spot_predators(&mut batch);
    assert!(batch.is_empty());
    assert_eq!(p.nearby_prey, vec![Vec2 { x: 1, y: 2 }, Vec2 { x: 3, y: 4 }]);
    assert_eq!(
        p.nearby_predators,
        vec![Vec2 { x: 5, y: 6 }, Vec2 { x: 7, y: 8 }, Vec2 { x: 9, y: 10 }]
    );
    p.score();
    p.score();
    assert_eq!(p.score, 2);
    let mut row = vec![PredatorAgent { predator: p, pos: Vec2 { x: 0, y: 0 } }];
    reset_world_view(&mut row);
    assert!(row[0].predator.nearby_prey.is_empty());
    assert!(row[0].predator.nearby_predators.is_empty());
    assert_eq!(row[0].predator.score, 2);
}

#[test]
fn cooperative_sighting_is_symmetric() {
    // Two predators 50 px apart (view radius 250 px) record each other
    // exactly once; a third far away records nothing.
    let mut row = vec![
        predator_at(100_000, 100_000),
        predator_at(150_000, 100_000),
        predator_at(900_000, 900_000),
    ];
    find_nearby_predators(&mut row);
    assert_eq!(
        row[0].predator.nearby_predators,
        vec![Vec2 { x: 150_000, y: 100_000 }]
    );
    assert_eq!(
        row[1].predator.nearby_predators,
        vec![Vec2 { x: 100_000, y: 100_000 }]
    );
    assert!(row[2].predator.nearby_predators.is_empty());
    // Sighting leaves scores and prey lists alone.
    assert_eq!(row[0].predator.score, 0);
    assert!(row[0].predator.nearby_prey.is_empty());
}

#[test]
fn sighting_tolerates_an_empty_or_lone_row() {
    let mut empty: Vec<PredatorAgent> = Vec::new();
    find_nearby_predators(&mut empty);
    let mut lone = vec![predator_at(100_000, 100_000)];
    find_nearby_predators(&mut lone);
    assert!(lone[0].predator.nearby_predators.is_empty());
}

#[test]
fn init_spawns_a_fresh_predator() {
    let (agent, vel) = init();
    assert_eq!(agent.predator.score, 0);
    assert!(agent.predator.nearby_prey.is_empty());
    assert!(0 <= agent.pos.x && agent.pos.x < prey_predators::conf::MAP_SIZE);
    assert!(0 <= agent.pos.y && agent.pos.y < prey_predators::conf::MAP_SIZE);
    assert_eq!(vel.0, Vec2 { x: 0, y: 0 });
}

#[test]
fn keyboard_forward_from_rest() {
    // From rest, holding "up" accelerates along +x and renormalizes the
    // velocity to exactly max speed.
    let mut vel = Velocity(Vec2 { x: 0, y: 0 });
    keyboard_movement(&mut vel, true, false, false, false, 1_000);
    assert_eq!(vel.0, Vec2 { x: 300_000, y: 0 });
}

#[test]
fn keyboard_right_turns_clockwise() {
    let mut vel = Velocity(Vec2 { x: 300_000, y: 0 });
    keyboard_movement(&mut vel, false, false, false, true, 500);
    // The turn bends the heading toward -y while keeping full speed.
    assert!(vel.0.x > 0 && vel.0.y < 0);
    let mag_sq = vel.0.x * vel.0.x + vel.0.y * vel.0.y;
    assert!(mag_sq <= 300_000i64 * 300_000);
    assert!(mag_sq >= 300_000i64 * 300_000 - 4 * 300_000 - 128);
}

#[test]
fn keyboard_idle_changes_nothing() {
    let mut vel = Velocity(Vec2 { x: 200_000, y: 0 });
    keyboard_movement(&mut vel, false, false, false, false, 500);
    assert_eq!(vel.0, Vec2 { x: 200_000, y: 0 });
}

#[test]
fn camera_focus_cycles_through_predators() {
    // The delay timer lets the first press through after 250 ms.
    let mut timer = KeyPressDelay::default();
    let ids = vec![5u64, 2, 9];
    // Too early: nothing happens.
    assert_eq!(change_camera_focus(&mut timer, 100, true, None, &ids), None);
    // Fired with no focus yet: the smallest id gets the focus.
    assert_eq!(
        change_camera_focus(&mut timer, 200, true, None, &ids),
        Some(2)
    );
    // From 2 the focus moves to the next larger id.
    let mut timer = KeyPressDelay::default();
    assert_eq!(
        change_camera_focus(&mut timer, 250, true, Some(2), &ids),
        Some(5)
    );
    // Past the largest id the focus lands on the largest.
    let mut timer = KeyPressDelay::default();
    assert_eq!(
        change_camera_focus(&mut timer, 250, true, Some(9), &vec![5u64, 2]),
        Some(5)
    );
    // Without the key press the focus stays.
    let mut timer = KeyPressDelay::default();
    assert_eq!(
        change_camera_focus(&mut timer, 250, false, Some(2), &ids),
        Some(2)
    );
    // With no other predators there is nobody to focus.
    let mut timer = KeyPressDelay::default();
    let empty: Vec<u64> = Vec::new();
    assert_eq!(
        change_camera_focus(&mut timer, 250, true, Some(2), &empty),
        Some(2)
    );
}
