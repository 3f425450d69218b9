use prey_predators::components::camera::{follow, new, zoom, Camera, ZoomIntent};
use prey_predators::components::walls;
use prey_predators::components::Velocity;
use prey_predators::geometry::Vec2;
use prey_predators::resources::{FlockUpdateTimer, KeyPressDelay};

#[test]
fn acceleration_integrates_and_clamps() {
    let mut vel = Velocity(Vec2 { x: 0, y: 0 });
    vel.apply_acceleration(Vec2 { x: 250_000, y: 0 }, 1_000, 100_000, 350_000);
    assert_eq!(vel.0, Vec2 { x: 250_000, y: 0 });
    // A second push overshoots the band and is clamped back to max speed.
    vel.apply_acceleration(Vec2 { x: 250_000, y: 0 }, 1_000, 100_000, 350_000);
    assert_eq!(vel.0, Vec2 { x: 350_000, y: 0 });
    // No acceleration on a still agent leaves it still.
    let mut still = Velocity(Vec2 { x: 0, y: 0 });
    still.apply_acceleration(Vec2 { x: 0, y: 0 }, 1_000, 100_000, 350_000);
    assert_eq!(still.0, Vec2 { x: 0, y: 0 });
}

#[test]
fn default_velocity_is_zero() {
    assert_eq!(Velocity::default().0, Vec2 { x: 0, y: 0 });
}

#[test]
fn flock_timer_fires_and_resets() {
    let mut timer = FlockUpdateTimer::default();
    timer.tick(30);
    assert!(!timer.is_finished());
    timer.tick(30);
    assert!(timer.is_finished());
    timer.tick(10);
    assert!(!timer.is_finished());
}

#[test]
fn key_press_delay_fires_every_quarter_second() {
    let mut timer = KeyPressDelay::default();
    timer.tick(249);
    assert!(!timer.is_finished());
    timer.tick(1);
    assert!(timer.is_finished());
}

#[test]
fn camera_starts_over_the_middle() {
    let camera = new();
    assert_eq!(camera.pos, Vec2 { x: 500_000, y: 500_000 });
    assert_eq!(camera.scale, 100);
}

#[test]
fn zoom_steps_and_saturates() {
    let mut camera = new();
    zoom(&mut camera, ZoomIntent::Closer);
    assert_eq!(camera.scale, 95);
    zoom(&mut camera, ZoomIntent::Hold);
    assert_eq!(camera.scale, 95);
    let mut near = Camera { pos: camera.pos, scale: 52 };
    zoom(&mut near, ZoomIntent::Closer);
    assert_eq!(near.scale, 50);
    let mut far = Camera { pos: camera.pos, scale: 398 };
    zoom(&mut far, ZoomIntent::Farther);
    assert_eq!(far.scale, 400);
}

#[test]
fn follow_closes_part_of_the_gap() {
    let mut camera = Camera {
        pos: Vec2 { x: 600_000, y: 500_000 },
        scale: 100,
    };
    follow(
        &mut camera,
        Vec2 { x: 500_000, y: 500_000 },
        500,
    );
    assert_eq!(camera.pos, Vec2 { x: 550_000, y: 500_000 });
}

#[test]
fn walls_surround_the_map() {
    let walls = walls::new();
    assert_eq!(walls.len(), 4);
    assert_eq!(walls[0].center, Vec2 { x: 0, y: 500_000 });
    assert_eq!(walls[0].size, Vec2 { x: 10_000, y: 1_010_000 });
    assert_eq!(walls[1].center, Vec2 { x: 1_000_000, y: 500_000 });
    assert_eq!(walls[2].center, Vec2 { x: 500_000, y: 0 });
    assert_eq!(walls[2].size, Vec2 { x: 1_010_000, y: 10_000 });
    assert_eq!(walls[3].center, Vec2 { x: 500_000, y: 1_000_000 });
}
