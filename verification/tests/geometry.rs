use prey_predators::conf;
use prey_predators::geometry::Vec2;
use prey_predators::math::div_towards_zero;

#[test]
fn vector_basics() {
    let a = Vec2::new(3, 4);
    let b = Vec2::zero();
    assert!(b.is_zero());
    assert!(!a.is_zero());
    assert_eq!(a.add(b), Vec2 { x: 3, y: 4 });
    assert_eq!(a.sub(Vec2 { x: 1, y: 1 }), Vec2 { x: 2, y: 3 });
    assert_eq!(a.perpendicular(), Vec2 { x: 4, y: -3 });
}

#[test]
fn distance_is_floored_euclidean() {
    let a = Vec2 { x: 0, y: 0 };
    let b = Vec2 { x: 30, y: 40 };
    assert_eq!(a.dist_sq_i64(b), 2_500);
    assert_eq!(a.distance2(b), 50);
    // 1^2 + 1^2 = 2, whose square root rounds down to 1.
    assert_eq!(Vec2 { x: 1, y: 1 }.distance2(a), 1);
}

#[test]
fn scale_to_len_hits_the_target_on_an_axis() {
    let v = Vec2 { x: 10_000, y: 0 };
    let r = prey_predators::geometry::scale_to_len(v, 350_000);
    assert_eq!(r, Vec2 { x: 350_000, y: 0 });
    let w = Vec2 { x: 0, y: -6 };
    let r = prey_predators::geometry::scale_to_len(w, 350_000);
    assert_eq!(r, Vec2 { x: 0, y: -350_000 });
}

#[test]
fn scale_to_len_keeps_direction_and_magnitude() {
    // A 3-4-5 triangle rescales exactly.
    let v = Vec2 { x: 3, y: 4 };
    let r = prey_predators::geometry::scale_to_len(v, 100_000);
    assert_eq!(r, Vec2 { x: 60_000, y: 80_000 });
    // The magnitude never exceeds the target.
    let odd = Vec2 { x: 123_457, y: -98_765 };
    let r = prey_predators::geometry::scale_to_len(odd, 250_000);
    let mag_sq = r.x * r.x + r.y * r.y;
    assert!(mag_sq <= 250_000i64 * 250_000);
    assert!(mag_sq >= 250_000i64 * 250_000 - 4 * 250_000 - 128);
    assert!(r.x > 0 && r.y < 0);
}

#[test]
fn clamp_mag_leaves_short_vectors_alone() {
    let v = Vec2 { x: 100, y: -200 };
    assert_eq!(prey_predators::geometry::clamp_mag(v, 1_000), v);
    let long = Vec2 { x: 400_000, y: 0 };
    assert_eq!(
        prey_predators::geometry::clamp_mag(long, 250_000),
        Vec2 { x: 250_000, y: 0 }
    );
}

#[test]
fn random_positions_land_on_the_map() {
    for _ in 0..100 {
        let p = Vec2::random();
        assert!(0 <= p.x && p.x < conf::MAP_SIZE);
        assert!(0 <= p.y && p.y < conf::MAP_SIZE);
    }
}

#[test]
fn division_truncates_toward_zero() {
    assert_eq!(div_towards_zero(7, 2), 3);
    assert_eq!(div_towards_zero(-7, 2), -3);
    assert_eq!(div_towards_zero(0, 5), 0);
}
