use prey_predators::components::Velocity;
use prey_predators::conf;
use prey_predators::entities::predator::Predator;
use prey_predators::entities::{interact, nudge, PredatorAgent, PreyAgent};
use prey_predators::geometry::Vec2;

fn prey_at(x: i64, y: i64, vx: i64, vy: i64) -> PreyAgent {
    PreyAgent {
        pos: Vec2 { x, y },
        vel: Velocity(Vec2 { x: vx, y: vy }),
    }
}

fn predator_at(x: i64, y: i64) -> PredatorAgent {
    PredatorAgent {
        predator: Predator::new(),
        pos: Vec2 { x, y },
    }
}

#[test]
fn wraparound_past_the_right_edge() {
    // An agent at MAP_SIZE - 5 px moving 10 px/s for one second re-enters
    // at x = 5 px; the y axis is untouched.
    let mut pos = Vec2 {
        x: conf::MAP_SIZE - 5_000,
        y: 50_000,
    };
    let mut vel = Velocity(Vec2 { x: 10_000, y: 0 });
    nudge(&mut pos, &mut vel, 1_000, false);
    assert_eq!(pos, Vec2 { x: 5_000, y: 50_000 });
    assert_eq!(vel.0, Vec2 { x: 10_000, y: 0 });
}

#[test]
fn wraparound_past_the_left_edge() {
    let mut pos = Vec2 { x: 5_000, y: 50_000 };
    let mut vel = Velocity(Vec2 { x: -10_000, y: 0 });
    nudge(&mut pos, &mut vel, 1_000, false);
    assert_eq!(pos, Vec2 { x: 995_000, y: 50_000 });
}

#[test]
fn nudge_applies_friction_to_predators() {
    let mut pos = Vec2 {
        x: 500_000,
        y: 500_000,
    };
    let mut vel = Velocity(Vec2 { x: 300_000, y: 0 });
    nudge(&mut pos, &mut vel, 1_000, true);
    assert_eq!(pos, Vec2 { x: 800_000, y: 500_000 });
    // One second of friction takes a fifth of the speed away.
    assert_eq!(vel.0, Vec2 { x: 240_000, y: 0 });
}

#[test]
fn nudge_keeps_a_still_agent_still() {
    let mut pos = Vec2 {
        x: 500_000,
        y: 500_000,
    };
    let mut vel = Velocity(Vec2 { x: 0, y: 0 });
    nudge(&mut pos, &mut vel, 1_000, true);
    assert_eq!(pos, Vec2 { x: 500_000, y: 500_000 });
    assert_eq!(vel.0, Vec2 { x: 0, y: 0 });
}

#[test]
fn predator_in_strike_range_scores_and_prey_respawns() {
    // Distance 10 px < STRIKE_RADIUS (30 px): the prey is eaten.
    let mut prey = vec![prey_at(510_000, 500_000, 0, 0)];
    let mut predators = vec![predator_at(500_000, 500_000)];
    interact(&mut prey, &mut predators, 16);
    assert_eq!(predators[0].predator.score, 1);
    // The eaten prey is not recorded as seen.
    assert_eq!(predators[0].predator.nearby_prey.len(), 0);
    // The prey respawned somewhere on the map with its velocity kept.
    assert!(0 <= prey[0].pos.x && prey[0].pos.x < conf::MAP_SIZE);
    assert!(0 <= prey[0].pos.y && prey[0].pos.y < conf::MAP_SIZE);
    assert_eq!(prey[0].vel.0, Vec2 { x: 0, y: 0 });
}

#[test]
fn seen_prey_flees_and_is_spotted() {
    // Distance 100 px: within everyone's view, far outside the strike
    // radius.
    let mut prey = vec![prey_at(600_000, 500_000, 0, 0)];
    let mut predators = vec![predator_at(500_000, 500_000)];
    interact(&mut prey, &mut predators, 1_000);
    assert_eq!(predators[0].predator.score, 0);
    assert_eq!(
        predators[0].predator.nearby_prey,
        vec![Vec2 {
            x: 600_000,
            y: 500_000
        }]
    );
    // The escape force pushes the prey straight away from the predator.
    assert_eq!(prey[0].pos, Vec2 { x: 600_000, y: 500_000 });
    assert_eq!(prey[0].vel.0, Vec2 { x: 250_000, y: 0 });
}

#[test]
fn eaten_beats_sighted() {
    // Predator A is in strike range, predator B only sees the prey: A
    // scores, B does not record the prey, and no escape force is applied.
    let mut prey = vec![prey_at(510_000, 500_000, 0, 0)];
    let mut predators = vec![
        predator_at(500_000, 500_000),
        predator_at(700_000, 500_000),
    ];
    interact(&mut prey, &mut predators, 1_000);
    assert_eq!(predators[0].predator.score, 1);
    assert_eq!(predators[1].predator.score, 0);
    assert_eq!(predators[1].predator.nearby_prey.len(), 0);
    assert_eq!(prey[0].vel.0, Vec2 { x: 0, y: 0 });
}

#[test]
fn prey_outside_its_own_view_is_spotted_but_does_not_flee() {
    // Distance 200 px: inside the predator's view radius (250 px) but
    // outside the prey's own (150 px), so the predator records the prey
    // while the prey stays unaware.
    let mut prey = vec![prey_at(700_000, 500_000, 120_000, 0)];
    let mut predators = vec![predator_at(500_000, 500_000)];
    interact(&mut prey, &mut predators, 1_000);
    assert_eq!(
        predators[0].predator.nearby_prey,
        vec![Vec2 {
            x: 700_000,
            y: 500_000
        }]
    );
    assert_eq!(prey[0].vel.0, Vec2 { x: 120_000, y: 0 });
}

#[test]
fn spotted_prey_is_recorded_in_index_order() {
    let mut prey = vec![
        prey_at(600_000, 500_000, 0, 0),
        prey_at(500_000, 600_000, 0, 0),
    ];
    let mut predators = vec![predator_at(500_000, 500_000)];
    interact(&mut prey, &mut predators, 16);
    assert_eq!(
        predators[0].predator.nearby_prey,
        vec![
            Vec2 {
                x: 600_000,
                y: 500_000
            },
            Vec2 {
                x: 500_000,
                y: 600_000
            }
        ]
    );
}

#[test]
fn interact_tolerates_empty_worlds() {
    let mut no_prey: Vec<PreyAgent> = Vec::new();
    let mut no_predators: Vec<PredatorAgent> = Vec::new();
    interact(&mut no_prey, &mut no_predators, 16);
    let mut one_prey = vec![prey_at(100_000, 100_000, 0, 0)];
    interact(&mut one_prey, &mut no_predators, 16);
    assert_eq!(one_prey[0].pos, Vec2 { x: 100_000, y: 100_000 });
    let mut one_predator = vec![predator_at(100_000, 100_000)];
    interact(&mut no_prey, &mut one_predator, 16);
    assert_eq!(one_predator[0].predator.score, 0);
}

#[test]
fn far_apart_agents_ignore_each_other() {
    // Distance well over the predator's view radius of 250 px.
    let mut prey = vec![prey_at(100_000, 100_000, 0, 0)];
    let mut predators = vec![predator_at(500_000, 500_000)];
    interact(&mut prey, &mut predators, 16);
    assert_eq!(predators[0].predator.score, 0);
    assert_eq!(predators[0].predator.nearby_prey.len(), 0);
    assert_eq!(prey[0].pos, Vec2 { x: 100_000, y: 100_000 });
    assert_eq!(prey[0].vel.0, Vec2 { x: 0, y: 0 });
}
