//! Whole-tick scenarios: steering rules, suppression, wrapping, speed
//! clamping, stagnation and determinism.

use boids::boid::{Boid, EdgeDistances};
use boids::flock::Flock;
use boids::params::{RuleKind, SimulationParameters};
use boids::vec2::Vec2;

fn still_boid(id: i64, x: i64, y: i64) -> Boid {
    Boid {
        id,
        x,
        y,
        velocity: Vec2 { x: 0, y: 0 },
        cohesion: Vec2 { x: 0, y: 0 },
        separation: Vec2 { x: 0, y: 0 },
        alignment: Vec2 { x: 0, y: 0 },
        com: Vec2 { x: 0, y: 0 },
        steer_away: Vec2 { x: 0, y: 0 },
        alignment_vector: Vec2 { x: 0, y: 0 },
        distance_from_edges: EdgeDistances { top: 0, right: 0, bottom: 0, left: 0 },
        angle: 0,
        unchanged_angle: 0,
    }
}

fn quiet_params() -> SimulationParameters {
    let mut p = SimulationParameters::new();
    p.weight_cohesion = 0;
    p.weight_separation = 0;
    p.weight_alignment = 0;
    p.radius_cohesion = 0;
    p.radius_separation = 0;
    p.radius_alignment = 0;
    p
}

#[test]
fn cohesion_pulls_three_boids_together() {
    let mut p = quiet_params();
    p.radius_cohesion = 25_000;
    p.weight_cohesion = 1000;
    let mut f = Flock {
        boids: vec![
            still_boid(0, 0, 0),
            still_boid(1, 10_000, 0),
            still_boid(2, 20_000, 0),
        ],
        params: p,
        debug: false,
    };
    f.update();
    // Leftmost boid: the neighbor centroid is (15, 0); it steers right.
    assert_eq!(f.boids[0].com, Vec2 { x: 15_000, y: 0 });
    assert_eq!(f.boids[0].cohesion, Vec2 { x: 1000, y: 0 });
    assert_eq!(f.boids[0].velocity, Vec2 { x: 1000, y: 0 });
    assert_eq!(f.boids[0].x, 1000);
    // Middle boid: the centroid coincides with its own position, so the
    // zero-norm guard yields the zero vector.
    assert_eq!(f.boids[1].com, Vec2 { x: 10_000, y: 0 });
    assert_eq!(f.boids[1].cohesion, Vec2 { x: 0, y: 0 });
    assert_eq!(f.boids[1].velocity, Vec2 { x: 0, y: 0 });
    // Rightmost boid steers left.
    assert_eq!(f.boids[2].cohesion, Vec2 { x: -1000, y: 0 });
    assert_eq!(f.boids[2].velocity, Vec2 { x: -1000, y: 0 });
    assert_eq!(f.boids[2].x, 19_000);
}

#[test]
fn cohesion_applies_to_both_velocity_components() {
    let mut p = quiet_params();
    p.radius_cohesion = 30_000;
    p.weight_cohesion = 1000;
    let mut f = Flock {
        boids: vec![
            still_boid(0, 0, 0),
            still_boid(1, 10_000, 10_000),
            still_boid(2, 20_000, 20_000),
        ],
        params: p,
        debug: false,
    };
    f.update();
    assert_eq!(f.boids[0].com, Vec2 { x: 15_000, y: 15_000 });
    assert_eq!(f.boids[0].cohesion, Vec2 { x: 707, y: 707 });
    assert_eq!(f.boids[0].velocity, Vec2 { x: 707, y: 707 });
}

#[test]
fn two_boids_with_one_neighbor_each_are_suppressed() {
    // Two boids at (0,0) and (10,0) inside a 20-unit cohesion radius: each
    // sees exactly one neighbor, and a rule acts only beyond one neighbor,
    // so both cohesion vectors stay zero and no velocity is gained.
    let mut p = quiet_params();
    p.radius_cohesion = 20_000;
    p.weight_cohesion = 1000;
    let mut f = Flock {
        boids: vec![still_boid(0, 0, 0), still_boid(1, 10_000, 0)],
        params: p,
        debug: false,
    };
    f.update();
    assert_eq!(f.boids[0].com, Vec2 { x: 10_000, y: 0 });
    assert_eq!(f.boids[0].cohesion, Vec2 { x: 0, y: 0 });
    assert_eq!(f.boids[0].velocity, Vec2 { x: 0, y: 0 });
    assert_eq!(f.boids[1].cohesion, Vec2 { x: 0, y: 0 });
    assert_eq!(f.boids[1].velocity, Vec2 { x: 0, y: 0 });
}

#[test]
fn lone_boid_keeps_its_velocity_and_zero_rule_vectors() {
    let mut b = still_boid(0, 100_000, 200_000);
    b.velocity = Vec2 { x: 2083, y: 0 };
    let mut f = Flock { boids: vec![b], params: SimulationParameters::new(), debug: false };
    f.update();
    assert_eq!(f.boids[0].cohesion, Vec2 { x: 0, y: 0 });
    assert_eq!(f.boids[0].separation, Vec2 { x: 0, y: 0 });
    assert_eq!(f.boids[0].alignment, Vec2 { x: 0, y: 0 });
    assert_eq!(f.boids[0].velocity, Vec2 { x: 2083, y: 0 });
    assert_eq!(f.boids[0].x, 102_083);
    assert_eq!(f.boids[0].y, 200_000);
    assert_eq!(f.boids[0].distance_from_edges, EdgeDistances {
        top: 200_000,
        right: 1_600_000,
        bottom: 600_000,
        left: 100_000,
    });
}

#[test]
fn separation_y_component_uses_alignment_weight() {
    // The velocity blend subtracts the separation vector scaled by the
    // separation weight on x but by the alignment weight on y — a
    // deliberate asymmetry of the simulation, pinned here on purpose.
    let mut p = quiet_params();
    p.radius_separation = 25_000;
    p.weight_separation = 1000;
    p.weight_alignment = 500;
    let mut f = Flock {
        boids: vec![
            still_boid(0, 0, 0),
            still_boid(1, 10_000, 0),
            still_boid(2, 0, 10_000),
        ],
        params: p,
        debug: false,
    };
    f.update();
    assert_eq!(f.boids[0].steer_away, Vec2 { x: 5_000, y: 5_000 });
    assert_eq!(f.boids[0].separation, Vec2 { x: 707, y: 707 });
    assert_eq!(f.boids[0].velocity, Vec2 { x: -707, y: -353 });
}

#[test]
fn boundary_wrap_resets_to_the_opposite_edge() {
    let mut b = still_boid(0, 1_700_001, -1);
    b.wrap_around();
    assert_eq!(b.x, 0);
    assert_eq!(b.y, 800_000);
    let mut c = still_boid(1, -1, 800_001);
    c.wrap_around();
    assert_eq!(c.x, 1_700_000);
    assert_eq!(c.y, 0);
    let mut d = still_boid(2, 5, 7);
    d.wrap_around();
    assert_eq!(d.x, 5);
    assert_eq!(d.y, 7);
}

#[test]
fn a_tick_wraps_before_it_moves() {
    let mut b = still_boid(0, 1_701_000, 400_000);
    b.velocity = Vec2 { x: 0, y: 0 };
    let mut f = Flock { boids: vec![b], params: quiet_params(), debug: false };
    f.update();
    assert_eq!(f.boids[0].x, 0);
}

#[test]
fn neighbor_counts_are_symmetric() {
    let a = still_boid(0, 0, 0);
    let b = still_boid(1, 10_000, 0);
    let v = vec![a, b];
    assert_eq!(v[0].get_nb_neighbors(&v, 20_000), 1);
    assert_eq!(v[1].get_nb_neighbors(&v, 20_000), 1);
}

#[test]
fn the_radius_boundary_itself_is_excluded() {
    // Distance exactly 10 units, radius exactly 10 units: the test is
    // strict, so neither counts the other.
    let a = still_boid(0, 0, 0);
    let b = still_boid(1, 10_000, 0);
    let v = vec![a, b];
    assert_eq!(v[0].get_nb_neighbors(&v, 10_000), 0);
    assert_eq!(v[1].get_nb_neighbors(&v, 10_000), 0);
}

#[test]
fn speed_clamp_rescales_exactly() {
    let mut b = still_boid(0, 0, 0);
    b.velocity = Vec2 { x: 30_000, y: 40_000 };
    b.enforce_max_speed();
    assert_eq!(b.velocity, Vec2 { x: 6_000, y: 8_000 });
}

#[test]
fn speed_clamp_leaves_slow_boids_alone() {
    let mut b = still_boid(0, 0, 0);
    b.velocity = Vec2 { x: 9_999, y: 0 };
    b.enforce_max_speed();
    assert_eq!(b.velocity, Vec2 { x: 9_999, y: 0 });
}

#[test]
fn speed_stays_bounded_through_a_tick() {
    let mut b = still_boid(0, 0, 0);
    b.velocity = Vec2 { x: 500_000, y: -250_000 };
    let mut f = Flock { boids: vec![b], params: SimulationParameters::new(), debug: false };
    f.update();
    let v = f.boids[0].velocity;
    assert!((v.x as i128) * (v.x as i128) + (v.y as i128) * (v.y as i128)
        <= 10_001i128 * 10_001i128);
}

#[test]
fn stagnation_decay_multiplies_by_ninety_nine_percent() {
    let mut b = still_boid(0, 0, 0);
    b.velocity = Vec2 { x: 1000, y: -1000 };
    b.unchanged_angle = 3;
    b.dont_be_idiot();
    assert_eq!(b.velocity, Vec2 { x: 990, y: -990 });
    b.unchanged_angle = 2;
    b.dont_be_idiot();
    assert_eq!(b.velocity, Vec2 { x: 990, y: -990 });
}

#[test]
fn stagnant_boid_counts_idle_ticks_and_stays_still() {
    let mut b = still_boid(0, 50_000, 50_000);
    b.unchanged_angle = 5;
    let mut f = Flock { boids: vec![b], params: SimulationParameters::new(), debug: false };
    f.update();
    assert_eq!(f.boids[0].unchanged_angle, 6);
    assert_eq!(f.boids[0].velocity, Vec2 { x: 0, y: 0 });
    f.update();
    assert_eq!(f.boids[0].unchanged_angle, 7);
    assert_eq!(f.boids[0].velocity, Vec2 { x: 0, y: 0 });
}

#[test]
fn moving_boid_resets_the_idle_counter() {
    let mut b = still_boid(0, 50_000, 50_000);
    b.velocity = Vec2 { x: 100, y: 0 };
    b.unchanged_angle = 7;
    let mut f = Flock { boids: vec![b], params: quiet_params(), debug: false };
    f.update();
    assert_eq!(f.boids[0].unchanged_angle, 0);
}

#[test]
fn identical_snapshots_give_identical_ticks() {
    let mut p = SimulationParameters::new();
    p.weight_cohesion = 450;
    let boids = vec![
        still_boid(0, 3_000, 4_000),
        still_boid(1, 12_000, 9_000),
        still_boid(2, 150_000, 70_000),
    ];
    let mut f1 = Flock { boids: boids.clone(), params: p, debug: false };
    let mut f2 = Flock { boids, params: p, debug: false };
    f1.update();
    f2.update();
    assert_eq!(f1.boids, f2.boids);
    f1.update();
    f2.update();
    assert_eq!(f1.boids, f2.boids);
}

#[test]
fn angle_is_recomputed_from_velocity() {
    let mut b = still_boid(0, 100_000, 100_000);
    b.velocity = Vec2 { x: 0, y: 5_000 };
    b.angle = 9_999;
    let mut f = Flock { boids: vec![b], params: quiet_params(), debug: false };
    f.update();
    assert_eq!(f.boids[0].angle, 1571);
}

#[test]
fn spawned_flock_fills_the_domain() {
    let mut f = Flock::new();
    f.load_boids();
    assert_eq!(f.boids.len(), 30);
    for (i, b) in f.boids.iter().enumerate() {
        assert_eq!(b.id, i as i64);
        assert!(0 <= b.x && b.x <= 1_699_000);
        assert!(0 <= b.y && b.y <= 799_000);
        assert_eq!(b.x % 1000, 0);
        assert_eq!(b.y % 1000, 0);
        assert!(0 <= b.angle && b.angle < 6283);
        assert_eq!(b.unchanged_angle, 0);
    }
}

#[test]
fn reset_respawns_the_same_count() {
    let mut f = Flock::new();
    f.load_boids();
    f.params.increase_value(RuleKind::Cohesion, 100);
    f.reset();
    assert_eq!(f.boids.len(), 30);
    assert_eq!(f.params.radius_cohesion, 171_000);
}

#[test]
fn dormant_edge_repulsion_is_silenced_by_the_zero_cap() {
    let mut b = still_boid(0, 10_000, 10_000);
    b.velocity = Vec2 { x: 1000, y: 0 };
    b.update_distance_from_edges();
    assert_eq!(b.avoid_edges(), 0);
}

#[test]
fn smooth_angle_turns_by_the_quarter_turn_approximation() {
    let mut b = still_boid(0, 0, 0);
    b.velocity = Vec2 { x: 1000, y: 0 };
    b.alignment_vector = Vec2 { x: 0, y: 1000 };
    // The velocity is orthogonal to the alignment target: cosine 0, arccos
    // approximation 1414 milliradians, positive cross product.
    assert_eq!(b.smooth_angle(&Vec2 { x: 0, y: 1000 }), 1414);
    // Aligned target: cosine 1, angle 0.
    b.alignment_vector = Vec2 { x: 1000, y: 0 };
    assert_eq!(b.smooth_angle(&Vec2 { x: 0, y: 1000 }), 0);
    // A stationary boid asks for no turn at all.
    b.velocity = Vec2 { x: 0, y: 0 };
    assert_eq!(b.smooth_angle(&Vec2 { x: 0, y: 1000 }), 0);
}

#[test]
fn smooth_angle_caps_an_opposed_target_at_a_quarter_turn() {
    // The alignment target points opposite the velocity: the cosine is
    // negative, so the angle is capped at a quarter turn (1571
    // milliradians), signed by the cross product with the rule vector.
    let mut b = still_boid(0, 0, 0);
    b.velocity = Vec2 { x: 1000, y: 0 };
    b.alignment_vector = Vec2 { x: -1000, y: 0 };
    assert_eq!(b.smooth_angle(&Vec2 { x: 0, y: 1000 }), 1571);
    assert_eq!(b.smooth_angle(&Vec2 { x: 0, y: -1000 }), -1571);
    // A slightly negative cosine is capped just the same.
    b.alignment_vector = Vec2 { x: -1, y: 0 };
    assert_eq!(b.smooth_angle(&Vec2 { x: 0, y: 1000 }), 1571);
}
