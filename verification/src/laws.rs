//! The global guarantees of the simulation, stated and proved once over
//! the spec functions that the executable contracts are written against.

use vstd::prelude::*;
use crate::boid::{
    spec_rule_aggregate,
    count_neighbors, dist_sq, in_radius, is_neighbor, lemma_decay_shrinks, lemma_enforce_bounds,
    spec_after_rules, spec_blend, spec_decay, spec_enforce, spec_step, spec_turn,
    spec_update_distance_from_edges, spec_wrap, BoidView,
};
use crate::vec2::{mag_sq, Vec2View};
use crate::params::{RuleKind, SimulationParameters};
use crate::{HEIGHT_MILLI, V_MAX, WIDTH_MILLI};

verus! {

/// Speed bound: whatever state a tick starts from, the velocity it leaves
/// behind has squared magnitude at most `V_MAX` squared — the speed cap
/// plus at most one quantum of rounding.
pub proof fn lemma_speed_bound(b: BoidView, flock: Seq<BoidView>, p: SimulationParameters)
    ensures
        mag_sq(spec_step(b, flock, p).velocity) <= (V_MAX as int) * (V_MAX as int),
{
    let bt = spec_turn(spec_blend(spec_after_rules(b, flock, p), p), p);
    lemma_enforce_bounds(bt.velocity);
    lemma_decay_shrinks(spec_enforce(bt.velocity));
}

/// Boundary wrap: a coordinate beyond the far edge restarts at zero, one
/// below zero restarts at the far edge, and a coordinate inside the domain
/// is untouched.
pub proof fn lemma_boundary_wrap(b: BoidView)
    ensures
        b.x > WIDTH_MILLI ==> spec_wrap(b).x == 0,
        b.x < 0 ==> spec_wrap(b).x == WIDTH_MILLI,
        0 <= b.x <= WIDTH_MILLI ==> spec_wrap(b).x == b.x,
        b.y > HEIGHT_MILLI ==> spec_wrap(b).y == 0,
        b.y < 0 ==> spec_wrap(b).y == HEIGHT_MILLI,
        0 <= b.y <= HEIGHT_MILLI ==> spec_wrap(b).y == b.y,
{
}

/// Neighbor symmetry: the distance test is symmetric, so whenever one boid
/// lies within a radius of another, the converse holds as well.
pub proof fn lemma_neighbor_symmetry(a: BoidView, b: BoidView, radius: int)
    ensures
        dist_sq(a, b) == dist_sq(b, a),
        in_radius(a, b, radius) <==> in_radius(b, a, radius),
        is_neighbor(a, b, radius) <==> is_neighbor(b, a, radius),
{
    assert((b.x - a.x) * (b.x - a.x) == (a.x - b.x) * (a.x - b.x)) by (nonlinear_arith);
    assert((b.y - a.y) * (b.y - a.y) == (a.y - b.y) * (a.y - b.y)) by (nonlinear_arith);
}

/// The neighbor count reads only a boid's identifier and position, never
/// its steering state.
pub proof fn lemma_count_depends_on_pose(
    flock: Seq<BoidView>,
    a: BoidView,
    b: BoidView,
    radius: int,
)
    requires
        a.id == b.id,
        a.x == b.x,
        a.y == b.y,
    ensures
        count_neighbors(flock, a, radius) == count_neighbors(flock, b, radius),
    decreases flock.len(),
{
    if flock.len() > 0 {
        lemma_count_depends_on_pose(flock.drop_last(), a, b, radius);
    }
}

/// Zero-neighbor rule suppression: a rule whose radius holds at most one
/// neighbor contributes the zero vector for the tick, and the steering
/// vectors a full tick carries are exactly the ones this phase computed.
pub proof fn lemma_rule_suppression(b: BoidView, flock: Seq<BoidView>, p: SimulationParameters)
    ensures
        ({
            let r = spec_after_rules(b, flock, p);
            &&& count_neighbors(flock, r, p.radius_cohesion as int) <= 1 ==> r.cohesion == (
            Vec2View { x: 0, y: 0 })
            &&& count_neighbors(flock, r, p.radius_separation as int) <= 1 ==> r.separation == (
            Vec2View { x: 0, y: 0 })
            &&& count_neighbors(flock, r, p.radius_alignment as int) <= 1 ==> r.alignment == (
            Vec2View { x: 0, y: 0 })
        }),
        spec_step(b, flock, p).cohesion == spec_after_rules(b, flock, p).cohesion,
        spec_step(b, flock, p).separation == spec_after_rules(b, flock, p).separation,
        spec_step(b, flock, p).alignment == spec_after_rules(b, flock, p).alignment,
{
    let r = spec_after_rules(b, flock, p);
    let b2 = spec_wrap(spec_update_distance_from_edges(b));
    let b3 = BoidView {
        com: spec_rule_aggregate(flock, b2, RuleKind::Cohesion, p.radius_cohesion as int),
        steer_away: spec_rule_aggregate(flock, b2, RuleKind::Separation, p.radius_separation as int),
        alignment_vector: spec_rule_aggregate(flock, b2, RuleKind::Alignment, p.radius_alignment as int),
        ..b2
    };
    assert(r.id == b3.id && r.x == b3.x && r.y == b3.y);
    lemma_count_depends_on_pose(flock, r, b3, p.radius_cohesion as int);
    lemma_count_depends_on_pose(flock, r, b3, p.radius_separation as int);
    lemma_count_depends_on_pose(flock, r, b3, p.radius_alignment as int);
}

/// Stagnation decay: the 0.99 decay never increases the speed, and a tick
/// that leaves the stagnation counter positive leaves the velocity at
/// exactly zero — so from the third such tick on, the speed (zero) is
/// non-increasing until some rule perturbs the boid again.
pub proof fn lemma_stagnation_decay(b: BoidView)
    ensures
        mag_sq(spec_decay(b).velocity) <= mag_sq(b.velocity),
{
    lemma_decay_shrinks(b.velocity);
}

/// A positive stagnation counter after a tick pins the velocity to zero.
pub proof fn lemma_stagnant_velocity_zero(b: BoidView, flock: Seq<BoidView>, p: SimulationParameters)
    ensures
        spec_step(b, flock, p).unchanged_angle > 0 ==> spec_step(b, flock, p).velocity == (
        Vec2View { x: 0, y: 0 }),
{
}

/// Determinism: one tick is a function of the boid snapshot and the
/// parameters alone; equal inputs give equal outputs.
pub proof fn lemma_step_deterministic(
    b1: BoidView,
    b2: BoidView,
    f1: Seq<BoidView>,
    f2: Seq<BoidView>,
    p1: SimulationParameters,
    p2: SimulationParameters,
)
    requires
        b1 == b2,
        f1 == f2,
        p1 == p2,
    ensures
        spec_step(b1, f1, p1) == spec_step(b2, f2, p2),
{
}

} // verus!
