//! One flock member and its per-tick update.
//!
//! A boid carries its position, velocity, derived angle, the three steering
//! vectors of the last tick, the neighbor aggregates they were computed
//! from, its distances to the four domain edges, and a stagnation counter.
//! `Boid::update` advances all of it by one tick against a read-only
//! snapshot of the whole flock; `spec_step` is the mathematical statement of
//! that tick.

use vstd::prelude::*;
use crate::fixed::{
    iabs, mul_fixed, sat64, sat_add, sat_sub, tdiv, lemma_abs_mul_pos, lemma_cancel_right,
    lemma_i64_product_fits, lemma_mul_bounds, lemma_mul_le_right, lemma_sqrt_floor_bounds,
    lemma_sqrt_le, lemma_square_le, lemma_tdiv_abs, tdiv_i128, SCALE,
};
use crate::vec2::{
    lemma_component_le_mag, lemma_square_nonneg, mag, mag_sq, magnitude, normalize,
    spec_normalize, spec_sub, Vec2, Vec2View,
};
use crate::trig::{
    acos_milli, atan2_milli, cos_milli, sin_milli, spec_acos, spec_atan2, spec_cos, spec_sin,
    HALF_PI_MILLI, TWO_PI_MILLI,
};
use crate::params::{RuleKind, SimulationParameters};
use crate::{
    EDGE_DETECTION_DISTANCE_MILLI, HEIGHT_MILLI, MAX_BOID_SPEED_MILLI, MAX_OMEGA_MILLI,
    POS_X_BOUND, POS_Y_BOUND, SPAWN_SPEED_MILLI, STEERING_FACTOR_MILLI, V_MAX, WIDTH_MILLI,
};

verus! {

/// Absolute distances to the four edges of the domain.
#[derive(Clone, Copy, PartialEq, Eq, Structural, Debug)]
pub struct EdgeDistances {
    pub top: i64,
    pub right: i64,
    pub bottom: i64,
    pub left: i64,
}

/// Mathematical model of `EdgeDistances`.
pub struct EdgeDistancesView {
    pub top: int,
    pub right: int,
    pub bottom: int,
    pub left: int,
}

impl View for EdgeDistances {
    type V = EdgeDistancesView;

    open spec fn view(&self) -> EdgeDistancesView {
        EdgeDistancesView {
            top: self.top as int,
            right: self.right as int,
            bottom: self.bottom as int,
            left: self.left as int,
        }
    }
}

/// One flock member.
#[derive(Clone, Copy, PartialEq, Eq, Structural, Debug)]
pub struct Boid {
    /// Stable identifier, used to exclude the boid itself from neighbor
    /// scans of the snapshot.
    pub id: i64,
    pub x: i64,
    pub y: i64,
    pub velocity: Vec2,
    /// Normalized cohesion steering vector of the last tick.
    pub cohesion: Vec2,
    /// Normalized separation steering vector of the last tick.
    pub separation: Vec2,
    /// Normalized alignment steering vector of the last tick.
    pub alignment: Vec2,
    /// Mean neighbor position within the cohesion radius.
    pub com: Vec2,
    /// Mean neighbor position within the separation radius.
    pub steer_away: Vec2,
    /// Mean neighbor velocity within the alignment radius.
    pub alignment_vector: Vec2,
    pub distance_from_edges: EdgeDistances,
    /// Heading derived from the velocity, in milliradians.
    pub angle: i64,
    /// Consecutive ticks with exactly zero velocity.
    pub unchanged_angle: u32,
}

/// Mathematical model of a `Boid`: the same fields over unbounded integers.
pub struct BoidView {
    pub id: int,
    pub x: int,
    pub y: int,
    pub velocity: Vec2View,
    pub cohesion: Vec2View,
    pub separation: Vec2View,
    pub alignment: Vec2View,
    pub com: Vec2View,
    pub steer_away: Vec2View,
    pub alignment_vector: Vec2View,
    pub distance_from_edges: EdgeDistancesView,
    pub angle: int,
    pub unchanged_angle: int,
}

impl View for Boid {
    type V = BoidView;

    open spec fn view(&self) -> BoidView {
        BoidView {
            id: self.id as int,
            x: self.x as int,
            y: self.y as int,
            velocity: self.velocity@,
            cohesion: self.cohesion@,
            separation: self.separation@,
            alignment: self.alignment@,
            com: self.com@,
            steer_away: self.steer_away@,
            alignment_vector: self.alignment_vector@,
            distance_from_edges: self.distance_from_edges@,
            angle: self.angle as int,
            unchanged_angle: self.unchanged_angle as int,
        }
    }
}

/// The models of a snapshot of the flock.
pub open spec fn views(s: Seq<Boid>) -> Seq<BoidView> {
    s.map_values(|b: Boid| b.view())
}

/// Well-formedness kept across ticks: the velocity respects the speed cap
/// (up to one quantum) and the position has drifted at most one tick of
/// motion outside the domain.
pub open spec fn boid_wf(b: BoidView) -> bool {
    &&& iabs(b.velocity.x) <= V_MAX
    &&& iabs(b.velocity.y) <= V_MAX
    &&& iabs(b.x) <= POS_X_BOUND
    &&& iabs(b.y) <= POS_Y_BOUND
}

/// Squared Euclidean distance between two boids' positions.
pub open spec fn dist_sq(a: BoidView, b: BoidView) -> int {
    (b.x - a.x) * (b.x - a.x) + (b.y - a.y) * (b.y - a.y)
}

/// The strict inclusion test of the neighbor scan: squared distance below
/// the squared radius (the boundary itself is excluded).
pub open spec fn in_radius(a: BoidView, b: BoidView, radius: int) -> bool {
    dist_sq(a, b) < radius * radius
}

/// `b` counts as a neighbor of `me`: a different id, strictly inside the
/// radius.
pub open spec fn is_neighbor(me: BoidView, b: BoidView, radius: int) -> bool {
    b.id != me.id && in_radius(me, b, radius)
}

/// How many members of the snapshot are neighbors of `me`.
pub open spec fn count_neighbors(flock: Seq<BoidView>, me: BoidView, radius: int) -> int
    decreases flock.len(),
{
    if flock.len() == 0 {
        0
    } else {
        count_neighbors(flock.drop_last(), me, radius) + if is_neighbor(
            me,
            flock.last(),
            radius,
        ) {
            1int
        } else {
            0int
        }
    }
}

/// What a neighbor contributes to a rule's aggregate: its position for
/// cohesion and separation, its velocity for alignment.
pub open spec fn contribution(kind: RuleKind, b: BoidView) -> Vec2View {
    match kind {
        RuleKind::Cohesion => Vec2View { x: b.x, y: b.y },
        RuleKind::Separation => Vec2View { x: b.x, y: b.y },
        RuleKind::Alignment => b.velocity,
    }
}

/// Componentwise sum of the contributions of all neighbors of `me`.
pub open spec fn neighbor_sum(
    flock: Seq<BoidView>,
    me: BoidView,
    kind: RuleKind,
    radius: int,
) -> Vec2View
    decreases flock.len(),
{
    if flock.len() == 0 {
        Vec2View { x: 0, y: 0 }
    } else {
        let rest = neighbor_sum(flock.drop_last(), me, kind, radius);
        if is_neighbor(me, flock.last(), radius) {
            let c = contribution(kind, flock.last());
            Vec2View { x: rest.x + c.x, y: rest.y + c.y }
        } else {
            rest
        }
    }
}

/// The aggregate a rule works from: the componentwise mean of the neighbor
/// contributions, or the zero vector when there is no neighbor.
pub open spec fn spec_rule_aggregate(
    flock: Seq<BoidView>,
    me: BoidView,
    kind: RuleKind,
    radius: int,
) -> Vec2View {
    let n = count_neighbors(flock, me, radius);
    if n > 0 {
        let s = neighbor_sum(flock, me, kind, radius);
        Vec2View { x: tdiv(s.x, n), y: tdiv(s.y, n) }
    } else {
        Vec2View { x: 0, y: 0 }
    }
}

/// The neighbor count never drops below zero nor above the snapshot size.
pub proof fn lemma_count_range(flock: Seq<BoidView>, me: BoidView, radius: int)
    ensures
        0 <= count_neighbors(flock, me, radius) <= flock.len(),
    decreases flock.len(),
{
    if flock.len() > 0 {
        lemma_count_range(flock.drop_last(), me, radius);
    }
}

/// Bound on the contribution components for a well-formed snapshot member.
pub open spec fn contribution_bound(kind: RuleKind) -> int {
    match kind {
        RuleKind::Cohesion => POS_X_BOUND as int,
        RuleKind::Separation => POS_X_BOUND as int,
        RuleKind::Alignment => V_MAX as int,
    }
}

/// Each well-formed boid's contribution stays within `contribution_bound`.
pub proof fn lemma_contribution_bounded(kind: RuleKind, b: BoidView)
    requires
        boid_wf(b),
    ensures
        iabs(contribution(kind, b).x) <= contribution_bound(kind),
        iabs(contribution(kind, b).y) <= contribution_bound(kind),
{
}

/// The neighbor sum is bounded by the count times the per-member bound.
pub proof fn lemma_sum_bounded(flock: Seq<BoidView>, me: BoidView, kind: RuleKind, radius: int)
    requires
        forall|i: int| 0 <= i < flock.len() ==> boid_wf(#[trigger] flock[i]),
    ensures
        iabs(neighbor_sum(flock, me, kind, radius).x) <= count_neighbors(flock, me, radius)
            * contribution_bound(kind),
        iabs(neighbor_sum(flock, me, kind, radius).y) <= count_neighbors(flock, me, radius)
            * contribution_bound(kind),
    decreases flock.len(),
{
    let n = count_neighbors(flock, me, radius);
    let s = neighbor_sum(flock, me, kind, radius);
    let bd = contribution_bound(kind);
    if flock.len() == 0 {
    } else {
        let prefix = flock.drop_last();
        assert(forall|i: int| 0 <= i < prefix.len() ==> boid_wf(#[trigger] prefix[i]));
        lemma_sum_bounded(prefix, me, kind, radius);
        lemma_count_range(prefix, me, radius);
        let np = count_neighbors(prefix, me, radius);
        if is_neighbor(me, flock.last(), radius) {
            assert(flock.last() == flock[flock.len() - 1]);
            lemma_contribution_bounded(kind, flock.last());
            assert((np + 1) * bd == np * bd + bd) by (nonlinear_arith);
        }
    }
}

/// A coordinate difference between two well-formed boids squares to well
/// under half the `i128` range.
proof fn lemma_dist_term_fits(d: int)
    by (nonlinear_arith)
    requires
        -4_000_000 <= d <= 4_000_000,
    ensures
        0 <= d * d <= 16_000_000_000_000,
{
}

/// A fresh boid: at the given position, heading along `angle` at the spawn
/// speed, with every steering vector and aggregate zeroed.
pub open spec fn spec_new(id: int, x: int, y: int, angle: int) -> BoidView {
    BoidView {
        id: id,
        x: x,
        y: y,
        velocity: Vec2View {
            x: sat64(tdiv(spec_cos(angle) * SPAWN_SPEED_MILLI, SCALE as int)),
            y: sat64(tdiv(spec_sin(angle) * SPAWN_SPEED_MILLI, SCALE as int)),
        },
        cohesion: Vec2View { x: 0, y: 0 },
        separation: Vec2View { x: 0, y: 0 },
        alignment: Vec2View { x: 0, y: 0 },
        com: Vec2View { x: 0, y: 0 },
        steer_away: Vec2View { x: 0, y: 0 },
        alignment_vector: Vec2View { x: 0, y: 0 },
        distance_from_edges: EdgeDistancesView { top: 0, right: 0, bottom: 0, left: 0 },
        angle: angle,
        unchanged_angle: 0,
    }
}

impl Boid {
    /// Spawn a boid inside the domain with the given heading.
    pub fn new(i: i64, x: i64, y: i64, angle: i64) -> (b: Boid)
        requires
            0 <= x <= WIDTH_MILLI,
            0 <= y <= HEIGHT_MILLI,
            0 <= angle <= TWO_PI_MILLI,
        ensures
            b@ == spec_new(i as int, x as int, y as int, angle as int),
            boid_wf(b@),
    {
        let c: i64 = cos_milli(angle);
        let s: i64 = sin_milli(angle);
        proof {
            lemma_tdiv_abs(c * SPAWN_SPEED_MILLI, SCALE as int);
            lemma_tdiv_abs(s * SPAWN_SPEED_MILLI, SCALE as int);
            lemma_abs_mul_pos(c as int, SPAWN_SPEED_MILLI as int);
            lemma_abs_mul_pos(s as int, SPAWN_SPEED_MILLI as int);
        }
        let vx: i64 = mul_fixed(c, SPAWN_SPEED_MILLI);
        let vy: i64 = mul_fixed(s, SPAWN_SPEED_MILLI);
        Boid {
            id: i,
            x: x,
            y: y,
            velocity: Vec2 { x: vx, y: vy },
            cohesion: Vec2 { x: 0, y: 0 },
            separation: Vec2 { x: 0, y: 0 },
            alignment: Vec2 { x: 0, y: 0 },
            com: Vec2 { x: 0, y: 0 },
            steer_away: Vec2 { x: 0, y: 0 },
            alignment_vector: Vec2 { x: 0, y: 0 },
            distance_from_edges: EdgeDistances { top: 0, right: 0, bottom: 0, left: 0 },
            angle: angle,
            unchanged_angle: 0,
        }
    }

    /// Recompute the absolute distances to the four domain edges from the
    /// current position.
    pub fn update_distance_from_edges(&mut self)
        requires
            boid_wf(old(self)@),
        ensures
            final(self)@ == spec_update_distance_from_edges(old(self)@),
    {
        let top: i64 = self.y;
        let right: i64 = WIDTH_MILLI - self.x;
        let bottom: i64 = HEIGHT_MILLI - self.y;
        let left: i64 = self.x;
        self.distance_from_edges = EdgeDistances {
            top: abs_i64(top),
            right: abs_i64(right),
            bottom: abs_i64(bottom),
            left: abs_i64(left),
        };
    }

    /// Reset a coordinate that has left the domain to the opposite edge;
    /// the interior is untouched.
    pub fn wrap_around(&mut self)
        ensures
            final(self)@ == spec_wrap(old(self)@),
            old(self).x > WIDTH_MILLI ==> final(self).x == 0,
            old(self).x < 0 ==> final(self).x == WIDTH_MILLI,
            0 <= old(self).x <= WIDTH_MILLI ==> final(self).x == old(self).x,
            old(self).y > HEIGHT_MILLI ==> final(self).y == 0,
            old(self).y < 0 ==> final(self).y == HEIGHT_MILLI,
            0 <= old(self).y <= HEIGHT_MILLI ==> final(self).y == old(self).y,
    {
        if self.x > WIDTH_MILLI {
            self.x = 0;
        } else if self.x < 0 {
            self.x = WIDTH_MILLI;
        }
        if self.y > HEIGHT_MILLI {
            self.y = 0;
        } else if self.y < 0 {
            self.y = HEIGHT_MILLI;
        }
    }

    /// Count the members of the snapshot (other than this boid) strictly
    /// within `radius` of this boid's position.
    pub fn get_nb_neighbors(&self, boids: &Vec<Boid>, radius: i64) -> (n: usize)
        requires
            boid_wf(self@),
            forall|i: int| 0 <= i < boids@.len() ==> boid_wf(#[trigger] boids@[i]@),
        ensures
            n == count_neighbors(views(boids@), self@, radius as int),
    {
        proof {
            lemma_i64_product_fits(radius as int, radius as int);
        }
        let r_sq: i128 = (radius as i128) * (radius as i128);
        let ghost vs = views(boids@);
        let mut n: usize = 0;
        let mut i: usize = 0;
        while i < boids.len()
            invariant
                0 <= i <= boids@.len(),
                vs == views(boids@),
                vs.len() == boids@.len(),
                forall|k: int| 0 <= k < boids@.len() ==> boid_wf(#[trigger] boids@[k]@),
                boid_wf(self@),
                r_sq == (radius as int) * (radius as int),
                n == count_neighbors(vs.take(i as int), self@, radius as int),
                n <= i,
            decreases boids@.len() - i,
        {
            let b = boids[i];
            proof {
                assert(vs[i as int] == boids@[i as int]@);
                assert(vs.take(i + 1).drop_last() =~= vs.take(i as int));
                assert(vs.take(i + 1).last() == vs[i as int]);
            }
            if b.id != self.id {
                let dx: i64 = b.x - self.x;
                let dy: i64 = b.y - self.y;
                proof {
                    lemma_dist_term_fits(dx as int);
                    lemma_dist_term_fits(dy as int);
                }
                let d_sq: i128 = (dx as i128) * (dx as i128) + (dy as i128) * (dy as i128);
                if d_sq < r_sq {
                    n = n + 1;
                }
            }
            i = i + 1;
        }
        proof {
            assert(vs.take(boids@.len() as int) =~= vs);
        }
        n
    }

    /// One all-pairs scan: the mean neighbor position (cohesion,
    /// separation) or mean neighbor velocity (alignment) within `radius`,
    /// or the zero vector when no other boid is that close.
    pub fn build_rule_vectors(&self, boids: &Vec<Boid>, kind: RuleKind, radius: i64) -> (r: Vec2)
        requires
            boid_wf(self@),
            forall|i: int| 0 <= i < boids@.len() ==> boid_wf(#[trigger] boids@[i]@),
        ensures
            r@ == spec_rule_aggregate(views(boids@), self@, kind, radius as int),
            iabs(r@.x) <= contribution_bound(kind),
            iabs(r@.y) <= contribution_bound(kind),
    {
        proof {
            lemma_i64_product_fits(radius as int, radius as int);
        }
        let r_sq: i128 = (radius as i128) * (radius as i128);
        let ghost vs = views(boids@);
        let mut sum_x: i128 = 0;
        let mut sum_y: i128 = 0;
        let mut n: usize = 0;
        let mut i: usize = 0;
        while i < boids.len()
            invariant
                0 <= i <= boids@.len(),
                vs == views(boids@),
                vs.len() == boids@.len(),
                forall|k: int| 0 <= k < boids@.len() ==> boid_wf(#[trigger] boids@[k]@),
                boid_wf(self@),
                r_sq == (radius as int) * (radius as int),
                n == count_neighbors(vs.take(i as int), self@, radius as int),
                n <= i,
                sum_x == neighbor_sum(vs.take(i as int), self@, kind, radius as int).x,
                sum_y == neighbor_sum(vs.take(i as int), self@, kind, radius as int).y,
            decreases boids@.len() - i,
        {
            let b = boids[i];
            proof {
                assert(vs[i as int] == boids@[i as int]@);
                assert(vs.take(i + 1).drop_last() =~= vs.take(i as int));
                assert(vs.take(i + 1).last() == vs[i as int]);
                assert(forall|k: int|
                    0 <= k < i ==> #[trigger] vs.take(i as int)[k] == boids@[k]@);
                lemma_sum_bounded(vs.take(i as int), self@, kind, radius as int);
                lemma_count_range(vs.take(i as int), self@, radius as int);
                assert((n as int) * contribution_bound(kind) + contribution_bound(kind)
                    <= 0x1000_0000_0000_0000_0000_0000) by (nonlinear_arith)
                    requires
                        0 <= n as int <= 0xFFFF_FFFF_FFFF_FFFF,
                        0 <= contribution_bound(kind) <= 1_710_001,
                ;
            }
            if b.id != self.id {
                let dx: i64 = b.x - self.x;
                let dy: i64 = b.y - self.y;
                proof {
                    lemma_dist_term_fits(dx as int);
                    lemma_dist_term_fits(dy as int);
                }
                let d_sq: i128 = (dx as i128) * (dx as i128) + (dy as i128) * (dy as i128);
                if d_sq < r_sq {
                    match kind {
                        RuleKind::Cohesion => {
                            sum_x = sum_x + (b.x as i128);
                            sum_y = sum_y + (b.y as i128);
                        },
                        RuleKind::Separation => {
                            sum_x = sum_x + (b.x as i128);
                            sum_y = sum_y + (b.y as i128);
                        },
                        RuleKind::Alignment => {
                            sum_x = sum_x + (b.velocity.x as i128);
                            sum_y = sum_y + (b.velocity.y as i128);
                        },
                    }
                    n = n + 1;
                }
            }
            i = i + 1;
        }
        proof {
            assert(vs.take(boids@.len() as int) =~= vs);
            assert(forall|k: int| 0 <= k < vs.len() ==> #[trigger] vs[k] == boids@[k]@);
            lemma_sum_bounded(vs, self@, kind, radius as int);
            lemma_count_range(vs, self@, radius as int);
        }
        if n > 0 {
            proof {
                assert((n as int) * contribution_bound(kind) <= 0x1000_0000_0000_0000_0000_0000)
                    by (nonlinear_arith)
                    requires
                        0 <= n as int <= 0xFFFF_FFFF_FFFF_FFFF,
                        0 <= contribution_bound(kind) <= 1_710_001,
                ;
                lemma_tdiv_abs(sum_x as int, n as int);
                lemma_tdiv_abs(sum_y as int, n as int);
                assert(iabs(tdiv(sum_x as int, n as int)) <= contribution_bound(kind)
                    && iabs(tdiv(sum_y as int, n as int)) <= contribution_bound(kind))
                    by (nonlinear_arith)
                    requires
                        n as int >= 1,
                        iabs(tdiv(sum_x as int, n as int)) >= 0,
                        iabs(tdiv(sum_y as int, n as int)) >= 0,
                        iabs(tdiv(sum_x as int, n as int)) * (n as int) <= iabs(sum_x as int),
                        iabs(tdiv(sum_y as int, n as int)) * (n as int) <= iabs(sum_y as int),
                        iabs(sum_x as int) <= (n as int) * contribution_bound(kind),
                        iabs(sum_y as int) <= (n as int) * contribution_bound(kind),
                        0 <= contribution_bound(kind) <= 1_710_001,
                ;
            }
            let mx: i64 = tdiv_i128(sum_x, n as i128) as i64;
            let my: i64 = tdiv_i128(sum_y, n as i128) as i64;
            Vec2 { x: mx, y: my }
        } else {
            Vec2 { x: 0, y: 0 }
        }
    }

    /// Point the cohesion vector toward the mean neighbor position.
    pub fn update_cohesion(&mut self)
        ensures
            final(self)@ == spec_update_cohesion(old(self)@),
            iabs(final(self)@.cohesion.x) <= SCALE as int,
            iabs(final(self)@.cohesion.y) <= SCALE as int,
    {
        let target = Vec2 {
            x: crate::fixed::sat_sub(self.com.x, self.x),
            y: crate::fixed::sat_sub(self.com.y, self.y),
        };
        self.cohesion = normalize(&target);
    }

    /// Point the separation vector toward the mean neighbor position within
    /// the separation radius (the blend later subtracts it).
    pub fn update_separation(&mut self)
        ensures
            final(self)@ == spec_update_separation(old(self)@),
            iabs(final(self)@.separation.x) <= SCALE as int,
            iabs(final(self)@.separation.y) <= SCALE as int,
    {
        let target = Vec2 {
            x: crate::fixed::sat_sub(self.steer_away.x, self.x),
            y: crate::fixed::sat_sub(self.steer_away.y, self.y),
        };
        self.separation = normalize(&target);
    }

    /// Point the alignment vector toward the mean neighbor velocity,
    /// relative to the boid's own velocity.
    pub fn update_alignment(&mut self)
        ensures
            final(self)@ == spec_update_alignment(old(self)@),
            iabs(final(self)@.alignment.x) <= SCALE as int,
            iabs(final(self)@.alignment.y) <= SCALE as int,
    {
        let target = Vec2 {
            x: crate::fixed::sat_sub(self.alignment_vector.x, self.velocity.x),
            y: crate::fixed::sat_sub(self.alignment_vector.y, self.velocity.y),
        };
        self.alignment = normalize(&target);
    }

    /// The bounded turn increment asked for by one rule vector; see
    /// `spec_smooth_angle`.
    pub fn smooth_angle(&self, vector: &Vec2) -> (omega: i64)
        requires
            iabs(vector@.x) <= SCALE as int,
            iabs(vector@.y) <= SCALE as int,
            iabs(self.alignment_vector@.x) <= POS_X_BOUND as int,
            iabs(self.alignment_vector@.y) <= POS_X_BOUND as int,
        ensures
            omega == spec_smooth_angle(self@, vector@),
            iabs(omega as int) <= HALF_PI_MILLI as int,
    {
        let norm: u64 = magnitude(&self.velocity);
        if norm == 0 {
            return 0;
        }
        proof {
            lemma_mul_bounds(
                self.velocity.x as int,
                vector@.y,
                0x8000_0000_0000_0000,
                SCALE as int,
            );
            lemma_mul_bounds(
                self.velocity.y as int,
                vector@.x,
                0x8000_0000_0000_0000,
                SCALE as int,
            );
            lemma_mul_bounds(
                self.velocity.x as int,
                self.alignment_vector@.x,
                0x8000_0000_0000_0000,
                POS_X_BOUND as int,
            );
            lemma_mul_bounds(
                self.velocity.y as int,
                self.alignment_vector@.y,
                0x8000_0000_0000_0000,
                POS_X_BOUND as int,
            );
        }
        let cross: i128 = (self.velocity.x as i128) * (vector.y as i128) - (self.velocity.y
            as i128) * (vector.x as i128);
        let dot: i128 = (self.velocity.x as i128) * (self.alignment_vector.x as i128)
            + (self.velocity.y as i128) * (self.alignment_vector.y as i128);
        let t: i128 = tdiv_i128(dot, norm as i128);
        proof {
            assert(norm as int == mag(self@.velocity));
            assert(cross as int == self@.velocity.x * vector@.y - self@.velocity.y * vector@.x);
            assert(dot as int == self@.velocity.x * self@.alignment_vector.x + self@.velocity.y
                * self@.alignment_vector.y);
            assert(t as int == tdiv(dot as int, norm as int));
        }
        if t > 1000 {
            return 0;
        }
        if t < 0 {
            // The angle is beyond the quarter-turn cap: return the cap
            // itself, signed.
            if cross < 0 {
                return -HALF_PI_MILLI;
            } else {
                return HALF_PI_MILLI;
            }
        }
        let a: i64 = acos_milli(t as i64);
        proof {
            let st = tdiv(
                self@.velocity.x * self@.alignment_vector.x + self@.velocity.y
                    * self@.alignment_vector.y,
                mag(self@.velocity),
            );
            assert(st == t as int);
            assert(a == spec_acos(st));
            assert(cross < 0 ==> spec_smooth_angle(self@, vector@) == -1 * spec_acos(st));
            assert(cross >= 0 ==> spec_smooth_angle(self@, vector@) == 1 * spec_acos(st));
            assert(-(a as int) == -1 * spec_acos(st));
            assert(cross < 0 ==> -a == spec_smooth_angle(self@, vector@));
            assert(cross >= 0 ==> a == spec_smooth_angle(self@, vector@));
        }
        if cross < 0 {
            -a
        } else {
            a
        }
    }

    /// Rescale the velocity toward the speed cap when it is too fast.
    pub fn enforce_max_speed(&mut self)
        ensures
            final(self)@ == spec_enforce_max_speed(old(self)@),
            mag_sq(final(self)@.velocity) <= (V_MAX as int) * (V_MAX as int),
            iabs(final(self)@.velocity.x) <= V_MAX,
            iabs(final(self)@.velocity.y) <= V_MAX,
    {
        proof {
            lemma_enforce_bounds(old(self)@.velocity);
        }
        let speed: u64 = magnitude(&self.velocity);
        if speed > MAX_BOID_SPEED_MILLI as u64 {
            proof {
                lemma_tdiv_abs(self@.velocity.x * (MAX_BOID_SPEED_MILLI as int), speed as int);
                lemma_tdiv_abs(self@.velocity.y * (MAX_BOID_SPEED_MILLI as int), speed as int);
            }
            let nx: i64 = tdiv_i128(
                (self.velocity.x as i128) * (MAX_BOID_SPEED_MILLI as i128),
                speed as i128,
            ) as i64;
            let ny: i64 = tdiv_i128(
                (self.velocity.y as i128) * (MAX_BOID_SPEED_MILLI as i128),
                speed as i128,
            ) as i64;
            self.velocity = Vec2 { x: nx, y: ny };
        }
    }

    /// Apply the stagnation decay when the idle counter is beyond two.
    pub fn dont_be_idiot(&mut self)
        ensures
            final(self)@ == spec_decay(old(self)@),
            mag_sq(final(self)@.velocity) <= mag_sq(old(self)@.velocity),
            iabs(final(self)@.velocity.x) <= iabs(old(self)@.velocity.x),
            iabs(final(self)@.velocity.y) <= iabs(old(self)@.velocity.y),
    {
        proof {
            lemma_decay_shrinks(old(self)@.velocity);
        }
        if self.unchanged_angle > 2 {
            proof {
                lemma_tdiv_abs(self@.velocity.x * 99, 100);
                lemma_tdiv_abs(self@.velocity.y * 99, 100);
                lemma_abs_mul_pos(self@.velocity.x, 99);
                lemma_abs_mul_pos(self@.velocity.y, 99);
            }
            let nx: i64 = tdiv_i128((self.velocity.x as i128) * 99, 100) as i64;
            let ny: i64 = tdiv_i128((self.velocity.y as i128) * 99, 100) as i64;
            self.velocity = Vec2 { x: nx, y: ny };
        }
    }

    /// The dormant edge-repulsion routine; see `spec_avoid_edges`.  Not
    /// wired into `update`; it stays dormant on purpose.
    pub fn avoid_edges(&self) -> (omega: i64)
        ensures
            omega == spec_avoid_edges(self@),
    {
        let mut o: i64 = 0;
        if self.distance_from_edges.top < EDGE_DETECTION_DISTANCE_MILLI {
            o = edge_turn(&self.velocity, self.distance_from_edges.top, 0, 1);
        }
        if self.distance_from_edges.right < EDGE_DETECTION_DISTANCE_MILLI {
            o = edge_turn(&self.velocity, self.distance_from_edges.right, -1, 0);
        }
        if self.distance_from_edges.bottom < EDGE_DETECTION_DISTANCE_MILLI {
            o = edge_turn(&self.velocity, self.distance_from_edges.bottom, 0, -1);
        }
        if self.distance_from_edges.left < EDGE_DETECTION_DISTANCE_MILLI {
            o = edge_turn(&self.velocity, self.distance_from_edges.left, 1, 0);
        }
        clamp_turn(o)
    }

    /// Advance this boid by one tick against a read-only snapshot of the
    /// whole flock, exactly as `spec_step` states it.  Well-formedness is
    /// preserved, so the result can serve in the next tick's snapshot.
    pub fn update(&mut self, boids: &Vec<Boid>, params: &SimulationParameters)
        requires
            boid_wf(old(self)@),
            forall|i: int| 0 <= i < boids@.len() ==> boid_wf(#[trigger] boids@[i]@),
        ensures
            final(self)@ == spec_step(old(self)@, views(boids@), *params),
            boid_wf(final(self)@),
    {
        let ghost b0 = self@;
        let ghost vs = views(boids@);
        self.update_distance_from_edges();
        self.wrap_around();
        proof {
            assert(self@ == spec_wrap(spec_update_distance_from_edges(b0)));
            assert(boid_wf(self@));
        }
        let com = self.build_rule_vectors(boids, RuleKind::Cohesion, params.radius_cohesion);
        let steer = self.build_rule_vectors(boids, RuleKind::Separation, params.radius_separation);
        let align = self.build_rule_vectors(boids, RuleKind::Alignment, params.radius_alignment);
        self.com = com;
        self.steer_away = steer;
        self.alignment_vector = align;
        let nc = self.get_nb_neighbors(boids, params.radius_cohesion);
        let ns = self.get_nb_neighbors(boids, params.radius_separation);
        let na = self.get_nb_neighbors(boids, params.radius_alignment);
        if nc > 1 {
            self.update_cohesion();
        } else {
            self.cohesion = Vec2 { x: 0, y: 0 };
        }
        if ns > 1 {
            self.update_separation();
        } else {
            self.separation = Vec2 { x: 0, y: 0 };
        }
        if na > 1 {
            self.update_alignment();
        } else {
            self.alignment = Vec2 { x: 0, y: 0 };
        }
        proof {
            assert(self@ == spec_after_rules(b0, vs, *params));
        }
        let ghost br = self@;

        self.velocity = Vec2 {
            x: sat_add(self.velocity.x, mul_fixed(self.cohesion.x, params.weight_cohesion)),
            y: sat_add(self.velocity.y, mul_fixed(self.cohesion.y, params.weight_cohesion)),
        };
        // Deliberate asymmetry: the y component subtracts with the
        // alignment weight, not the separation weight.
        self.velocity = Vec2 {
            x: sat_sub(self.velocity.x, mul_fixed(self.separation.x, params.weight_separation)),
            y: sat_sub(self.velocity.y, mul_fixed(self.separation.y, params.weight_alignment)),
        };
        proof {
            assert(self@ == spec_blend(br, *params));
        }
        let ghost bb = self@;

        let cv = self.cohesion;
        let omega_cohesion_raw = self.smooth_angle(&cv);
        let omega_cohesion = clamp_turn(mul_fixed(omega_cohesion_raw, params.weight_cohesion));
        let tmp_c = self.velocity.x;
        self.velocity = Vec2 {
            x: sat_add(self.velocity.x, mul_fixed(omega_cohesion, self.velocity.y)),
            y: sat_sub(self.velocity.y, mul_fixed(omega_cohesion, tmp_c)),
        };

        let sv = self.separation;
        let omega_separation_raw = self.smooth_angle(&sv);
        let omega_separation = clamp_turn(
            mul_fixed(omega_separation_raw, params.weight_separation),
        );
        let tmp_s = self.velocity.x;
        self.velocity = Vec2 {
            x: sat_add(self.velocity.x, mul_fixed(omega_separation, self.velocity.y)),
            y: sat_sub(self.velocity.y, mul_fixed(omega_separation, tmp_s)),
        };

        let av = self.alignment;
        let omega_alignment_raw = self.smooth_angle(&av);
        let omega_alignment = clamp_turn(mul_fixed(omega_alignment_raw, params.weight_alignment));
        let tmp_a = self.velocity.x;
        self.velocity = Vec2 {
            x: sat_add(self.velocity.x, mul_fixed(omega_alignment, self.velocity.y)),
            y: sat_sub(self.velocity.y, mul_fixed(omega_alignment, tmp_a)),
        };
        proof {
            assert(self@ == spec_turn(bb, *params));
        }
        let ghost bt = self@;

        self.enforce_max_speed();
        self.x = sat_add(self.x, self.velocity.x);
        self.y = sat_add(self.y, self.velocity.y);
        self.angle = atan2_milli(self.velocity.y, self.velocity.x);
        if self.velocity.x == 0 && self.velocity.y == 0 {
            if self.unchanged_angle < u32::MAX {
                self.unchanged_angle = self.unchanged_angle + 1;
            }
        } else {
            self.unchanged_angle = 0;
        }
        self.dont_be_idiot();
        proof {
            assert(self@ == spec_integrate(bt));
        }
    }
}

/// The turn rate one close edge asks for: the sign of the cross product of
/// the velocity and the edge's inward normal, scaled by how deep into the
/// detection band the boid sits, by the steering gain, and down by the
/// speed cap.
pub open spec fn spec_edge_turn(v: Vec2View, dist: int, nx: int, ny: int) -> int {
    let sgn: int = if v.x * ny - v.y * nx < 0 {
        -1
    } else {
        1
    };
    let dd = tdiv(dist * 1000, EDGE_DETECTION_DISTANCE_MILLI as int);
    let f5 = tdiv((1000 - dd) * (STEERING_FACTOR_MILLI as int), SCALE as int);
    sgn * tdiv(f5, 10)
}

/// The dormant edge-repulsion turn rate: each edge within the detection
/// band overwrites the value in turn (top, right, bottom, left), and the
/// result is clamped like any other turn rate.  The per-tick update does
/// not call this; it is deliberately dormant.
pub open spec fn spec_avoid_edges(b: BoidView) -> int {
    let e = EDGE_DETECTION_DISTANCE_MILLI as int;
    let d = b.distance_from_edges;
    let o1: int = if d.top < e {
        spec_edge_turn(b.velocity, d.top, 0, 1)
    } else {
        0
    };
    let o2: int = if d.right < e {
        spec_edge_turn(b.velocity, d.right, -1, 0)
    } else {
        o1
    };
    let o3: int = if d.bottom < e {
        spec_edge_turn(b.velocity, d.bottom, 0, -1)
    } else {
        o2
    };
    let o4: int = if d.left < e {
        spec_edge_turn(b.velocity, d.left, 1, 0)
    } else {
        o3
    };
    clamp_omega(o4)
}

/// Executable counterpart of `spec_edge_turn`.
fn edge_turn(vel: &Vec2, dist: i64, nx: i64, ny: i64) -> (r: i64)
    requires
        -1 <= nx <= 1,
        -1 <= ny <= 1,
    ensures
        r == spec_edge_turn(vel@, dist as int, nx as int, ny as int),
{
    proof {
        lemma_mul_bounds(vel@.x, ny as int, 0x8000_0000_0000_0000, 1);
        lemma_mul_bounds(vel@.y, nx as int, 0x8000_0000_0000_0000, 1);
    }
    let cross: i128 = (vel.x as i128) * (ny as i128) - (vel.y as i128) * (nx as i128);
    proof {
        lemma_tdiv_abs(dist as int * 1000, EDGE_DETECTION_DISTANCE_MILLI as int);
    }
    let dd: i128 = tdiv_i128(
        (dist as i128) * 1000,
        EDGE_DETECTION_DISTANCE_MILLI as i128,
    );
    proof {
        lemma_tdiv_abs(
            (1000 - dd as int) * (STEERING_FACTOR_MILLI as int),
            SCALE as int,
        );
    }
    let f5: i128 = tdiv_i128((1000 - dd) * (STEERING_FACTOR_MILLI as i128), SCALE as i128);
    proof {
        lemma_tdiv_abs(f5 as int, 10);
    }
    let q: i64 = tdiv_i128(f5, 10) as i64;
    proof {
        let sdd = tdiv(dist as int * 1000, EDGE_DETECTION_DISTANCE_MILLI as int);
        let sf5 = tdiv((1000 - sdd) * (STEERING_FACTOR_MILLI as int), SCALE as int);
        assert(dd as int == sdd);
        assert(f5 as int == sf5);
        assert(q == tdiv(sf5, 10));
        assert(cross as int == vel@.x * (ny as int) - vel@.y * (nx as int));
        assert(cross < 0 ==> spec_edge_turn(vel@, dist as int, nx as int, ny as int) == -1 * tdiv(
            sf5,
            10,
        ));
        assert(cross >= 0 ==> spec_edge_turn(vel@, dist as int, nx as int, ny as int) == 1 * tdiv(
            sf5,
            10,
        ));
    }
    if cross < 0 {
        -q
    } else {
        q
    }
}

/// Clamp a weighted turn rate to the global cap.
pub fn clamp_turn(o: i64) -> (r: i64)
    ensures
        r == clamp_omega(o as int),
{
    if o > MAX_OMEGA_MILLI {
        MAX_OMEGA_MILLI
    } else if o < -MAX_OMEGA_MILLI {
        -MAX_OMEGA_MILLI
    } else {
        o
    }
}

/// The distances-to-edges update as a function on models.
pub open spec fn spec_update_distance_from_edges(b: BoidView) -> BoidView {
    BoidView {
        distance_from_edges: EdgeDistancesView {
            top: iabs(b.y),
            right: iabs(WIDTH_MILLI - b.x),
            bottom: iabs(HEIGHT_MILLI - b.y),
            left: iabs(b.x),
        },
        ..b
    }
}

/// The boundary wrap as a function on models: a coordinate beyond the far
/// edge restarts at zero, one below zero restarts at the far edge.
pub open spec fn spec_wrap(b: BoidView) -> BoidView {
    BoidView {
        x: if b.x > WIDTH_MILLI {
            0
        } else if b.x < 0 {
            WIDTH_MILLI as int
        } else {
            b.x
        },
        y: if b.y > HEIGHT_MILLI {
            0
        } else if b.y < 0 {
            HEIGHT_MILLI as int
        } else {
            b.y
        },
        ..b
    }
}

/// A boid's position as a vector.
pub open spec fn pos_of(b: BoidView) -> Vec2View {
    Vec2View { x: b.x, y: b.y }
}

/// The cohesion steering vector: toward the mean neighbor position,
/// normalized (zero when that mean coincides with the boid).
pub open spec fn spec_update_cohesion(b: BoidView) -> BoidView {
    BoidView { cohesion: spec_normalize(spec_sub(b.com, pos_of(b))), ..b }
}

/// The separation steering vector: toward the mean neighbor position within
/// the separation radius, normalized; the blend subtracts it to steer away.
pub open spec fn spec_update_separation(b: BoidView) -> BoidView {
    BoidView { separation: spec_normalize(spec_sub(b.steer_away, pos_of(b))), ..b }
}

/// The alignment steering vector: toward the mean neighbor velocity,
/// relative to the boid's own velocity, normalized.
pub open spec fn spec_update_alignment(b: BoidView) -> BoidView {
    BoidView { alignment: spec_normalize(spec_sub(b.alignment_vector, b.velocity)), ..b }
}

/// The bounded turn increment a rule vector asks for, before weighting: the
/// sign of the planar cross product of velocity and rule vector, times the
/// angle between the velocity and the alignment target, that angle capped
/// at a quarter turn.  A negative cosine means an angle beyond the cap, so
/// it yields a full quarter turn with the cross product's sign.  Zero when
/// the velocity is zero, and zero when the cosine exceeds one, where the
/// arccosine is undefined.
pub open spec fn spec_smooth_angle(b: BoidView, v: Vec2View) -> int {
    let norm = mag(b.velocity);
    if norm == 0 {
        0
    } else {
        let cross = b.velocity.x * v.y - b.velocity.y * v.x;
        let sgn: int = if cross < 0 {
            -1
        } else {
            1
        };
        let t = tdiv(
            b.velocity.x * b.alignment_vector.x + b.velocity.y * b.alignment_vector.y,
            norm,
        );
        if t < 0 {
            sgn * HALF_PI_MILLI
        } else if t <= 1000 {
            sgn * spec_acos(t)
        } else {
            0
        }
    }
}

/// The velocity after the speed clamp: rescaled toward the cap when its
/// rounded-down magnitude exceeds the cap, untouched otherwise.
pub open spec fn spec_enforce(v: Vec2View) -> Vec2View {
    let m = mag(v);
    if m > MAX_BOID_SPEED_MILLI {
        Vec2View {
            x: tdiv(v.x * MAX_BOID_SPEED_MILLI, m),
            y: tdiv(v.y * MAX_BOID_SPEED_MILLI, m),
        }
    } else {
        v
    }
}

/// The speed clamp as a function on the whole boid.
pub open spec fn spec_enforce_max_speed(b: BoidView) -> BoidView {
    BoidView { velocity: spec_enforce(b.velocity), ..b }
}

/// The stagnation decay: once the boid has sat at exactly zero velocity for
/// more than two ticks, every further tick multiplies the velocity by 0.99.
pub open spec fn spec_decay(b: BoidView) -> BoidView {
    if b.unchanged_angle > 2 {
        BoidView {
            velocity: Vec2View {
                x: tdiv(b.velocity.x * 99, 100),
                y: tdiv(b.velocity.y * 99, 100),
            },
            ..b
        }
    } else {
        b
    }
}

/// First phase of a tick: refresh the edge distances, wrap the position,
/// recompute the three neighbor aggregates from the snapshot, and set each
/// steering vector — or suppress it to zero when the rule has at most one
/// neighbor in its radius.
pub open spec fn spec_after_rules(
    b: BoidView,
    flock: Seq<BoidView>,
    p: SimulationParameters,
) -> BoidView {
    let b2 = spec_wrap(spec_update_distance_from_edges(b));
    let b3 = BoidView {
        com: spec_rule_aggregate(flock, b2, RuleKind::Cohesion, p.radius_cohesion as int),
        steer_away: spec_rule_aggregate(
            flock,
            b2,
            RuleKind::Separation,
            p.radius_separation as int,
        ),
        alignment_vector: spec_rule_aggregate(
            flock,
            b2,
            RuleKind::Alignment,
            p.radius_alignment as int,
        ),
        ..b2
    };
    let nc = count_neighbors(flock, b3, p.radius_cohesion as int);
    let ns = count_neighbors(flock, b3, p.radius_separation as int);
    let na = count_neighbors(flock, b3, p.radius_alignment as int);
    let b4 = if nc > 1 {
        spec_update_cohesion(b3)
    } else {
        BoidView { cohesion: Vec2View { x: 0, y: 0 }, ..b3 }
    };
    let b5 = if ns > 1 {
        spec_update_separation(b4)
    } else {
        BoidView { separation: Vec2View { x: 0, y: 0 }, ..b4 }
    };
    if na > 1 {
        spec_update_alignment(b5)
    } else {
        BoidView { alignment: Vec2View { x: 0, y: 0 }, ..b5 }
    }
}

/// Second phase: blend the steering vectors into the velocity.  Cohesion is
/// added with its own weight; separation is subtracted, its y component
/// scaled by the alignment weight — a deliberate asymmetry, pinned by
/// the tests.
pub open spec fn spec_blend(b: BoidView, p: SimulationParameters) -> BoidView {
    let vx1 = sat64(b.velocity.x + sat64(tdiv(b.cohesion.x * p.weight_cohesion, SCALE as int)));
    let vy1 = sat64(b.velocity.y + sat64(tdiv(b.cohesion.y * p.weight_cohesion, SCALE as int)));
    let vx2 = sat64(vx1 - sat64(tdiv(b.separation.x * p.weight_separation, SCALE as int)));
    let vy2 = sat64(vy1 - sat64(tdiv(b.separation.y * p.weight_alignment, SCALE as int)));
    BoidView { velocity: Vec2View { x: vx2, y: vy2 }, ..b }
}

/// The global clamp on a weighted turn rate.
pub open spec fn clamp_omega(o: int) -> int {
    if o > MAX_OMEGA_MILLI {
        MAX_OMEGA_MILLI as int
    } else if o < -MAX_OMEGA_MILLI {
        -(MAX_OMEGA_MILLI as int)
    } else {
        o
    }
}

/// One weighted, clamped shear rotation of the velocity: the small-angle
/// stand-in for a true rotation by the turn increment.
pub open spec fn spec_shear(v: Vec2View, omega_raw: int, weight: i64) -> Vec2View {
    let o = clamp_omega(sat64(tdiv(omega_raw * weight, SCALE as int)));
    Vec2View {
        x: sat64(v.x + sat64(tdiv(o * v.y, SCALE as int))),
        y: sat64(v.y - sat64(tdiv(o * v.x, SCALE as int))),
    }
}

/// Third phase: apply the angular smoother for cohesion, separation and
/// alignment in that order, each shear reading the velocity the previous
/// one left.
pub open spec fn spec_turn(b: BoidView, p: SimulationParameters) -> BoidView {
    let b1 = BoidView {
        velocity: spec_shear(b.velocity, spec_smooth_angle(b, b.cohesion), p.weight_cohesion),
        ..b
    };
    let b2 = BoidView {
        velocity: spec_shear(
            b1.velocity,
            spec_smooth_angle(b1, b1.separation),
            p.weight_separation,
        ),
        ..b1
    };
    BoidView {
        velocity: spec_shear(
            b2.velocity,
            spec_smooth_angle(b2, b2.alignment),
            p.weight_alignment,
        ),
        ..b2
    }
}

/// Fourth phase: clamp the speed, integrate the position, derive the angle,
/// update the stagnation counter and apply the decay.
pub open spec fn spec_integrate(b: BoidView) -> BoidView {
    let v = spec_enforce(b.velocity);
    let counter: int = if v.x == 0 && v.y == 0 {
        if b.unchanged_angle < u32::MAX {
            b.unchanged_angle + 1
        } else {
            b.unchanged_angle
        }
    } else {
        0
    };
    spec_decay(
        BoidView {
            velocity: v,
            x: sat64(b.x + v.x),
            y: sat64(b.y + v.y),
            angle: spec_atan2(v.y, v.x),
            unchanged_angle: counter,
            ..b
        },
    )
}

/// One full tick for one boid, as a function of its previous state, the
/// snapshot of the flock, and the parameters.
pub open spec fn spec_step(b: BoidView, flock: Seq<BoidView>, p: SimulationParameters) -> BoidView {
    spec_integrate(spec_turn(spec_blend(spec_after_rules(b, flock, p), p), p))
}

/// After the clamp the squared speed never exceeds the square of `V_MAX`
/// (one quantum above the cap), and neither velocity component does.
pub proof fn lemma_enforce_bounds(v: Vec2View)
    ensures
        mag_sq(spec_enforce(v)) <= (V_MAX as int) * (V_MAX as int),
        iabs(spec_enforce(v).x) <= V_MAX,
        iabs(spec_enforce(v).y) <= V_MAX,
{
    lemma_square_nonneg(v.x);
    lemma_square_nonneg(v.y);
    lemma_sqrt_floor_bounds(mag_sq(v));
    let m = mag(v);
    let cap = MAX_BOID_SPEED_MILLI as int;
    let w = spec_enforce(v);
    let ax = iabs(v.x);
    let ay = iabs(v.y);
    if m > cap {
        lemma_tdiv_abs(v.x * cap, m);
        lemma_tdiv_abs(v.y * cap, m);
        lemma_abs_mul_pos(v.x, cap);
        lemma_abs_mul_pos(v.y, cap);
        lemma_component_le_mag(v);
        lemma_square_nonneg(w.x);
        lemma_square_nonneg(w.y);
        let qx = iabs(w.x);
        let qy = iabs(w.y);
        assert(qx * m <= ax * cap);
        assert(qy * m <= ay * cap);
        assert(qx * m >= 0 && qy * m >= 0) by (nonlinear_arith)
            requires
                qx >= 0,
                qy >= 0,
                m >= 0,
        ;
        lemma_square_le(qx * m, ax * cap);
        lemma_square_le(qy * m, ay * cap);
        assert((qx * m) * (qx * m) == (qx * qx) * (m * m)) by (nonlinear_arith);
        assert((qy * m) * (qy * m) == (qy * qy) * (m * m)) by (nonlinear_arith);
        assert((ax * cap) * (ax * cap) == (ax * ax) * (cap * cap)) by (nonlinear_arith);
        assert((ay * cap) * (ay * cap) == (ay * ay) * (cap * cap)) by (nonlinear_arith);
        assert((qx * qx + qy * qy) * (m * m) == (qx * qx) * (m * m) + (qy * qy) * (m * m))
            by (nonlinear_arith);
        assert((ax * ax + ay * ay) * (cap * cap) == (ax * ax) * (cap * cap) + (ay * ay) * (cap
            * cap)) by (nonlinear_arith);
        assert((m + 1) * (m + 1) == m * m + 2 * m + 1) by (nonlinear_arith);
        lemma_mul_le_right(ax * ax + ay * ay, m * m + 2 * m, cap * cap);
        assert((m * m + 2 * m) * (cap * cap) == (m * m) * (cap * cap) + 2 * m * (cap * cap))
            by (nonlinear_arith);
        assert(2 * m * (cap * cap) <= 2 * (m * m) * cap) by (nonlinear_arith)
            requires
                cap <= m,
                cap >= 0,
                m >= 0,
        ;
        assert((m * m) * (cap * cap) + 2 * (m * m) * cap == (cap * cap + 2 * cap) * (m * m))
            by (nonlinear_arith);
        assert(m * m >= 1) by (nonlinear_arith)
            requires
                m >= 1,
        ;
        lemma_cancel_right(qx * qx + qy * qy, cap * cap + 2 * cap, m * m);
        lemma_sqrt_le(qx, V_MAX as int);
        lemma_sqrt_le(qy, V_MAX as int);
    } else {
        lemma_square_le(m + 1, cap + 1);
        lemma_sqrt_le(ax, V_MAX as int);
        lemma_sqrt_le(ay, V_MAX as int);
    }
}

/// The stagnation decay never increases the squared speed.
pub proof fn lemma_decay_shrinks(v: Vec2View)
    ensures
        mag_sq(
            Vec2View { x: tdiv(v.x * 99, 100), y: tdiv(v.y * 99, 100) },
        ) <= mag_sq(v),
        iabs(tdiv(v.x * 99, 100)) <= iabs(v.x),
        iabs(tdiv(v.y * 99, 100)) <= iabs(v.y),
{
    lemma_tdiv_abs(v.x * 99, 100);
    lemma_tdiv_abs(v.y * 99, 100);
    lemma_abs_mul_pos(v.x, 99);
    lemma_abs_mul_pos(v.y, 99);
    let qx = iabs(tdiv(v.x * 99, 100));
    let qy = iabs(tdiv(v.y * 99, 100));
    let ax = iabs(v.x);
    let ay = iabs(v.y);
    assert(qx <= ax && qy <= ay) by (nonlinear_arith)
        requires
            qx * 100 <= ax * 99,
            qy * 100 <= ay * 99,
            qx >= 0,
            qy >= 0,
            ax >= 0,
            ay >= 0,
    ;
    lemma_square_le(qx, ax);
    lemma_square_le(qy, ay);
    lemma_square_nonneg(v.x);
    lemma_square_nonneg(v.y);
    lemma_square_nonneg(tdiv(v.x * 99, 100));
    lemma_square_nonneg(tdiv(v.y * 99, 100));
}

/// Absolute value within `i64` (the arguments in use are far from the
/// extreme where the true absolute value would not fit).
fn abs_i64(x: i64) -> (r: i64)
    requires
        x > i64::MIN,
    ensures
        r == iabs(x as int),
{
    if x >= 0 {
        x
    } else {
        -x
    }
}

} // verus!
