//! The whole simulation: the boid population, the tunable parameters, and
//! the per-tick whole-population update.
//!
//! One tick updates every boid against a read-only snapshot of the flock
//! taken before any boid moves, so neighbor lookups never observe partial
//! results of the same tick: the next states are built into a fresh vector
//! and swapped in at the end.

use vstd::prelude::*;
use vstd::arithmetic::div_mod::lemma_mod_multiples_basic;
use crate::boid::{boid_wf, spec_new, spec_step, views, Boid, BoidView};
use crate::params::SimulationParameters;
use crate::fixed::SCALE;
use crate::trig::TWO_PI_MILLI;
use crate::{HEIGHT_MILLI, NB_BOIDS, WIDTH_MILLI};

verus! {

/// Every member is well formed and carries its index as id, so the
/// self-exclusion of the neighbor scan excludes exactly one member.
pub open spec fn flock_ok(boids: Seq<Boid>) -> bool {
    forall|i: int|
        0 <= i < boids.len() ==> boid_wf(#[trigger] boids[i]@) && boids[i]@.id == i
}

/// The simulation state: the population, the parameters, and the debug
/// flag the observation layer reads.
pub struct Flock {
    pub boids: Vec<Boid>,
    pub params: SimulationParameters,
    pub debug: bool,
}

/// What holds of every random outcome of one spawn draw: the boid is
/// exactly a fresh boid (`spec_new`) for some whole-unit position strictly
/// inside the domain and some heading within one full turn.
pub open spec fn spawned_boid(b: BoidView, i: int) -> bool {
    exists|x: int, y: int, a: int|
        {
            &&& 0 <= x <= WIDTH_MILLI - SCALE
            &&& x % (SCALE as int) == 0
            &&& 0 <= y <= HEIGHT_MILLI - SCALE
            &&& y % (SCALE as int) == 0
            &&& 0 <= a < TWO_PI_MILLI
            &&& b == #[trigger] spec_new(i, x, y, a)
        }
}

/// The field bounds every spawned boid satisfies, whatever the draw: a
/// whole-unit position strictly inside the domain, a heading within one
/// full turn, and a cleared stagnation counter.
pub open spec fn spawn_bounds(b: BoidView) -> bool {
    &&& 0 <= b.x <= WIDTH_MILLI - SCALE
    &&& b.x % (SCALE as int) == 0
    &&& 0 <= b.y <= HEIGHT_MILLI - SCALE
    &&& b.y % (SCALE as int) == 0
    &&& 0 <= b.angle < TWO_PI_MILLI
    &&& b.unchanged_angle == 0
}

/// Relies on rand's `thread_rng().gen_range(lo..hi)`: a value drawn from
/// the half-open range `[lo, hi)`, which panics only on an empty range.
/// Nothing more is assumed of the draw.
#[verifier::external_body]
fn random_in_range(lo: i64, hi: i64) -> (r: i64)
    requires
        lo < hi,
    ensures
        lo <= r < hi,
{
    rand::Rng::gen_range(&mut rand::thread_rng(), lo..hi)
}

/// One tick keeps a boid's identifier.
pub proof fn lemma_step_keeps_id(b: BoidView, flock: Seq<BoidView>, p: SimulationParameters)
    ensures
        spec_step(b, flock, p).id == b.id,
{
}

impl Flock {
    /// A fresh simulation: no boids yet, default parameters, debug off.
    pub fn new() -> (f: Flock)
        ensures
            f.boids@.len() == 0,
            crate::params::has_default_scalars(f.params),
            f.debug == false,
    {
        Flock { boids: Vec::new(), params: SimulationParameters::new(), debug: false }
    }

    /// Spawn the whole population: each boid at a uniformly random whole
    /// unit of the domain with a uniformly random heading, numbered in
    /// spawn order.
    pub fn load_boids(&mut self)
        requires
            old(self).boids@.len() == 0,
        ensures
            final(self).boids@.len() == NB_BOIDS,
            flock_ok(final(self).boids@),
            forall|i: int|
                0 <= i < NB_BOIDS ==> spawned_boid(#[trigger] final(self).boids@[i]@, i)
                    && spawn_bounds(final(self).boids@[i]@),
            final(self).params == old(self).params,
            final(self).debug == old(self).debug,
    {
        let mut ct: usize = 0;
        while ct < NB_BOIDS
            invariant
                self.boids@.len() == ct,
                ct <= NB_BOIDS,
                forall|i: int|
                    0 <= i < ct ==> boid_wf(#[trigger] self.boids@[i]@) && self.boids@[i]@.id == i,
                forall|i: int|
                    0 <= i < ct ==> spawned_boid(#[trigger] self.boids@[i]@, i) && spawn_bounds(
                        self.boids@[i]@,
                    ),
                self.params == old(self).params,
                self.debug == old(self).debug,
            decreases NB_BOIDS - ct,
        {
            let px: i64 = random_in_range(0, 1700);
            let py: i64 = random_in_range(0, 800);
            let angle: i64 = random_in_range(0, TWO_PI_MILLI);
            let b = Boid::new(ct as i64, px * SCALE, py * SCALE, angle);
            proof {
                lemma_mod_multiples_basic(px as int, SCALE as int);
                lemma_mod_multiples_basic(py as int, SCALE as int);
                assert(b@ == spec_new(
                    ct as int,
                    px as int * (SCALE as int),
                    py as int * (SCALE as int),
                    angle as int,
                ));
                assert(spawned_boid(b@, ct as int));
            }
            self.boids.push(b);
            ct = ct + 1;
        }
    }

    /// Respawn the population from scratch: same count, fresh random
    /// positions and headings.  The parameters are untouched.
    pub fn reset(&mut self)
        ensures
            final(self).boids@.len() == NB_BOIDS,
            flock_ok(final(self).boids@),
            forall|i: int|
                0 <= i < NB_BOIDS ==> spawned_boid(#[trigger] final(self).boids@[i]@, i)
                    && spawn_bounds(final(self).boids@[i]@),
            final(self).params == old(self).params,
            final(self).debug == old(self).debug,
    {
        self.boids = Vec::new();
        self.load_boids();
    }

    /// One simulation tick: every boid advances by `spec_step` against the
    /// snapshot of the flock as it stood when the tick began.
    pub fn update(&mut self)
        requires
            flock_ok(old(self).boids@),
        ensures
            final(self).boids@.len() == old(self).boids@.len(),
            forall|i: int|
                0 <= i < old(self).boids@.len() ==> #[trigger] final(self).boids@[i]@ == spec_step(
                    old(self).boids@[i]@,
                    views(old(self).boids@),
                    old(self).params,
                ),
            flock_ok(final(self).boids@),
            final(self).params == old(self).params,
            final(self).debug == old(self).debug,
    {
        let mut next: Vec<Boid> = Vec::new();
        let mut i: usize = 0;
        while i < self.boids.len()
            invariant
                *self == *old(self),
                flock_ok(self.boids@),
                i <= self.boids@.len(),
                next@.len() == i,
                forall|k: int|
                    0 <= k < i ==> #[trigger] next@[k]@ == spec_step(
                        self.boids@[k]@,
                        views(self.boids@),
                        self.params,
                    ) && boid_wf(next@[k]@) && next@[k]@.id == k,
            decreases self.boids@.len() - i,
        {
            let mut b = self.boids[i];
            b.update(&self.boids, &self.params);
            proof {
                lemma_step_keeps_id(self.boids@[i as int]@, views(self.boids@), self.params);
            }
            next.push(b);
            i = i + 1;
        }
        self.boids = next;
    }

    /// Switch the auxiliary diagnostic output on or off.
    pub fn set_debug(&mut self, on: bool)
        ensures
            final(self).debug == on,
            final(self).boids == old(self).boids,
            final(self).params == old(self).params,
    {
        self.debug = on;
    }
}

} // verus!
