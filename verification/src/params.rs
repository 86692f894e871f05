//! Tunable simulation parameters and the small controller that edits them.
//!
//! Each steering rule owns a weight, a radius and an edit-mode flag; the
//! input layer feeds `increase_value` / `decrease_value` / `toggle_mode`
//! commands into this controller.  Scalars are fixed-point thousandths and
//! are deliberately not range-checked: repeated commands may grow or shrink
//! them without bound (saturating only at the far ends of `i64`).  Rules are
//! identified by an enum, so a command can never name an unknown rule.

use vstd::prelude::*;
use crate::fixed::{sat64, sat_add, sat_mul, sat_sub};

verus! {

/// Default cohesion weight (0.3).
pub const DEFAULT_WEIGHT_COHESION: i64 = 300;

/// Default separation weight (0.9).
pub const DEFAULT_WEIGHT_SEPARATION: i64 = 900;

/// Default alignment weight (0.7).
pub const DEFAULT_WEIGHT_ALIGNMENT: i64 = 700;

/// Default cohesion radius (the flock size, 170 units).
pub const DEFAULT_RADIUS_COHESION: i64 = 170_000;

/// Default separation radius (20 units).
pub const DEFAULT_RADIUS_SEPARATION: i64 = 20_000;

/// Default alignment radius (200 units).
pub const DEFAULT_RADIUS_ALIGNMENT: i64 = 200_000;

/// The three steering rules.
#[derive(Clone, Copy, PartialEq, Eq, Structural, Debug)]
pub enum RuleKind {
    Cohesion,
    Separation,
    Alignment,
}

/// What an increase/decrease command edits for one rule.
#[derive(Clone, Copy, PartialEq, Eq, Structural, Debug)]
pub enum EditMode {
    Weight,
    Radius,
}

/// The six tunable scalars and the per-rule edit mode.
#[derive(Clone, Copy, PartialEq, Eq, Structural, Debug)]
pub struct SimulationParameters {
    pub weight_cohesion: i64,
    pub weight_separation: i64,
    pub weight_alignment: i64,
    pub radius_cohesion: i64,
    pub radius_separation: i64,
    pub radius_alignment: i64,
    pub mode_cohesion: EditMode,
    pub mode_separation: EditMode,
    pub mode_alignment: EditMode,
}

/// One scalar after a command: shifted (and saturated) when the command
/// addresses it, untouched otherwise.
pub open spec fn bumped(cur: i64, delta: int, addressed: bool) -> int {
    if addressed {
        sat64(cur + delta)
    } else {
        cur as int
    }
}

/// Whether the parameter block holds the compiled-in default scalars.
pub open spec fn has_default_scalars(p: SimulationParameters) -> bool {
    &&& p.weight_cohesion == DEFAULT_WEIGHT_COHESION
    &&& p.weight_separation == DEFAULT_WEIGHT_SEPARATION
    &&& p.weight_alignment == DEFAULT_WEIGHT_ALIGNMENT
    &&& p.radius_cohesion == DEFAULT_RADIUS_COHESION
    &&& p.radius_separation == DEFAULT_RADIUS_SEPARATION
    &&& p.radius_alignment == DEFAULT_RADIUS_ALIGNMENT
}

impl SimulationParameters {
    /// Fresh parameters: default scalars, every rule in radius-edit mode.
    pub fn new() -> (p: SimulationParameters)
        ensures
            has_default_scalars(p),
            p.mode_cohesion == EditMode::Radius,
            p.mode_separation == EditMode::Radius,
            p.mode_alignment == EditMode::Radius,
    {
        SimulationParameters {
            weight_cohesion: DEFAULT_WEIGHT_COHESION,
            weight_separation: DEFAULT_WEIGHT_SEPARATION,
            weight_alignment: DEFAULT_WEIGHT_ALIGNMENT,
            radius_cohesion: DEFAULT_RADIUS_COHESION,
            radius_separation: DEFAULT_RADIUS_SEPARATION,
            radius_alignment: DEFAULT_RADIUS_ALIGNMENT,
            mode_cohesion: EditMode::Radius,
            mode_separation: EditMode::Radius,
            mode_alignment: EditMode::Radius,
        }
    }

    /// The edit mode currently set for `rule`.
    pub open spec fn mode_of(self, rule: RuleKind) -> EditMode {
        match rule {
            RuleKind::Cohesion => self.mode_cohesion,
            RuleKind::Separation => self.mode_separation,
            RuleKind::Alignment => self.mode_alignment,
        }
    }

    /// Raise the addressed scalar: the rule's weight by `amount` when the
    /// rule is in weight mode, else its radius by ten times `amount`.
    pub fn increase_value(&mut self, rule: RuleKind, amount: i64)
        ensures
            final(self).weight_cohesion == bumped(
                old(self).weight_cohesion,
                amount as int,
                rule == RuleKind::Cohesion && old(self).mode_cohesion == EditMode::Weight,
            ),
            final(self).weight_separation == bumped(
                old(self).weight_separation,
                amount as int,
                rule == RuleKind::Separation && old(self).mode_separation == EditMode::Weight,
            ),
            final(self).weight_alignment == bumped(
                old(self).weight_alignment,
                amount as int,
                rule == RuleKind::Alignment && old(self).mode_alignment == EditMode::Weight,
            ),
            final(self).radius_cohesion == bumped(
                old(self).radius_cohesion,
                sat64(amount * 10),
                rule == RuleKind::Cohesion && old(self).mode_cohesion == EditMode::Radius,
            ),
            final(self).radius_separation == bumped(
                old(self).radius_separation,
                sat64(amount * 10),
                rule == RuleKind::Separation && old(self).mode_separation == EditMode::Radius,
            ),
            final(self).radius_alignment == bumped(
                old(self).radius_alignment,
                sat64(amount * 10),
                rule == RuleKind::Alignment && old(self).mode_alignment == EditMode::Radius,
            ),
            final(self).mode_cohesion == old(self).mode_cohesion,
            final(self).mode_separation == old(self).mode_separation,
            final(self).mode_alignment == old(self).mode_alignment,
    {
        match rule {
            RuleKind::Cohesion => {
                if self.mode_cohesion == EditMode::Weight {
                    self.weight_cohesion = sat_add(self.weight_cohesion, amount);
                } else {
                    self.radius_cohesion = sat_add(self.radius_cohesion, sat_mul(amount, 10));
                }
            },
            RuleKind::Separation => {
                if self.mode_separation == EditMode::Weight {
                    self.weight_separation = sat_add(self.weight_separation, amount);
                } else {
                    self.radius_separation = sat_add(self.radius_separation, sat_mul(amount, 10));
                }
            },
            RuleKind::Alignment => {
                if self.mode_alignment == EditMode::Weight {
                    self.weight_alignment = sat_add(self.weight_alignment, amount);
                } else {
                    self.radius_alignment = sat_add(self.radius_alignment, sat_mul(amount, 10));
                }
            },
        }
    }

    /// Lower the addressed scalar; the mirror image of `increase_value`.
    pub fn decrease_value(&mut self, rule: RuleKind, amount: i64)
        ensures
            final(self).weight_cohesion == bumped(
                old(self).weight_cohesion,
                -(amount as int),
                rule == RuleKind::Cohesion && old(self).mode_cohesion == EditMode::Weight,
            ),
            final(self).weight_separation == bumped(
                old(self).weight_separation,
                -(amount as int),
                rule == RuleKind::Separation && old(self).mode_separation == EditMode::Weight,
            ),
            final(self).weight_alignment == bumped(
                old(self).weight_alignment,
                -(amount as int),
                rule == RuleKind::Alignment && old(self).mode_alignment == EditMode::Weight,
            ),
            final(self).radius_cohesion == bumped(
                old(self).radius_cohesion,
                -sat64(amount * 10),
                rule == RuleKind::Cohesion && old(self).mode_cohesion == EditMode::Radius,
            ),
            final(self).radius_separation == bumped(
                old(self).radius_separation,
                -sat64(amount * 10),
                rule == RuleKind::Separation && old(self).mode_separation == EditMode::Radius,
            ),
            final(self).radius_alignment == bumped(
                old(self).radius_alignment,
                -sat64(amount * 10),
                rule == RuleKind::Alignment && old(self).mode_alignment == EditMode::Radius,
            ),
            final(self).mode_cohesion == old(self).mode_cohesion,
            final(self).mode_separation == old(self).mode_separation,
            final(self).mode_alignment == old(self).mode_alignment,
    {
        match rule {
            RuleKind::Cohesion => {
                if self.mode_cohesion == EditMode::Weight {
                    self.weight_cohesion = sat_sub(self.weight_cohesion, amount);
                } else {
                    self.radius_cohesion = sat_sub(self.radius_cohesion, sat_mul(amount, 10));
                }
            },
            RuleKind::Separation => {
                if self.mode_separation == EditMode::Weight {
                    self.weight_separation = sat_sub(self.weight_separation, amount);
                } else {
                    self.radius_separation = sat_sub(self.radius_separation, sat_mul(amount, 10));
                }
            },
            RuleKind::Alignment => {
                if self.mode_alignment == EditMode::Weight {
                    self.weight_alignment = sat_sub(self.weight_alignment, amount);
                } else {
                    self.radius_alignment = sat_sub(self.radius_alignment, sat_mul(amount, 10));
                }
            },
        }
    }

    /// Flip the weight/radius edit mode of one rule, leaving everything else
    /// untouched.
    pub fn toggle_mode(&mut self, rule: RuleKind)
        ensures
            final(self).mode_cohesion == (if rule == RuleKind::Cohesion {
                flipped(old(self).mode_cohesion)
            } else {
                old(self).mode_cohesion
            }),
            final(self).mode_separation == (if rule == RuleKind::Separation {
                flipped(old(self).mode_separation)
            } else {
                old(self).mode_separation
            }),
            final(self).mode_alignment == (if rule == RuleKind::Alignment {
                flipped(old(self).mode_alignment)
            } else {
                old(self).mode_alignment
            }),
            final(self).weight_cohesion == old(self).weight_cohesion,
            final(self).weight_separation == old(self).weight_separation,
            final(self).weight_alignment == old(self).weight_alignment,
            final(self).radius_cohesion == old(self).radius_cohesion,
            final(self).radius_separation == old(self).radius_separation,
            final(self).radius_alignment == old(self).radius_alignment,
    {
        match rule {
            RuleKind::Cohesion => {
                self.mode_cohesion = flip_mode(self.mode_cohesion);
            },
            RuleKind::Separation => {
                self.mode_separation = flip_mode(self.mode_separation);
            },
            RuleKind::Alignment => {
                self.mode_alignment = flip_mode(self.mode_alignment);
            },
        }
    }

    /// Restore the six scalars to their compiled-in defaults; the edit modes
    /// and the boid population are not touched.
    pub fn reset_parameters(&mut self)
        ensures
            has_default_scalars(*final(self)),
            final(self).mode_cohesion == old(self).mode_cohesion,
            final(self).mode_separation == old(self).mode_separation,
            final(self).mode_alignment == old(self).mode_alignment,
    {
        self.weight_cohesion = DEFAULT_WEIGHT_COHESION;
        self.weight_separation = DEFAULT_WEIGHT_SEPARATION;
        self.weight_alignment = DEFAULT_WEIGHT_ALIGNMENT;
        self.radius_cohesion = DEFAULT_RADIUS_COHESION;
        self.radius_separation = DEFAULT_RADIUS_SEPARATION;
        self.radius_alignment = DEFAULT_RADIUS_ALIGNMENT;
    }
}

/// The other edit mode.
pub open spec fn flipped(m: EditMode) -> EditMode {
    match m {
        EditMode::Weight => EditMode::Radius,
        EditMode::Radius => EditMode::Weight,
    }
}

/// Executable counterpart of `flipped`.
pub fn flip_mode(m: EditMode) -> (r: EditMode)
    ensures
        r == flipped(m),
{
    match m {
        EditMode::Weight => EditMode::Radius,
        EditMode::Radius => EditMode::Weight,
    }
}

} // verus!
