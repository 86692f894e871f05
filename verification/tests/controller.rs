//! The parameter controller: weight/radius editing, mode toggling, and the
//! reset to compiled-in defaults.

use boids::params::{EditMode, RuleKind, SimulationParameters};

#[test]
fn defaults_match_the_compiled_constants() {
    let p = SimulationParameters::new();
    assert_eq!(p.weight_cohesion, 300);
    assert_eq!(p.weight_separation, 900);
    assert_eq!(p.weight_alignment, 700);
    assert_eq!(p.radius_cohesion, 170_000);
    assert_eq!(p.radius_separation, 20_000);
    assert_eq!(p.radius_alignment, 200_000);
    assert_eq!(p.mode_cohesion, EditMode::Radius);
    assert_eq!(p.mode_separation, EditMode::Radius);
    assert_eq!(p.mode_alignment, EditMode::Radius);
}

#[test]
fn radius_mode_scales_the_step_by_ten() {
    let mut p = SimulationParameters::new();
    p.increase_value(RuleKind::Cohesion, 100);
    assert_eq!(p.radius_cohesion, 171_000);
    assert_eq!(p.weight_cohesion, 300);
    p.decrease_value(RuleKind::Cohesion, 100);
    assert_eq!(p.radius_cohesion, 170_000);
}

#[test]
fn weight_mode_uses_the_step_directly() {
    let mut p = SimulationParameters::new();
    p.toggle_mode(RuleKind::Separation);
    assert_eq!(p.mode_separation, EditMode::Weight);
    p.increase_value(RuleKind::Separation, 100);
    assert_eq!(p.weight_separation, 1000);
    assert_eq!(p.radius_separation, 20_000);
    p.decrease_value(RuleKind::Separation, 250);
    assert_eq!(p.weight_separation, 750);
}

#[test]
fn commands_touch_only_the_addressed_rule() {
    let mut p = SimulationParameters::new();
    p.increase_value(RuleKind::Alignment, 50);
    assert_eq!(p.radius_alignment, 200_500);
    assert_eq!(p.radius_cohesion, 170_000);
    assert_eq!(p.radius_separation, 20_000);
    p.toggle_mode(RuleKind::Alignment);
    assert_eq!(p.mode_cohesion, EditMode::Radius);
    assert_eq!(p.mode_separation, EditMode::Radius);
    assert_eq!(p.mode_alignment, EditMode::Weight);
}

#[test]
fn toggling_twice_restores_the_mode() {
    let mut p = SimulationParameters::new();
    p.toggle_mode(RuleKind::Cohesion);
    p.toggle_mode(RuleKind::Cohesion);
    assert_eq!(p.mode_cohesion, EditMode::Radius);
}

#[test]
fn values_may_go_negative_without_bounds() {
    let mut p = SimulationParameters::new();
    p.decrease_value(RuleKind::Separation, 10_000);
    assert_eq!(p.radius_separation, -80_000);
    p.toggle_mode(RuleKind::Separation);
    p.decrease_value(RuleKind::Separation, 5_000);
    assert_eq!(p.weight_separation, -4_100);
}

#[test]
fn reset_restores_scalars_but_not_modes() {
    let mut p = SimulationParameters::new();
    p.toggle_mode(RuleKind::Cohesion);
    p.increase_value(RuleKind::Cohesion, 77);
    p.decrease_value(RuleKind::Alignment, 10);
    p.reset_parameters();
    assert_eq!(p.weight_cohesion, 300);
    assert_eq!(p.radius_alignment, 200_000);
    assert_eq!(p.mode_cohesion, EditMode::Weight);
}

#[test]
fn extreme_steps_saturate_instead_of_overflowing() {
    let mut p = SimulationParameters::new();
    p.toggle_mode(RuleKind::Cohesion);
    p.increase_value(RuleKind::Cohesion, i64::MAX);
    assert_eq!(p.weight_cohesion, i64::MAX);
    p.decrease_value(RuleKind::Cohesion, i64::MAX);
    assert_eq!(p.weight_cohesion, 0);
    p.decrease_value(RuleKind::Cohesion, i64::MAX);
    p.decrease_value(RuleKind::Cohesion, i64::MAX);
    assert_eq!(p.weight_cohesion, i64::MIN);
}
