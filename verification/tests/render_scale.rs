use renderide::render_scale::{
    render_scale_is_degenerate, render_scale_is_invalid, sanitized_scale_plan, SanitizedAxis,
    ScaleAxisClass,
};

use ScaleAxisClass::{Collapsed, Contributes, NonFinite};

#[test]
fn unit_scale_is_not_degenerate() {
    assert!(!render_scale_is_degenerate([Contributes, Contributes, Contributes]));
    assert!(!render_scale_is_invalid([Contributes, Contributes, Contributes]));
}

#[test]
fn one_collapsed_axis_is_not_degenerate() {
    assert!(!render_scale_is_degenerate([Contributes, Collapsed, Contributes]));
}

#[test]
fn two_collapsed_axes_are_degenerate() {
    assert!(render_scale_is_degenerate([Collapsed, Collapsed, Contributes]));
}

#[test]
fn non_finite_axis_is_invalid_and_degenerate() {
    assert!(render_scale_is_invalid([Contributes, NonFinite, Contributes]));
    assert!(render_scale_is_degenerate([Contributes, NonFinite, Contributes]));
}

#[test]
fn all_collapsed_finite_scale_becomes_unit() {
    assert_eq!(
        sanitized_scale_plan([Collapsed, Collapsed, Collapsed]),
        [SanitizedAxis::One, SanitizedAxis::One, SanitizedAxis::One]
    );
}

#[test]
fn axes_are_sanitized_one_by_one() {
    assert_eq!(
        sanitized_scale_plan([Contributes, Collapsed, NonFinite]),
        [SanitizedAxis::Keep, SanitizedAxis::Zero, SanitizedAxis::One]
    );
    assert_eq!(
        sanitized_scale_plan([NonFinite, Collapsed, Collapsed]),
        [SanitizedAxis::One, SanitizedAxis::Zero, SanitizedAxis::Zero]
    );
}

#[test]
fn non_degenerate_scale_keeps_two_axes() {
    let plan = sanitized_scale_plan([Contributes, Contributes, Collapsed]);
    assert!(!render_scale_is_degenerate([Contributes, Contributes, Collapsed]));
    assert_eq!(plan.iter().filter(|a| **a == SanitizedAxis::Keep).count(), 2);
}
