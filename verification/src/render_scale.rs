//! The discrete rules behind render transforms' scale handling: which scale axes make a draw
//! invalid or degenerate, and how each axis is sanitized before the matrix is built. The caller
//! classifies each floating-point axis; these rules decide from the classes.

use vstd::prelude::*;

verus! {

/// Class of one scale axis.
#[derive(Clone, Copy, Debug, PartialEq, Eq, Structural)]
pub enum ScaleAxisClass {
    /// Not a finite number.
    NonFinite,
    /// Finite with magnitude at most the minimum render scale.
    Collapsed,
    /// Finite with magnitude above the minimum render scale: contributes one dimension.
    Contributes,
}

/// How one axis enters the matrix.
#[derive(Clone, Copy, Debug, PartialEq, Eq, Structural)]
pub enum SanitizedAxis {
    /// Replaced by one.
    One,
    /// Replaced by zero.
    Zero,
    /// Kept as given.
    Keep,
}

/// Number of axes that contribute a dimension.
pub open spec fn contributing_axes(axes: [ScaleAxisClass; 3]) -> int {
    (if axes[0] == ScaleAxisClass::Contributes {
        1int
    } else {
        0int
    }) + (if axes[1] == ScaleAxisClass::Contributes {
        1int
    } else {
        0int
    }) + (if axes[2] == ScaleAxisClass::Contributes {
        1int
    } else {
        0int
    })
}

/// Some axis is not finite.
pub open spec fn has_non_finite_axis(axes: [ScaleAxisClass; 3]) -> bool {
    axes[0] == ScaleAxisClass::NonFinite || axes[1] == ScaleAxisClass::NonFinite || axes[2]
        == ScaleAxisClass::NonFinite
}

/// Whether a transform's scale carries non-finite data.
pub fn render_scale_is_invalid(axes: [ScaleAxisClass; 3]) -> (r: bool)
    ensures
        r == has_non_finite_axis(axes),
{
    axes[0] == ScaleAxisClass::NonFinite || axes[1] == ScaleAxisClass::NonFinite || axes[2]
        == ScaleAxisClass::NonFinite
}

/// Whether a transform's scale leaves fewer than two renderable dimensions (or is invalid).
pub fn render_scale_is_degenerate(axes: [ScaleAxisClass; 3]) -> (r: bool)
    ensures
        r == (has_non_finite_axis(axes) || contributing_axes(axes) < 2),
{
    if render_scale_is_invalid(axes) {
        return true;
    }
    let mut count: u8 = 0;
    if axes[0] == ScaleAxisClass::Contributes {
        count = count + 1;
    }
    if axes[1] == ScaleAxisClass::Contributes {
        count = count + 1;
    }
    if axes[2] == ScaleAxisClass::Contributes {
        count = count + 1;
    }
    count < 2
}

/// Sanitizing of one axis: non-finite becomes one, collapsed becomes zero.
pub open spec fn axis_plan(c: ScaleAxisClass) -> SanitizedAxis {
    match c {
        ScaleAxisClass::NonFinite => SanitizedAxis::One,
        ScaleAxisClass::Collapsed => SanitizedAxis::Zero,
        ScaleAxisClass::Contributes => SanitizedAxis::Keep,
    }
}

/// How each axis enters the matrix: a finite scale with no contributing axis becomes unit
/// scale; otherwise each axis is sanitized on its own.
pub open spec fn scale_plan(axes: [ScaleAxisClass; 3]) -> [SanitizedAxis; 3] {
    if !has_non_finite_axis(axes) && contributing_axes(axes) == 0 {
        [SanitizedAxis::One, SanitizedAxis::One, SanitizedAxis::One]
    } else {
        [axis_plan(axes[0]), axis_plan(axes[1]), axis_plan(axes[2])]
    }
}

fn sanitize_axis(c: ScaleAxisClass) -> (r: SanitizedAxis)
    ensures
        r == axis_plan(c),
{
    match c {
        ScaleAxisClass::NonFinite => SanitizedAxis::One,
        ScaleAxisClass::Collapsed => SanitizedAxis::Zero,
        ScaleAxisClass::Contributes => SanitizedAxis::Keep,
    }
}

/// Decides how each scale axis enters the render matrix.
pub fn sanitized_scale_plan(axes: [ScaleAxisClass; 3]) -> (r: [SanitizedAxis; 3])
    ensures
        r == scale_plan(axes),
{
    let contributes = axes[0] == ScaleAxisClass::Contributes || axes[1]
        == ScaleAxisClass::Contributes || axes[2] == ScaleAxisClass::Contributes;
    if !render_scale_is_invalid(axes) && !contributes {
        return [SanitizedAxis::One, SanitizedAxis::One, SanitizedAxis::One];
    }
    [sanitize_axis(axes[0]), sanitize_axis(axes[1]), sanitize_axis(axes[2])]
}

/// A draw whose scale is not degenerate keeps at least two axes of its scale unchanged.
pub proof fn lemma_non_degenerate_keeps_two_axes(axes: [ScaleAxisClass; 3])
    requires
        !(has_non_finite_axis(axes) || contributing_axes(axes) < 2),
    ensures
        (if scale_plan(axes)[0] == SanitizedAxis::Keep {
            1int
        } else {
            0int
        }) + (if scale_plan(axes)[1] == SanitizedAxis::Keep {
            1int
        } else {
            0int
        }) + (if scale_plan(axes)[2] == SanitizedAxis::Keep {
            1int
        } else {
            0int
        }) >= 2,
{
}

} // verus!
