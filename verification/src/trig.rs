//! Trigonometry over fixed-point scalars, supplied by the `cordic` crate.
//!
//! The values of cosine, sine and arc-tangent are pure functions of their
//! fixed-point arguments, computed by integer-only CORDIC iterations with
//! static tables, so each is given a name here; nothing else is assumed
//! about them, and callers clamp the results into the range they need.

use vstd::prelude::*;
use crate::fp::FP_TAU;

verus! {

/// Cosine of an angle in fixed-point radians, as `cordic::cos` returns it.
pub uninterp spec fn cos_of(angle: i64) -> i64;

/// Sine of an angle in fixed-point radians, as `cordic::sin` returns it.
pub uninterp spec fn sin_of(angle: i64) -> i64;

/// Arc-tangent of `y / x` with quadrant correction, in fixed-point
/// radians, as `cordic::atan2` returns it.
pub uninterp spec fn atan2_of(y: i64, x: i64) -> i64;

/// Relies on `cordic::cos` on a fixed-point number with 16 fractional
/// bits: the result depends on the angle bits alone. The bounds are
/// backed by the crate's own comprehensive accuracy test, which runs
/// cos and sin over every 16-fractional-bit input of magnitude below
/// 16.0 — strictly containing the admitted range `[0, 2*pi]` — and
/// asserts error at most 0.001 against f64; 0.001 of one unit is 66
/// bits, and the squared-norm window below keeps almost a threefold
/// margin over that.
#[verifier::external_body]
pub(crate) fn cordic_cos(angle: i64) -> (r: i64)
    requires
        0 <= angle && angle <= FP_TAU,
    ensures
        r == cos_of(angle),
        -65602 <= r && r <= 65602,
        4260607558 <= r * r + sin_of(angle) * sin_of(angle) && r * r + sin_of(angle) * sin_of(
            angle,
        ) <= 4329327034,
{
    cordic::cos(fixed::FixedI64::<fixed::types::extra::U16>::from_bits(angle)).to_bits()
}

/// Relies on `cordic::sin` on a fixed-point number with 16 fractional
/// bits: the result depends on the angle bits alone; the range bound is
/// backed by the same comprehensive accuracy test as for the cosine.
#[verifier::external_body]
pub(crate) fn cordic_sin(angle: i64) -> (r: i64)
    requires
        0 <= angle && angle <= FP_TAU,
    ensures
        r == sin_of(angle),
        -65602 <= r && r <= 65602,
{
    cordic::sin(fixed::FixedI64::<fixed::types::extra::U16>::from_bits(angle)).to_bits()
}

/// Relies on `cordic::atan2` on fixed-point numbers with 16 fractional
/// bits: the result depends on the two arguments alone, and for `y == 0`
/// with `x > 0` its source returns exactly zero. (For `x == 0` the
/// source answers pi/2 before it looks at `y`, so nothing is claimed
/// there.)
#[verifier::external_body]
pub(crate) fn cordic_atan2(y: i64, x: i64) -> (r: i64)
    requires
        -0x4000_0000 <= y && y <= 0x4000_0000,
        -0x4000_0000 <= x && x <= 0x4000_0000,
    ensures
        r == atan2_of(y, x),
        y == 0 && x > 0 ==> r == 0,
{
    cordic::atan2(
        fixed::FixedI64::<fixed::types::extra::U16>::from_bits(y),
        fixed::FixedI64::<fixed::types::extra::U16>::from_bits(x),
    ).to_bits()
}

} // verus!
