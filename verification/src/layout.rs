//! The circular layout engine: each node is placed on a circle around a
//! center, the i-th of n nodes at angle 2*pi*i/n.
//!
//! The four quarter turns (angle 0, pi/2, pi and 3*pi/2) are placed
//! exactly on the axes; every other angle goes through the fixed-point
//! trigonometry, with cosine and sine clamped into `[-1, 1]`.

use vstd::prelude::*;
use crate::fp::{
    clamp, lemma_scale_div_bound, lemma_scale_div_error, scale_div, spec_clamp, spec_scale_div,
    COORD_LIMIT, FP_ONE, FP_TAU,
};
use crate::geometry::{point_in_range, Point};
use crate::model::GraphModel;
use crate::trig::{cordic_cos, cordic_sin, cos_of, sin_of};

verus! {

/// The fixed-point angle assigned to node i of n: 2*pi*i/n, rounded down.
pub open spec fn spec_node_angle(i: int, n: int) -> int {
    (FP_TAU * i) / n
}

/// The x part of the unit direction for node i of n: exact on the four
/// quarter turns, elsewhere the clamped fixed-point cosine.
pub open spec fn spec_unit_x(i: int, n: int) -> int {
    if (4 * i) % n == 0 {
        let q = (4 * i) / n;
        if q == 0 {
            FP_ONE as int
        } else if q == 1 {
            0
        } else if q == 2 {
            -(FP_ONE as int)
        } else {
            0
        }
    } else {
        spec_clamp(cos_of(spec_node_angle(i, n) as i64) as int, FP_ONE as int)
    }
}

/// The y part of the unit direction for node i of n: exact on the four
/// quarter turns, elsewhere the clamped fixed-point sine.
pub open spec fn spec_unit_y(i: int, n: int) -> int {
    if (4 * i) % n == 0 {
        let q = (4 * i) / n;
        if q == 1 {
            FP_ONE as int
        } else if q == 3 {
            -(FP_ONE as int)
        } else {
            0
        }
    } else {
        spec_clamp(sin_of(spec_node_angle(i, n) as i64) as int, FP_ONE as int)
    }
}

/// The position of node i of n: the center advanced by radius along the
/// node's unit direction.
pub open spec fn spec_node_position(i: int, n: int, center: Point, radius: i64) -> Point {
    Point {
        x: (center.x + spec_scale_div(spec_unit_x(i, n), radius as int, FP_ONE as int)) as i64,
        y: (center.y + spec_scale_div(spec_unit_y(i, n), radius as int, FP_ONE as int)) as i64,
    }
}

/// Squared-norm tolerance of the trigonometric unit vector, in squared
/// scalar units: the window the trigonometry's own accuracy test backs
/// (0.001 of a unit per component), widened for the clamping step and
/// rounded up.
pub const TRIG_NORM_TOL: i64 = 60000000;

/// The point lies on the circle within tolerance: its squared distance
/// from the center, times one squared, stays within `radius^2 * tol`
/// plus the rounding of one truncating division per axis. Dividing
/// through, the distance differs from the radius by well under a pixel
/// at the canvas sizes in range.
pub open spec fn spec_on_circle_within(p: Point, center: Point, radius: i64, tol: int) -> bool {
    let one_sq = (FP_ONE as int) * (FP_ONE as int);
    let r = radius as int;
    let dx = p.x - center.x;
    let dy = p.y - center.y;
    &&& r * r * (one_sq - tol) - 4 * r * one_sq <= one_sq * (dx * dx + dy * dy)
    &&& one_sq * (dx * dx + dy * dy) <= r * r * (one_sq + tol) + 4 * r * one_sq + 2 * one_sq
}

/// Scaling a near-unit vector by the radius lands near the circle: if
/// `(ux, uy)` has squared norm within `tol` of one, the truncating
/// scaled offsets satisfy the squared-distance window of
/// `spec_on_circle_within`.
proof fn lemma_scaled_near_unit(ux: int, uy: int, radius: i64, tol: int)
    requires
        -(FP_ONE as int) <= ux && ux <= FP_ONE as int,
        -(FP_ONE as int) <= uy && uy <= FP_ONE as int,
        0 <= tol,
        (FP_ONE as int) * (FP_ONE as int) - tol <= ux * ux + uy * uy,
        ux * ux + uy * uy <= (FP_ONE as int) * (FP_ONE as int) + tol,
        0 <= radius && radius <= COORD_LIMIT,
    ensures
        ({
            let one = FP_ONE as int;
            let r = radius as int;
            let dx = spec_scale_div(ux, r, one);
            let dy = spec_scale_div(uy, r, one);
            &&& r * r * (one * one - tol) - 4 * r * (one * one) <= (one * one) * (dx * dx + dy
                * dy)
            &&& (one * one) * (dx * dx + dy * dy) <= r * r * (one * one + tol) + 4 * r * (one
                * one) + 2 * (one * one)
        }),
{
    let one = FP_ONE as int;
    let r = radius as int;
    let dx = spec_scale_div(ux, r, one);
    let dy = spec_scale_div(uy, r, one);
    lemma_scale_div_error(ux, r, one);
    lemma_scale_div_error(uy, r, one);
    let e1 = one * dx - ux * r;
    let e2 = one * dy - uy * r;
    assert(-one < e1 && e1 < one && -one < e2 && e2 < one);
    let a1 = one * dx;
    let x1 = ux * r;
    assert(a1 * a1 == x1 * x1 + 2 * x1 * e1 + e1 * e1) by (nonlinear_arith)
        requires
            a1 == x1 + e1,
    ;
    assert((one * one) * (dx * dx) == a1 * a1) by (nonlinear_arith)
        requires
            a1 == one * dx,
    ;
    assert(x1 * x1 == (ux * ux) * (r * r)) by (nonlinear_arith)
        requires
            x1 == ux * r,
    ;
    assert(2 * x1 * e1 == 2 * r * (ux * e1)) by (nonlinear_arith)
        requires
            x1 == ux * r,
    ;
    assert((one * one) * (dx * dx) == (ux * ux) * (r * r) + 2 * r * (ux * e1) + e1 * e1);
    let a2 = one * dy;
    let x2 = uy * r;
    assert(a2 * a2 == x2 * x2 + 2 * x2 * e2 + e2 * e2) by (nonlinear_arith)
        requires
            a2 == x2 + e2,
    ;
    assert((one * one) * (dy * dy) == a2 * a2) by (nonlinear_arith)
        requires
            a2 == one * dy,
    ;
    assert(x2 * x2 == (uy * uy) * (r * r)) by (nonlinear_arith)
        requires
            x2 == uy * r,
    ;
    assert(2 * x2 * e2 == 2 * r * (uy * e2)) by (nonlinear_arith)
        requires
            x2 == uy * r,
    ;
    assert((one * one) * (dy * dy) == (uy * uy) * (r * r) + 2 * r * (uy * e2) + e2 * e2);
    assert((one * one) * (dx * dx + dy * dy) == (one * one) * (dx * dx) + (one * one) * (dy * dy))
        by (nonlinear_arith);
    assert((ux * ux + uy * uy) * (r * r) == (ux * ux) * (r * r) + (uy * uy) * (r * r))
        by (nonlinear_arith);
    assert(2 * r * (ux * e1 + uy * e2) == 2 * r * (ux * e1) + 2 * r * (uy * e2))
        by (nonlinear_arith);
    assert((one * one) * (dx * dx + dy * dy) == (ux * ux + uy * uy) * (r * r) + 2 * r * (ux * e1
        + uy * e2) + (e1 * e1 + e2 * e2));
    assert(-4 * r * (one * one) <= 2 * r * (ux * e1 + uy * e2) && 2 * r * (ux * e1 + uy * e2)
        <= 4 * r * (one * one)) by (nonlinear_arith)
        requires
            -one <= ux && ux <= one,
            -one <= uy && uy <= one,
            -one < e1 && e1 < one,
            -one < e2 && e2 < one,
            0 <= r,
    ;
    assert(0 <= e1 * e1 + e2 * e2 && e1 * e1 + e2 * e2 <= 2 * (one * one)) by (nonlinear_arith)
        requires
            -one < e1 && e1 < one,
            -one < e2 && e2 < one,
            one >= 1,
    ;
    assert(r * r * (one * one - tol) <= (ux * ux + uy * uy) * (r * r) && (ux * ux + uy * uy) * (r
        * r) <= r * r * (one * one + tol)) by (nonlinear_arith)
        requires
            one * one - tol <= ux * ux + uy * uy,
            ux * ux + uy * uy <= one * one + tol,
            0 <= r,
    ;
}

/// Compute the position of node `i` of `n` on the circle.
fn node_position(i: usize, n: usize, center: Point, radius: i64) -> (p: Point)
    requires
        i < n,
        n <= 0xFFFF_FFFE,
        point_in_range(center),
        0 <= radius && radius <= COORD_LIMIT,
    ensures
        p == spec_node_position(i as int, n as int, center, radius),
        spec_on_circle_within(p, center, radius, TRIG_NORM_TOL as int),
{
    let quad_num: u64 = 4 * (i as u64);
    let rem: u64 = quad_num % (n as u64);
    let (ux, uy): (i64, i64) = if rem == 0 {
        let q: u64 = quad_num / (n as u64);
        proof {
            assert(4 * (i as int) < (n as int) * 4) by (nonlinear_arith)
                requires
                    i < n,
            ;
            vstd::arithmetic::div_mod::lemma_multiply_divide_lt(
                4 * (i as int),
                n as int,
                4,
            );
        }
        if q == 0 {
            (FP_ONE, 0)
        } else if q == 1 {
            (0, FP_ONE)
        } else if q == 2 {
            (-FP_ONE, 0)
        } else {
            (0, -FP_ONE)
        }
    } else {
        let a_num: u64 = (FP_TAU as u64) * (i as u64);
        proof {
            assert((FP_TAU as u64) * (i as u64) <= 411775u64 * 0xFFFF_FFFEu64) by (nonlinear_arith)
                requires
                    i as u64 <= 0xFFFF_FFFEu64,
            ;
            assert(FP_TAU * (i as int) <= FP_TAU * (n as int)) by (nonlinear_arith)
                requires
                    i < n,
            ;
            vstd::arithmetic::div_mod::lemma_div_is_ordered(
                FP_TAU * (i as int),
                FP_TAU * (n as int),
                n as int,
            );
            vstd::arithmetic::div_mod::lemma_div_by_multiple(FP_TAU as int, n as int);
            vstd::arithmetic::div_mod::lemma_div_pos_is_pos(FP_TAU * (i as int), n as int);
        }
        let angle: i64 = (a_num / (n as u64)) as i64;
        let c_raw: i64 = cordic_cos(angle);
        let s_raw: i64 = cordic_sin(angle);
        let c: i64 = clamp(c_raw, FP_ONE);
        let s: i64 = clamp(s_raw, FP_ONE);
        proof {
            assert((c as int) * (c as int) <= (c_raw as int) * (c_raw as int) && (c_raw as int)
                * (c_raw as int) - (c as int) * (c as int) <= 8655108) by (nonlinear_arith)
                requires
                    -65602 <= c_raw && c_raw <= 65602,
                    c as int == (if c_raw > 65536 {
                        65536
                    } else if c_raw < -65536 {
                        -65536
                    } else {
                        c_raw as int
                    }),
            ;
            assert((s as int) * (s as int) <= (s_raw as int) * (s_raw as int) && (s_raw as int)
                * (s_raw as int) - (s as int) * (s as int) <= 8655108) by (nonlinear_arith)
                requires
                    -65602 <= s_raw && s_raw <= 65602,
                    s as int == (if s_raw > 65536 {
                        65536
                    } else if s_raw < -65536 {
                        -65536
                    } else {
                        s_raw as int
                    }),
            ;
        }
        (c, s)
    };
    proof {
        if (4 * (i as int)) % (n as int) == 0 {
            assert(ux * ux + uy * uy == (FP_ONE as int) * (FP_ONE as int)) by (nonlinear_arith)
                requires
                    (ux == FP_ONE && uy == 0) || (ux == 0 && uy == FP_ONE) || (ux == -FP_ONE
                        && uy == 0) || (ux == 0 && uy == -FP_ONE),
            ;
        }
        assert((FP_ONE as int) * (FP_ONE as int) - TRIG_NORM_TOL <= ux * ux + uy * uy && ux * ux
            + uy * uy <= (FP_ONE as int) * (FP_ONE as int) + TRIG_NORM_TOL);
        lemma_scaled_near_unit(ux as int, uy as int, radius, TRIG_NORM_TOL as int);
        lemma_scale_div_bound(ux as int, radius as int, FP_ONE as int);
        lemma_scale_div_bound(uy as int, radius as int, FP_ONE as int);
        assert(ux * radius <= 0x1_0000 * 0x2000_0000 && (-ux) * radius <= 0x1_0000 * 0x2000_0000
            && uy * radius <= 0x1_0000 * 0x2000_0000 && (-uy) * radius <= 0x1_0000
            * 0x2000_0000) by (nonlinear_arith)
            requires
                -0x1_0000 <= ux && ux <= 0x1_0000,
                -0x1_0000 <= uy && uy <= 0x1_0000,
                0 <= radius && radius <= 0x2000_0000,
        ;
    }
    let px: i64 = center.x + scale_div(ux, radius as u64, FP_ONE as u64);
    let py: i64 = center.y + scale_div(uy, radius as u64, FP_ONE as u64);
    Point { x: px, y: py }
}

/// Assign every node a position on the circle of the given center and
/// radius: exactly one position per node, the i-th node of n at angle
/// 2*pi*i/n, and every position on the circle within the trigonometric
/// tolerance. A graph with no nodes yields an empty mapping.
pub fn layout(g: &GraphModel, center: Point, radius: i64) -> (pos: Vec<Point>)
    requires
        g.wf(),
        point_in_range(center),
        0 <= radius && radius <= COORD_LIMIT,
    ensures
        pos@.len() == g.nodes().len(),
        forall|i: int|
            0 <= i < pos@.len() ==> pos@[i] == spec_node_position(
                i,
                g.nodes().len() as int,
                center,
                radius,
            ),
        forall|i: int|
            0 <= i < pos@.len() ==> spec_on_circle_within(
                #[trigger] pos@[i],
                center,
                radius,
                TRIG_NORM_TOL as int,
            ),
{
    let n: usize = g.node_count();
    let mut pos: Vec<Point> = Vec::new();
    let mut i: usize = 0;
    while i < n
        invariant
            i <= n,
            n == g.nodes().len(),
            n <= 0xFFFF_FFFE,
            point_in_range(center),
            0 <= radius && radius <= COORD_LIMIT,
            pos@.len() == i,
            forall|j: int|
                0 <= j < i ==> pos@[j] == spec_node_position(j, n as int, center, radius),
            forall|j: int|
                0 <= j < i ==> spec_on_circle_within(
                    #[trigger] pos@[j],
                    center,
                    radius,
                    TRIG_NORM_TOL as int,
                ),
        decreases n - i,
    {
        let p = node_position(i, n, center, radius);
        pos.push(p);
        i = i + 1;
    }
    pos
}

/// On the four quarter turns the computed position is exact: the center
/// advanced by exactly the radius along the axis the turn points to. In
/// particular the first node always sits at angle zero, due east of the
/// center, and the second of two nodes sits due west.
pub proof fn lemma_quarter_positions_exact(i: int, n: int, center: Point, radius: i64)
    requires
        0 <= i < n,
        (4 * i) % n == 0,
        0 <= radius && radius <= COORD_LIMIT,
        point_in_range(center),
    ensures
        ({
            let p = spec_node_position(i, n, center, radius);
            let q = (4 * i) / n;
            &&& (q == 0 ==> p == (Point { x: (center.x + radius) as i64, y: center.y }))
            &&& (q == 1 ==> p == (Point { x: center.x, y: (center.y + radius) as i64 }))
            &&& (q == 2 ==> p == (Point { x: (center.x - radius) as i64, y: center.y }))
            &&& (q == 3 ==> p == (Point { x: center.x, y: (center.y - radius) as i64 }))
        }),
{
    assert(4 * i < n * 4) by (nonlinear_arith)
        requires
            0 <= i < n,
    ;
    vstd::arithmetic::div_mod::lemma_multiply_divide_lt(4 * i, n, 4);
    vstd::arithmetic::div_mod::lemma_div_pos_is_pos(4 * i, n);
    let r = radius as int;
    assert(spec_scale_div(FP_ONE as int, r, FP_ONE as int) == r && spec_scale_div(
        -(FP_ONE as int),
        r,
        FP_ONE as int,
    ) == -r && spec_scale_div(0, r, FP_ONE as int) == 0) by {
        vstd::arithmetic::div_mod::lemma_div_by_multiple(r, FP_ONE as int);
        assert(FP_ONE * r == r * FP_ONE) by (nonlinear_arith);
        vstd::arithmetic::div_mod::lemma_div_of0(FP_ONE as int);
    };
}

/// On the four quarter turns the computed position lies exactly on the
/// circle: the squared distance from the center equals the squared
/// radius, with no rounding at all.
pub proof fn lemma_quarter_on_circle(i: int, n: int, center: Point, radius: i64)
    requires
        0 <= i < n,
        (4 * i) % n == 0,
        0 <= radius && radius <= COORD_LIMIT,
        point_in_range(center),
    ensures
        ({
            let p = spec_node_position(i, n, center, radius);
            (p.x - center.x) * (p.x - center.x) + (p.y - center.y) * (p.y - center.y) == (
            radius as int) * (radius as int)
        }),
{
    let r = radius as int;
    assert(4 * i < n * 4) by (nonlinear_arith)
        requires
            0 <= i < n,
    ;
    vstd::arithmetic::div_mod::lemma_multiply_divide_lt(4 * i, n, 4);
    vstd::arithmetic::div_mod::lemma_div_pos_is_pos(4 * i, n);
    let q = (4 * i) / n;
    assert(q == 0 || q == 1 || q == 2 || q == 3);
    assert(spec_scale_div(FP_ONE as int, r, FP_ONE as int) == r && spec_scale_div(
        -(FP_ONE as int),
        r,
        FP_ONE as int,
    ) == -r && spec_scale_div(0, r, FP_ONE as int) == 0) by {
        vstd::arithmetic::div_mod::lemma_div_by_multiple(r, FP_ONE as int);
        assert(FP_ONE * r == r * FP_ONE) by (nonlinear_arith);
        vstd::arithmetic::div_mod::lemma_div_of0(FP_ONE as int);
    };
    let ux = spec_unit_x(i, n);
    let uy = spec_unit_y(i, n);
    assert((ux == FP_ONE && uy == 0) || (ux == 0 && uy == FP_ONE) || (ux == -(FP_ONE as int)
        && uy == 0) || (ux == 0 && uy == -(FP_ONE as int)));
    let sx = spec_scale_div(ux, r, FP_ONE as int);
    let sy = spec_scale_div(uy, r, FP_ONE as int);
    assert((sx == r && sy == 0) || (sx == -r && sy == 0) || (sx == 0 && sy == r) || (sx == 0
        && sy == -r));
    let p = spec_node_position(i, n, center, radius);
    assert(p.x == center.x + sx && p.y == center.y + sy);
    assert((p.x - center.x) * (p.x - center.x) + (p.y - center.y) * (p.y - center.y) == r * r)
        by (nonlinear_arith)
        requires
            (p.x - center.x == r && p.y == center.y) || (p.x - center.x == -r && p.y == center.y)
                || (p.x == center.x && p.y - center.y == r) || (p.x == center.x && p.y - center.y
                == -r),
    ;
}

} // verus!
