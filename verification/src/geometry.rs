//! The edge geometry resolver: from two node positions and an edge
//! direction to the drawn segment.
//!
//! The segment is trimmed so the line ends clear of the node circle and
//! its arrowhead, anchored at the source advanced by half that clearance
//! along the edge, and tagged with its rotation in degrees and with the
//! arrowhead flags of the direction.

use vstd::prelude::*;
use crate::fp::{
    clamp, in_coord_range, isqrt_u64, lemma_cross_div_bound, lemma_scale_div_bound, scale_div,
    spec_clamp, spec_isqrt, spec_scale_div, COORD_LIMIT, FP_DEG_PER_RAD, FP_ONE, FP_PI,
};
use crate::model::{spec_arrow_flags, arrow_flags, EdgeDirection};
use crate::trig::{atan2_of, cordic_atan2};

verus! {

/// A position in fixed-point scalar coordinates.
#[derive(Debug, Clone, Copy, PartialEq, Eq, Structural)]
pub struct Point {
    pub x: i64,
    pub y: i64,
}

/// The drawable form of one edge: the stored endpoints, the anchor the
/// local segment is translated to, the rotation applied to it, the
/// trimmed length, and the arrowhead flags.
#[derive(Debug, Clone, Copy, PartialEq, Eq, Structural)]
pub struct EdgeSegment {
    pub x1: i64,
    pub y1: i64,
    pub x2: i64,
    pub y2: i64,
    pub anchor_x: i64,
    pub anchor_y: i64,
    pub rotation_deg: i64,
    pub length: i64,
    pub start_arrow: bool,
    pub end_arrow: bool,
}

/// Both coordinates of a point are within the accepted range.
pub open spec fn point_in_range(p: Point) -> bool {
    in_coord_range(p.x) && in_coord_range(p.y)
}

/// Distance between two points, rounded down: the integer square root of
/// the squared difference.
pub open spec fn spec_full_len(p1: Point, p2: Point) -> int {
    spec_isqrt(((p2.x - p1.x) * (p2.x - p1.x) + (p2.y - p1.y) * (p2.y - p1.y)) as nat) as int
}

/// Angle of the edge in fixed-point radians: `atan2` of the difference,
/// clamped into `[-pi, pi]`, with zero as the defined convention for
/// coincident points.
pub open spec fn spec_edge_angle(p1: Point, p2: Point) -> int {
    if p2.x - p1.x == 0 && p2.y - p1.y == 0 {
        0
    } else {
        spec_clamp(atan2_of((p2.y - p1.y) as i64, (p2.x - p1.x) as i64) as int, FP_PI as int)
    }
}

/// The anchor offset: half the trim clearance along the edge direction.
/// For a degenerate edge the direction convention is the positive x axis.
pub open spec fn spec_anchor_offset_x(p1: Point, p2: Point, len_off: int) -> int {
    let full = spec_full_len(p1, p2);
    if full > 0 {
        spec_scale_div(p2.x - p1.x, len_off, 2 * full)
    } else {
        len_off / 2
    }
}

/// The y part of the anchor offset; zero for a degenerate edge.
pub open spec fn spec_anchor_offset_y(p1: Point, p2: Point, len_off: int) -> int {
    let full = spec_full_len(p1, p2);
    if full > 0 {
        spec_scale_div(p2.y - p1.y, len_off, 2 * full)
    } else {
        0
    }
}

/// The resolved segment for an edge from `p1` to `p2`: every field as
/// the resolver computes it.
pub open spec fn spec_resolve(
    p1: Point,
    p2: Point,
    direction: EdgeDirection,
    node_radius: i64,
    arrow_clearance: i64,
) -> EdgeSegment {
    let len_off = node_radius + arrow_clearance;
    let full = spec_full_len(p1, p2);
    let angle = spec_edge_angle(p1, p2);
    EdgeSegment {
        x1: p1.x,
        y1: p1.y,
        x2: p2.x,
        y2: p2.y,
        anchor_x: (p1.x + spec_anchor_offset_x(p1, p2, len_off)) as i64,
        anchor_y: (p1.y + spec_anchor_offset_y(p1, p2, len_off)) as i64,
        rotation_deg: spec_scale_div(angle, FP_DEG_PER_RAD as int, FP_ONE as int) as i64,
        length: (full - len_off) as i64,
        start_arrow: spec_arrow_flags(direction).0,
        end_arrow: spec_arrow_flags(direction).1,
    }
}

/// Resolve one edge to its drawable segment.
///
/// The full length is the rounded-down distance between the points, the
/// drawn length is that less the node radius and the arrow clearance
/// (negative lengths are accepted as degenerate segments), the rotation
/// is `atan2` of the difference converted to degrees, and the anchor is
/// the source advanced by half the clearance along the edge. Coincident
/// endpoints take angle zero by convention.
pub fn resolve(
    p1: Point,
    p2: Point,
    direction: EdgeDirection,
    node_radius: i64,
    arrow_clearance: i64,
) -> (seg: EdgeSegment)
    requires
        point_in_range(p1),
        point_in_range(p2),
        0 <= node_radius && node_radius <= COORD_LIMIT,
        0 <= arrow_clearance && arrow_clearance <= COORD_LIMIT,
    ensures
        seg == spec_resolve(p1, p2, direction, node_radius, arrow_clearance),
        seg.start_arrow == spec_arrow_flags(direction).0,
        seg.end_arrow == spec_arrow_flags(direction).1,
        p1 == p2 ==> seg.rotation_deg == 0 && seg.length <= 0,
        p2.y == p1.y && p2.x > p1.x ==> seg.rotation_deg == 0,
{
    let dx: i64 = p2.x - p1.x;
    let dy: i64 = p2.y - p1.y;
    proof {
        assert(dx * dx + dy * dy <= 0x4000_0000_0000_0000 && dx * dx >= 0 && dy * dy >= 0)
            by (nonlinear_arith)
            requires
                -0x4000_0000 <= dx && dx <= 0x4000_0000,
                -0x4000_0000 <= dy && dy <= 0x4000_0000,
        ;
    }
    let sq: u64 = ((dx * dx) as u64) + ((dy * dy) as u64);
    let full_u: u64 = isqrt_u64(sq);
    proof {
        crate::fp::lemma_isqrt_bracket(sq as nat);
        assert(full_u < 0x1_0000_0000) by (nonlinear_arith)
            requires
                full_u * full_u <= 0x4000_0000_0000_0000u64,
        ;
    }
    let full: i64 = full_u as i64;
    let len_off: i64 = node_radius + arrow_clearance;
    let trimmed: i64 = full - len_off;
    let angle: i64 = if dx == 0 && dy == 0 {
        0
    } else {
        clamp(cordic_atan2(dy, dx), FP_PI)
    };
    let rotation: i64 = scale_div(angle, FP_DEG_PER_RAD as u64, FP_ONE as u64);
    let (ox, oy): (i64, i64) = if full > 0 {
        let den: u64 = 2 * (full as u64);
        (scale_div(dx, len_off as u64, den), scale_div(dy, len_off as u64, den))
    } else {
        (((len_off as u64) / 2) as i64, 0)
    };
    proof {
        if full > 0 {
            lemma_scale_div_bound(dx as int, len_off as int, 2 * full as int);
            lemma_scale_div_bound(dy as int, len_off as int, 2 * full as int);
        }
        assert(dx * len_off <= 0x4000_0000 * 0x4000_0000 && (-dx) * len_off <= 0x4000_0000
            * 0x4000_0000 && dy * len_off <= 0x4000_0000 * 0x4000_0000 && (-dy) * len_off
            <= 0x4000_0000 * 0x4000_0000) by (nonlinear_arith)
            requires
                -0x4000_0000 <= dx && dx <= 0x4000_0000,
                -0x4000_0000 <= dy && dy <= 0x4000_0000,
                0 <= len_off && len_off <= 0x4000_0000,
        ;
    }
    let flags: (bool, bool) = arrow_flags(direction);
    let seg = EdgeSegment {
        x1: p1.x,
        y1: p1.y,
        x2: p2.x,
        y2: p2.y,
        anchor_x: p1.x + ox,
        anchor_y: p1.y + oy,
        rotation_deg: rotation,
        length: trimmed,
        start_arrow: flags.0,
        end_arrow: flags.1,
    };
    seg
}

/// The rotation a resolved segment stores is exactly the edge's
/// arc-tangent angle (clamped into `[-pi, pi]`, zero by convention for
/// coincident endpoints) converted to degrees by the fixed-point factor.
pub proof fn lemma_rotation_consistent(
    p1: Point,
    p2: Point,
    direction: EdgeDirection,
    node_radius: i64,
    arrow_clearance: i64,
)
    ensures
        spec_resolve(p1, p2, direction, node_radius, arrow_clearance).rotation_deg as int
            == spec_scale_div(spec_edge_angle(p1, p2), FP_DEG_PER_RAD as int, FP_ONE as int),
{
    let angle = spec_edge_angle(p1, p2);
    assert(-(FP_PI as int) <= angle && angle <= FP_PI as int);
    lemma_scale_div_bound(angle, FP_DEG_PER_RAD as int, FP_ONE as int);
    assert(angle * FP_DEG_PER_RAD <= 205887 * 3754936 && (-angle) * FP_DEG_PER_RAD <= 205887
        * 3754936) by (nonlinear_arith)
        requires
            -205887 <= angle && angle <= 205887,
    ;
}

/// The anchor of a resolved segment lies on the line through the two
/// endpoints up to the rounding of one fixed-point division: the cross
/// product of the anchor offset with the edge difference is at most
/// `|dx| + |dy|` scalar units, under a 2^-16 of a pixel per unit of
/// distance.
pub proof fn lemma_anchor_near_line(
    p1: Point,
    p2: Point,
    direction: EdgeDirection,
    node_radius: i64,
    arrow_clearance: i64,
)
    requires
        point_in_range(p1),
        point_in_range(p2),
        0 <= node_radius && node_radius <= COORD_LIMIT,
        0 <= arrow_clearance && arrow_clearance <= COORD_LIMIT,
    ensures
        ({
            let seg = spec_resolve(p1, p2, direction, node_radius, arrow_clearance);
            let dx = p2.x - p1.x;
            let dy = p2.y - p1.y;
            let cross = dx * (seg.anchor_y as int - p1.y) - dy * (seg.anchor_x as int - p1.x);
            -(vstd::math::abs(dx) + vstd::math::abs(dy)) <= cross <= vstd::math::abs(dx)
                + vstd::math::abs(dy)
        }),
{
    let seg = spec_resolve(p1, p2, direction, node_radius, arrow_clearance);
    let dx = p2.x - p1.x;
    let dy = p2.y - p1.y;
    let len_off = node_radius + arrow_clearance;
    let full = spec_full_len(p1, p2);
    let ox = spec_anchor_offset_x(p1, p2, len_off);
    let oy = spec_anchor_offset_y(p1, p2, len_off);
    if full > 0 {
        lemma_scale_div_bound(dx, len_off, 2 * full);
        lemma_scale_div_bound(dy, len_off, 2 * full);
    }
    assert(dx * len_off <= 0x4000_0000 * 0x4000_0000 && (-dx) * len_off <= 0x4000_0000
        * 0x4000_0000 && dy * len_off <= 0x4000_0000 * 0x4000_0000 && (-dy) * len_off
        <= 0x4000_0000 * 0x4000_0000) by (nonlinear_arith)
        requires
            -0x4000_0000 <= dx && dx <= 0x4000_0000,
            -0x4000_0000 <= dy && dy <= 0x4000_0000,
            0 <= len_off && len_off <= 0x4000_0000,
    ;
    assert(seg.anchor_x as int == p1.x + ox && seg.anchor_y as int == p1.y + oy);
    let cross = dx * oy - dy * ox;
    if full > 0 {
        let d = 2 * full;
        let a = vstd::math::abs(dx) as int;
        let b = vstd::math::abs(dy) as int;
        lemma_cross_div_bound(a, b, len_off as int, d);
        let qa = (a * len_off) / d;
        let qb = (b * len_off) / d;
        let inner = a * qb - b * qa;
        if dx >= 0 && dy >= 0 {
            assert(ox == qa && oy == qb);
            assert(cross == inner) by (nonlinear_arith)
                requires
                    dx == a,
                    dy == b,
                    ox == qa,
                    oy == qb,
                    cross == dx * oy - dy * ox,
                    inner == a * qb - b * qa,
            ;
        } else if dx >= 0 && dy < 0 {
            assert(ox == qa && oy == -qb);
            assert(cross == -inner) by (nonlinear_arith)
                requires
                    dx == a,
                    dy == -b,
                    ox == qa,
                    oy == -qb,
                    cross == dx * oy - dy * ox,
                    inner == a * qb - b * qa,
            ;
        } else if dx < 0 && dy >= 0 {
            assert(ox == -qa && oy == qb);
            assert(cross == -inner) by (nonlinear_arith)
                requires
                    dx == -a,
                    dy == b,
                    ox == -qa,
                    oy == qb,
                    cross == dx * oy - dy * ox,
                    inner == a * qb - b * qa,
            ;
        } else {
            assert(ox == -qa && oy == -qb);
            assert(cross == inner) by (nonlinear_arith)
                requires
                    dx == -a,
                    dy == -b,
                    ox == -qa,
                    oy == -qb,
                    cross == dx * oy - dy * ox,
                    inner == a * qb - b * qa,
            ;
        }
        assert(-(a + b) <= cross <= a + b);
    } else {
        assert(dx * dx >= 0 && dy * dy >= 0) by (nonlinear_arith);
        crate::fp::lemma_isqrt_bracket((dx * dx + dy * dy) as nat);
        assert(1 * 1 == 1) by (nonlinear_arith);
        assert(dx * dx + dy * dy < 1);
        assert(dx == 0 && dy == 0) by (nonlinear_arith)
            requires
                dx * dx + dy * dy < 1,
                dx * dx >= 0,
                dy * dy >= 0,
        ;
        assert(cross == 0) by (nonlinear_arith)
            requires
                dx == 0,
                dy == 0,
                cross == dx * oy - dy * ox,
        ;
    }
}

} // verus!
