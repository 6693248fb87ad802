use graph_layout::geometry::{resolve, Point};
use graph_layout::model::EdgeDirection;

const ONE: i64 = 65536;

fn px(v: i64) -> i64 {
    v * ONE
}

fn to_f64(v: i64) -> f64 {
    v as f64 / ONE as f64
}

#[test]
fn resolve_horizontal_edge_exact() {
    let seg = resolve(
        Point { x: 0, y: 0 },
        Point { x: px(100), y: 0 },
        EdgeDirection::ValueToRel,
        px(10),
        px(15),
    );
    assert_eq!(seg.x1, 0);
    assert_eq!(seg.y1, 0);
    assert_eq!(seg.x2, px(100));
    assert_eq!(seg.y2, 0);
    // full length 100, trimmed by 10 + 15
    assert_eq!(seg.length, px(75));
    assert_eq!(seg.rotation_deg, 0);
    assert_eq!((seg.start_arrow, seg.end_arrow), (false, true));
    // anchor advanced by half the clearance along the positive x axis
    assert_eq!(seg.anchor_x, px(25) / 2);
    assert_eq!(seg.anchor_y, 0);
}

#[test]
fn resolve_coincident_points_defined() {
    let p = Point { x: px(100), y: px(200) };
    let seg = resolve(p, p, EdgeDirection::Undirected, px(10), px(15));
    assert_eq!(seg.rotation_deg, 0);
    assert_eq!(seg.length, -px(25));
    assert!(seg.length <= 0);
    assert_eq!(seg.anchor_x, px(100) + px(25) / 2);
    assert_eq!(seg.anchor_y, px(200));
    assert!(to_f64(seg.rotation_deg).is_finite());
}

#[test]
fn resolve_rotation_matches_atan2() {
    let seg = resolve(
        Point { x: 0, y: 0 },
        Point { x: px(30), y: px(40) },
        EdgeDirection::Undirected,
        px(10),
        px(15),
    );
    let want = glam::DVec2::new(30.0, 40.0).to_angle().to_degrees();
    let got = to_f64(seg.rotation_deg);
    assert!((got - want).abs() < 0.05, "rotation {} vs {}", got, want);
    // 3-4-5 triangle: the full length is exactly 50
    assert_eq!(seg.length, px(25));
}

#[test]
fn resolve_rotation_in_lower_quadrants() {
    let seg = resolve(
        Point { x: px(10), y: px(10) },
        Point { x: px(-20), y: px(-30) },
        EdgeDirection::Undirected,
        px(10),
        px(15),
    );
    let want = glam::DVec2::new(-30.0, -40.0).to_angle().to_degrees();
    let got = to_f64(seg.rotation_deg);
    assert!((got - want).abs() < 0.05, "rotation {} vs {}", got, want);
}

#[test]
fn resolve_arrow_flags_all_directions() {
    let p1 = Point { x: 0, y: 0 };
    let p2 = Point { x: px(100), y: px(50) };
    let cases = [
        (EdgeDirection::ValueToRel, (false, true)),
        (EdgeDirection::RelToVal, (true, false)),
        (EdgeDirection::Undirected, (false, false)),
        (EdgeDirection::Bidirectional, (true, true)),
    ];
    for (direction, want) in cases.iter() {
        let seg = resolve(p1, p2, *direction, px(10), px(15));
        assert_eq!((seg.start_arrow, seg.end_arrow), *want);
    }
}

#[test]
fn resolve_anchor_lies_on_the_edge_line() {
    let p1 = Point { x: px(11), y: px(7) };
    let p2 = Point { x: px(211), y: px(137) };
    let seg = resolve(p1, p2, EdgeDirection::ValueToRel, px(10), px(15));
    let dx = to_f64(p2.x - p1.x);
    let dy = to_f64(p2.y - p1.y);
    let ox = to_f64(seg.anchor_x - p1.x);
    let oy = to_f64(seg.anchor_y - p1.y);
    let len = (dx * dx + dy * dy).sqrt();
    // perpendicular deviation of the anchor from the segment's own line
    let cross = (dx * oy - dy * ox).abs() / len;
    assert!(cross < 0.001, "anchor off the line by {}", cross);
    // the anchor sits half the clearance from the source
    let adv = (ox * ox + oy * oy).sqrt();
    assert!((adv - 12.5).abs() < 0.01, "anchor advanced by {}", adv);
}

#[test]
fn resolve_length_matches_float_reference() {
    let p1 = Point { x: px(13), y: px(-31) };
    let p2 = Point { x: px(-87), y: px(41) };
    let seg = resolve(p1, p2, EdgeDirection::RelToVal, px(10), px(15));
    let want = glam::DVec2::new(to_f64(p2.x - p1.x), to_f64(p2.y - p1.y)).length() - 25.0;
    let got = to_f64(seg.length);
    assert!((got - want).abs() < 0.001, "length {} vs {}", got, want);
}
