use graph_layout::geometry::Point;
use graph_layout::layout::layout;
use graph_layout::model::{GraphModel, NodeKind};

const ONE: i64 = 65536;

fn px(v: i64) -> i64 {
    v * ONE
}

fn to_f64(v: i64) -> f64 {
    v as f64 / ONE as f64
}

fn graph_with_nodes(n: usize) -> GraphModel {
    let mut g = GraphModel::new();
    for i in 0..n {
        let kind = if i % 2 == 0 { NodeKind::Value } else { NodeKind::Relationship };
        g.add_node(kind);
    }
    g
}

#[test]
fn layout_empty_graph_is_empty() {
    let g = GraphModel::new();
    let pos = layout(&g, Point { x: px(250), y: px(250) }, px(200));
    assert!(pos.is_empty());
}

#[test]
fn layout_single_node_exact() {
    let g = graph_with_nodes(1);
    let pos = layout(&g, Point { x: px(250), y: px(250) }, px(200));
    assert_eq!(pos.len(), 1);
    assert_eq!(pos[0], Point { x: px(450), y: px(250) });
}

#[test]
fn layout_two_nodes_exact() {
    let g = graph_with_nodes(2);
    let pos = layout(&g, Point { x: px(250), y: px(250) }, px(200));
    assert_eq!(pos.len(), 2);
    assert_eq!(pos[0], Point { x: px(450), y: px(250) });
    assert_eq!(pos[1], Point { x: px(50), y: px(250) });
}

#[test]
fn layout_four_nodes_on_axes() {
    let g = graph_with_nodes(4);
    let pos = layout(&g, Point { x: px(250), y: px(250) }, px(200));
    assert_eq!(pos.len(), 4);
    assert_eq!(pos[0], Point { x: px(450), y: px(250) });
    assert_eq!(pos[1], Point { x: px(250), y: px(450) });
    assert_eq!(pos[2], Point { x: px(50), y: px(250) });
    assert_eq!(pos[3], Point { x: px(250), y: px(50) });
}

#[test]
fn layout_returns_one_position_per_node() {
    for n in 0..10 {
        let g = graph_with_nodes(n);
        let pos = layout(&g, Point { x: px(250), y: px(250) }, px(200));
        assert_eq!(pos.len(), n);
        for p in pos.iter() {
            assert!(to_f64(p.x).is_finite());
            assert!(to_f64(p.y).is_finite());
        }
    }
}

#[test]
fn layout_positions_lie_on_circle() {
    let g = graph_with_nodes(5);
    let pos = layout(&g, Point { x: px(250), y: px(250) }, px(200));
    for p in pos.iter() {
        let dx = to_f64(p.x) - 250.0;
        let dy = to_f64(p.y) - 250.0;
        let dist = (dx * dx + dy * dy).sqrt();
        assert!((dist - 200.0).abs() < 0.05, "distance {} is off the circle", dist);
    }
}

#[test]
fn layout_matches_float_reference() {
    let g = graph_with_nodes(5);
    let pos = layout(&g, Point { x: px(250), y: px(250) }, px(200));
    for (i, p) in pos.iter().enumerate() {
        let angle = (i as f64 / 5.0) * 2.0 * std::f64::consts::PI;
        let want = glam::DVec2::new(250.0 + 200.0 * angle.cos(), 250.0 + 200.0 * angle.sin());
        assert!((to_f64(p.x) - want.x).abs() < 0.05, "node {} x: {} vs {}", i, to_f64(p.x), want.x);
        assert!((to_f64(p.y) - want.y).abs() < 0.05, "node {} y: {} vs {}", i, to_f64(p.y), want.y);
    }
}
