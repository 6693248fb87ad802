use graph_layout::geometry::Point;
use graph_layout::layout::layout;
use graph_layout::model::{create_graph, EdgeDirection, GraphModel, NodeKind};
use graph_layout::scene::{assemble, DrawPrimitive, FillKind};

const ONE: i64 = 65536;

fn px(v: i64) -> i64 {
    v * ONE
}

#[test]
fn assemble_empty_graph_is_empty() {
    let g = GraphModel::new();
    let pos = layout(&g, Point { x: px(250), y: px(250) }, px(200));
    let prims = assemble(&g, &pos, px(10), px(15));
    assert!(prims.is_empty());
}

#[test]
fn assemble_orders_edges_before_nodes() {
    let g = create_graph();
    let pos = layout(&g, Point { x: px(250), y: px(250) }, px(200));
    let prims = assemble(&g, &pos, px(10), px(15));
    // five edges, then a circle and a label for each of the six nodes
    assert_eq!(prims.len(), 5 + 12);
    for p in prims.iter().take(5) {
        assert!(matches!(p, DrawPrimitive::EdgeSeg { .. }));
    }
    for p in prims.iter().skip(5) {
        assert!(!matches!(p, DrawPrimitive::EdgeSeg { .. }));
    }
}

#[test]
fn assemble_node_primitives_follow_insertion_order() {
    let g = create_graph();
    let pos = layout(&g, Point { x: px(250), y: px(250) }, px(200));
    let prims = assemble(&g, &pos, px(10), px(15));
    for id in 0..6 {
        let expected_fill =
            if id % 2 == 0 { FillKind::Value } else { FillKind::Relationship };
        match &prims[5 + 2 * id] {
            DrawPrimitive::Circle { cx, cy, r, fill } => {
                assert_eq!(*cx, pos[id].x);
                assert_eq!(*cy, pos[id].y);
                assert_eq!(*r, px(10));
                assert_eq!(*fill, expected_fill);
            }
            other => panic!("expected a circle at slot {}, got {:?}", 5 + 2 * id, other),
        }
        match &prims[5 + 2 * id + 1] {
            DrawPrimitive::Label { x, y, index } => {
                assert_eq!(*x, pos[id].x);
                assert_eq!(*y, pos[id].y);
                assert_eq!(*index, id);
            }
            other => panic!("expected a label at slot {}, got {:?}", 5 + 2 * id + 1, other),
        }
    }
}

#[test]
fn assemble_edge_primitives_follow_insertion_order() {
    let g = create_graph();
    let pos = layout(&g, Point { x: px(250), y: px(250) }, px(200));
    let prims = assemble(&g, &pos, px(10), px(15));
    let expected = [
        (0, 1, (false, true)),
        (2, 3, (true, false)),
        (4, 5, (false, false)),
        (1, 2, (true, true)),
        (3, 4, (false, true)),
    ];
    for (k, (src, tgt, arrows)) in expected.iter().enumerate() {
        match &prims[k] {
            DrawPrimitive::EdgeSeg { seg } => {
                assert_eq!(seg.x1, pos[*src as usize].x);
                assert_eq!(seg.y1, pos[*src as usize].y);
                assert_eq!(seg.x2, pos[*tgt as usize].x);
                assert_eq!(seg.y2, pos[*tgt as usize].y);
                assert_eq!((seg.start_arrow, seg.end_arrow), *arrows);
            }
            other => panic!("expected an edge segment at slot {}, got {:?}", k, other),
        }
    }
}

#[test]
fn assemble_skips_edges_without_positions() {
    let mut g = GraphModel::new();
    g.add_node(NodeKind::Value);
    g.add_node(NodeKind::Relationship);
    let _ = g.add_edge(0, 1, EdgeDirection::ValueToRel);
    // only the first node has a position
    let pos = vec![Point { x: px(100), y: px(100) }];
    let prims = assemble(&g, &pos, px(10), px(15));
    assert_eq!(prims.len(), 2);
    assert!(matches!(prims[0], DrawPrimitive::Circle { .. }));
    assert!(matches!(prims[1], DrawPrimitive::Label { index: 0, .. }));
}
