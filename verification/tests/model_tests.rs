use graph_layout::model::{
    arrow_flags, create_graph, EdgeDirection, GraphError, GraphModel, NodeKind,
};

#[test]
fn empty_graph_has_no_nodes() {
    let g = GraphModel::new();
    assert_eq!(g.node_count(), 0);
    assert!(g.edges().is_empty());
    assert!(g.node_ids().is_empty());
}

#[test]
fn add_node_assigns_dense_ids() {
    let mut g = GraphModel::new();
    let a = g.add_node(NodeKind::Value);
    let b = g.add_node(NodeKind::Relationship);
    let c = g.add_node(NodeKind::Value);
    assert_eq!(a, 0);
    assert_eq!(b, 1);
    assert_eq!(c, 2);
    assert_eq!(g.node_count(), 3);
    assert_eq!(g.node_ids(), vec![0, 1, 2]);
}

#[test]
fn node_kind_lookup_and_not_found() {
    let mut g = GraphModel::new();
    g.add_node(NodeKind::Value);
    g.add_node(NodeKind::Relationship);
    assert_eq!(g.node_kind(0), Ok(NodeKind::Value));
    assert_eq!(g.node_kind(1), Ok(NodeKind::Relationship));
    assert_eq!(g.node_kind(2), Err(GraphError::NotFound));
}

#[test]
fn node_kind_beyond_index_space_is_not_found() {
    let g = create_graph();
    // one past u32::MAX: a truncating index cast would wrap this to node 0
    assert_eq!(g.node_kind(4_294_967_296), Err(GraphError::NotFound));
    assert_eq!(g.node_kind(usize::MAX), Err(GraphError::NotFound));
}

#[test]
fn add_edge_records_in_order() {
    let mut g = GraphModel::new();
    g.add_node(NodeKind::Value);
    g.add_node(NodeKind::Relationship);
    let e0 = g.add_edge(0, 1, EdgeDirection::ValueToRel);
    let e1 = g.add_edge(1, 0, EdgeDirection::Bidirectional);
    assert_eq!(e0, Ok(0));
    assert_eq!(e1, Ok(1));
    let es = g.edges();
    assert_eq!(es.len(), 2);
    assert_eq!(es[0].source, 0);
    assert_eq!(es[0].target, 1);
    assert_eq!(es[0].direction, EdgeDirection::ValueToRel);
    assert_eq!(es[1].source, 1);
    assert_eq!(es[1].target, 0);
    assert_eq!(es[1].direction, EdgeDirection::Bidirectional);
}

#[test]
fn add_edge_invalid_endpoint_leaves_graph_unchanged() {
    let mut g = GraphModel::new();
    g.add_node(NodeKind::Value);
    assert_eq!(g.add_edge(0, 3, EdgeDirection::Undirected), Err(GraphError::InvalidEndpoint));
    assert_eq!(g.add_edge(3, 0, EdgeDirection::Undirected), Err(GraphError::InvalidEndpoint));
    assert!(g.edges().is_empty());
    assert_eq!(g.node_count(), 1);
}

#[test]
fn arrow_flags_mapping_exact() {
    assert_eq!(arrow_flags(EdgeDirection::ValueToRel), (false, true));
    assert_eq!(arrow_flags(EdgeDirection::RelToVal), (true, false));
    assert_eq!(arrow_flags(EdgeDirection::Undirected), (false, false));
    assert_eq!(arrow_flags(EdgeDirection::Bidirectional), (true, true));
}

#[test]
fn create_graph_sample_contents() {
    let g = create_graph();
    assert_eq!(g.node_count(), 6);
    for id in 0..6 {
        let expected = if id % 2 == 0 { NodeKind::Value } else { NodeKind::Relationship };
        assert_eq!(g.node_kind(id), Ok(expected));
    }
    let es = g.edges();
    assert_eq!(es.len(), 5);
    let expected = [
        (0, 1, EdgeDirection::ValueToRel),
        (2, 3, EdgeDirection::RelToVal),
        (4, 5, EdgeDirection::Undirected),
        (1, 2, EdgeDirection::Bidirectional),
        (3, 4, EdgeDirection::ValueToRel),
    ];
    for (e, want) in es.iter().zip(expected.iter()) {
        assert_eq!((e.source, e.target, e.direction), *want);
    }
}
