//! The scene assembler: node positions and resolved edge geometry become
//! one ordered list of drawable primitives.
//!
//! All edge segments come first, then for each node its circle and its
//! label, so edges render beneath nodes; within each group the order is
//! the graph's insertion order. An edge whose endpoint has no position is
//! skipped rather than failing the whole assembly.

use vstd::prelude::*;
use crate::fp::COORD_LIMIT;
use crate::geometry::{point_in_range, resolve, spec_resolve, EdgeSegment, Point};
use crate::model::{EdgeInfo, GraphModel, NodeKind};

verus! {

/// The visual class a node's circle is filled with; the mapping from
/// node kind to actual color is the renderer's concern.
#[derive(Debug, Clone, Copy, PartialEq, Eq, Structural)]
pub enum FillKind {
    Value,
    Relationship,
}

/// The fill class of a node kind.
pub open spec fn spec_fill_of(kind: NodeKind) -> FillKind {
    match kind {
        NodeKind::Value => FillKind::Value,
        NodeKind::Relationship => FillKind::Relationship,
    }
}

/// Map a node kind to its fill class.
pub fn fill_of(kind: NodeKind) -> (r: FillKind)
    ensures
        r == spec_fill_of(kind),
{
    match kind {
        NodeKind::Value => FillKind::Value,
        NodeKind::Relationship => FillKind::Relationship,
    }
}

/// One renderer-agnostic visual element.
#[derive(Debug, Clone, Copy, PartialEq, Eq, Structural)]
pub enum DrawPrimitive {
    /// A resolved edge segment.
    EdgeSeg { seg: EdgeSegment },
    /// A node's circle.
    Circle { cx: i64, cy: i64, r: i64, fill: FillKind },
    /// A node's label: its display index, anchored at its position.
    Label { x: i64, y: i64, index: usize },
}

/// Whether a primitive is an edge segment.
pub open spec fn is_edge_prim(p: DrawPrimitive) -> bool {
    match p {
        DrawPrimitive::EdgeSeg { .. } => true,
        _ => false,
    }
}

/// The edge primitives: one resolved segment per edge whose endpoints
/// both have positions, in edge insertion order.
pub open spec fn spec_edge_prims(
    edges: Seq<EdgeInfo>,
    pos: Seq<Point>,
    node_radius: i64,
    arrow_clearance: i64,
) -> Seq<DrawPrimitive>
    decreases edges.len(),
{
    if edges.len() == 0 {
        Seq::empty()
    } else {
        let rest = spec_edge_prims(edges.drop_last(), pos, node_radius, arrow_clearance);
        let e = edges.last();
        if e.source < pos.len() && e.target < pos.len() {
            rest.push(
                DrawPrimitive::EdgeSeg {
                    seg: spec_resolve(
                        pos[e.source as int],
                        pos[e.target as int],
                        e.direction,
                        node_radius,
                        arrow_clearance,
                    ),
                },
            )
        } else {
            rest
        }
    }
}

/// The node primitives: for each node with a position, its circle then
/// its label, in node id order.
pub open spec fn spec_node_prims(
    nodes: Seq<NodeKind>,
    pos: Seq<Point>,
    node_radius: i64,
) -> Seq<DrawPrimitive>
    decreases nodes.len(),
{
    if nodes.len() == 0 {
        Seq::empty()
    } else {
        let rest = spec_node_prims(nodes.drop_last(), pos, node_radius);
        let i = nodes.len() - 1;
        if i < pos.len() {
            rest.push(
                DrawPrimitive::Circle {
                    cx: pos[i].x,
                    cy: pos[i].y,
                    r: node_radius,
                    fill: spec_fill_of(nodes[i]),
                },
            ).push(DrawPrimitive::Label { x: pos[i].x, y: pos[i].y, index: i as usize })
        } else {
            rest
        }
    }
}

/// The whole scene: all edge primitives, then all node primitives.
pub open spec fn spec_assemble(
    nodes: Seq<NodeKind>,
    edges: Seq<EdgeInfo>,
    pos: Seq<Point>,
    node_radius: i64,
    arrow_clearance: i64,
) -> Seq<DrawPrimitive> {
    spec_edge_prims(edges, pos, node_radius, arrow_clearance) + spec_node_prims(
        nodes,
        pos,
        node_radius,
    )
}

/// Combine a graph and its node positions into the ordered draw list.
pub fn assemble(
    g: &GraphModel,
    positions: &Vec<Point>,
    node_radius: i64,
    arrow_clearance: i64,
) -> (prims: Vec<DrawPrimitive>)
    requires
        g.wf(),
        forall|i: int| 0 <= i < positions@.len() ==> point_in_range(#[trigger] positions@[i]),
        0 <= node_radius && node_radius <= COORD_LIMIT,
        0 <= arrow_clearance && arrow_clearance <= COORD_LIMIT,
    ensures
        prims@ == spec_assemble(
            g.nodes(),
            g.edge_list(),
            positions@,
            node_radius,
            arrow_clearance,
        ),
{
    let mut prims: Vec<DrawPrimitive> = Vec::new();
    let es: Vec<EdgeInfo> = g.edges();
    let mut k: usize = 0;
    while k < es.len()
        invariant
            k <= es@.len(),
            es@ == g.edge_list(),
            g.wf(),
            forall|i: int| 0 <= i < positions@.len() ==> point_in_range(#[trigger] positions@[i]),
            0 <= node_radius && node_radius <= COORD_LIMIT,
            0 <= arrow_clearance && arrow_clearance <= COORD_LIMIT,
            prims@ == spec_edge_prims(
                es@.take(k as int),
                positions@,
                node_radius,
                arrow_clearance,
            ),
        decreases es@.len() - k,
    {
        let e: EdgeInfo = es[k];
        if e.source < positions.len() && e.target < positions.len() {
            let seg: EdgeSegment = resolve(
                positions[e.source],
                positions[e.target],
                e.direction,
                node_radius,
                arrow_clearance,
            );
            prims.push(DrawPrimitive::EdgeSeg { seg });
        }
        proof {
            assert(es@.take(k + 1).drop_last() =~= es@.take(k as int));
            assert(es@.take(k + 1).last() == es@[k as int]);
        }
        k = k + 1;
    }
    proof {
        assert(es@.take(es@.len() as int) =~= es@);
    }
    let n: usize = g.node_count();
    let mut i: usize = 0;
    while i < n
        invariant
            i <= n,
            n == g.nodes().len(),
            es@ == g.edge_list(),
            g.wf(),
            forall|j: int| 0 <= j < positions@.len() ==> point_in_range(#[trigger] positions@[j]),
            0 <= node_radius && node_radius <= COORD_LIMIT,
            0 <= arrow_clearance && arrow_clearance <= COORD_LIMIT,
            prims@ == spec_edge_prims(g.edge_list(), positions@, node_radius, arrow_clearance)
                + spec_node_prims(g.nodes().take(i as int), positions@, node_radius),
        decreases n - i,
    {
        let kind: NodeKind = match g.node_kind(i) {
            Ok(kind) => kind,
            Err(_) => vstd::pervasive::unreached(),
        };
        if i < positions.len() {
            let p: Point = positions[i];
            prims.push(DrawPrimitive::Circle { cx: p.x, cy: p.y, r: node_radius, fill: fill_of(kind) });
            prims.push(DrawPrimitive::Label { x: p.x, y: p.y, index: i });
        }
        proof {
            assert(g.nodes().take(i + 1).drop_last() =~= g.nodes().take(i as int));
            assert(g.nodes().take(i + 1).last() == g.nodes()[i as int]);
        }
        i = i + 1;
    }
    proof {
        assert(g.nodes().take(g.nodes().len() as int) =~= g.nodes());
    }
    prims
}

/// Every primitive the edge pass yields is an edge segment.
pub proof fn lemma_edge_prims_are_edges(
    edges: Seq<EdgeInfo>,
    pos: Seq<Point>,
    node_radius: i64,
    arrow_clearance: i64,
)
    ensures
        forall|k: int|
            0 <= k < spec_edge_prims(edges, pos, node_radius, arrow_clearance).len()
                ==> is_edge_prim(
                #[trigger] spec_edge_prims(edges, pos, node_radius, arrow_clearance)[k],
            ),
    decreases edges.len(),
{
    if edges.len() > 0 {
        lemma_edge_prims_are_edges(edges.drop_last(), pos, node_radius, arrow_clearance);
        let rest = spec_edge_prims(edges.drop_last(), pos, node_radius, arrow_clearance);
        let cur = spec_edge_prims(edges, pos, node_radius, arrow_clearance);
        assert forall|k: int| 0 <= k < cur.len() implies is_edge_prim(cur[k]) by {
            if k < rest.len() {
                assert(cur[k] == rest[k]);
            }
        }
    }
}

/// No primitive the node pass yields is an edge segment.
pub proof fn lemma_node_prims_are_not_edges(nodes: Seq<NodeKind>, pos: Seq<Point>, node_radius: i64)
    ensures
        forall|k: int|
            0 <= k < spec_node_prims(nodes, pos, node_radius).len() ==> !is_edge_prim(
                #[trigger] spec_node_prims(nodes, pos, node_radius)[k],
            ),
    decreases nodes.len(),
{
    if nodes.len() > 0 {
        lemma_node_prims_are_not_edges(nodes.drop_last(), pos, node_radius);
        let rest = spec_node_prims(nodes.drop_last(), pos, node_radius);
        let cur = spec_node_prims(nodes, pos, node_radius);
        assert forall|k: int| 0 <= k < cur.len() implies !is_edge_prim(cur[k]) by {
            if k < rest.len() {
                assert(cur[k] == rest[k]);
            }
        }
    }
}

/// When every edge endpoint has a position (the model's no-gaps
/// invariant), the edge pass keeps insertion order one for one: the k-th
/// primitive is exactly the k-th edge, resolved.
pub proof fn lemma_edge_prims_insertion_order(
    edges: Seq<EdgeInfo>,
    pos: Seq<Point>,
    node_radius: i64,
    arrow_clearance: i64,
)
    requires
        forall|k: int|
            0 <= k < edges.len() ==> (#[trigger] edges[k]).source < pos.len() && edges[k].target
                < pos.len(),
    ensures
        spec_edge_prims(edges, pos, node_radius, arrow_clearance).len() == edges.len(),
        forall|k: int|
            0 <= k < edges.len() ==> #[trigger] spec_edge_prims(
                edges,
                pos,
                node_radius,
                arrow_clearance,
            )[k] == (DrawPrimitive::EdgeSeg {
                seg: spec_resolve(
                    pos[edges[k].source as int],
                    pos[edges[k].target as int],
                    edges[k].direction,
                    node_radius,
                    arrow_clearance,
                ),
            }),
    decreases edges.len(),
{
    if edges.len() > 0 {
        let head = edges.drop_last();
        assert(forall|k: int| 0 <= k < head.len() ==> #[trigger] head[k] == edges[k]);
        lemma_edge_prims_insertion_order(head, pos, node_radius, arrow_clearance);
        let rest = spec_edge_prims(head, pos, node_radius, arrow_clearance);
        let cur = spec_edge_prims(edges, pos, node_radius, arrow_clearance);
        assert forall|k: int| 0 <= k < edges.len() implies #[trigger] cur[k]
            == (DrawPrimitive::EdgeSeg {
            seg: spec_resolve(
                pos[edges[k].source as int],
                pos[edges[k].target as int],
                edges[k].direction,
                node_radius,
                arrow_clearance,
            ),
        }) by {
            if k < rest.len() {
                assert(cur[k] == rest[k]);
            } else {
                assert(edges.last() == edges[k]);
            }
        }
    }
}

/// With a position for every node, the node pass emits, in node id
/// order, exactly a circle then a label per node: primitives 2i and
/// 2i + 1 belong to node i.
pub proof fn lemma_node_prims_insertion_order(
    nodes: Seq<NodeKind>,
    pos: Seq<Point>,
    node_radius: i64,
)
    requires
        nodes.len() <= pos.len(),
    ensures
        spec_node_prims(nodes, pos, node_radius).len() == 2 * nodes.len(),
        forall|i: int|
            0 <= i < nodes.len() ==> #[trigger] spec_node_prims(nodes, pos, node_radius)[2 * i]
                == (DrawPrimitive::Circle {
                cx: pos[i].x,
                cy: pos[i].y,
                r: node_radius,
                fill: spec_fill_of(nodes[i]),
            }),
        forall|i: int|
            0 <= i < nodes.len() ==> #[trigger] spec_node_prims(nodes, pos, node_radius)[2 * i + 1]
                == (DrawPrimitive::Label { x: pos[i].x, y: pos[i].y, index: i as usize }),
    decreases nodes.len(),
{
    if nodes.len() > 0 {
        let head = nodes.drop_last();
        lemma_node_prims_insertion_order(head, pos, node_radius);
        let rest = spec_node_prims(head, pos, node_radius);
        let cur = spec_node_prims(nodes, pos, node_radius);
        let last = nodes.len() - 1;
        assert(cur[2 * last] == rest.push(
            (DrawPrimitive::Circle {
                cx: pos[last].x,
                cy: pos[last].y,
                r: node_radius,
                fill: spec_fill_of(nodes[last]),
            }),
        ).push((DrawPrimitive::Label { x: pos[last].x, y: pos[last].y, index: last as usize }))[2
            * last]);
        assert forall|i: int| 0 <= i < nodes.len() implies #[trigger] cur[2 * i]
            == (DrawPrimitive::Circle {
            cx: pos[i].x,
            cy: pos[i].y,
            r: node_radius,
            fill: spec_fill_of(nodes[i]),
        }) && cur[2 * i + 1] == (DrawPrimitive::Label {
            x: pos[i].x,
            y: pos[i].y,
            index: i as usize,
        }) by {
            if i < last {
                assert(cur[2 * i] == rest[2 * i]);
                assert(cur[2 * i + 1] == rest[2 * i + 1]);
            }
        }
    }
}

/// The full ordering law for an assembled scene with no positions
/// missing: the k-th of E edges stands at slot k, and node i's circle
/// and label stand at slots E + 2i and E + 2i + 1, so primitive order
/// follows insertion order within each group.
pub proof fn lemma_assemble_insertion_order(
    nodes: Seq<NodeKind>,
    edges: Seq<EdgeInfo>,
    pos: Seq<Point>,
    node_radius: i64,
    arrow_clearance: i64,
)
    requires
        forall|k: int|
            0 <= k < edges.len() ==> (#[trigger] edges[k]).source < pos.len() && edges[k].target
                < pos.len(),
        nodes.len() <= pos.len(),
    ensures
        spec_assemble(nodes, edges, pos, node_radius, arrow_clearance).len() == edges.len() + 2
            * nodes.len(),
        forall|k: int|
            0 <= k < edges.len() ==> #[trigger] spec_assemble(
                nodes,
                edges,
                pos,
                node_radius,
                arrow_clearance,
            )[k] == (DrawPrimitive::EdgeSeg {
                seg: spec_resolve(
                    pos[edges[k].source as int],
                    pos[edges[k].target as int],
                    edges[k].direction,
                    node_radius,
                    arrow_clearance,
                ),
            }),
        forall|i: int|
            0 <= i < nodes.len() ==> #[trigger] spec_assemble(
                nodes,
                edges,
                pos,
                node_radius,
                arrow_clearance,
            )[edges.len() + 2 * i] == (DrawPrimitive::Circle {
                cx: pos[i].x,
                cy: pos[i].y,
                r: node_radius,
                fill: spec_fill_of(nodes[i]),
            }),
        forall|i: int|
            0 <= i < nodes.len() ==> #[trigger] spec_assemble(
                nodes,
                edges,
                pos,
                node_radius,
                arrow_clearance,
            )[edges.len() + 2 * i + 1] == (DrawPrimitive::Label {
                x: pos[i].x,
                y: pos[i].y,
                index: i as usize,
            }),
{
    lemma_edge_prims_insertion_order(edges, pos, node_radius, arrow_clearance);
    lemma_node_prims_insertion_order(nodes, pos, node_radius);
    let ep = spec_edge_prims(edges, pos, node_radius, arrow_clearance);
    let np = spec_node_prims(nodes, pos, node_radius);
    let prims = spec_assemble(nodes, edges, pos, node_radius, arrow_clearance);
    assert forall|i: int|
        0 <= i < nodes.len() implies #[trigger] prims[edges.len() + 2 * i]
        == (DrawPrimitive::Circle {
        cx: pos[i].x,
        cy: pos[i].y,
        r: node_radius,
        fill: spec_fill_of(nodes[i]),
    }) by {
        assert(prims[edges.len() + 2 * i] == np[2 * i]);
        assert(np[2 * i] == (DrawPrimitive::Circle {
            cx: pos[i].x,
            cy: pos[i].y,
            r: node_radius,
            fill: spec_fill_of(nodes[i]),
        }));
    }
    assert forall|i: int|
        0 <= i < nodes.len() implies #[trigger] prims[edges.len() + 2 * i + 1]
        == (DrawPrimitive::Label { x: pos[i].x, y: pos[i].y, index: i as usize }) by {
        assert(prims[edges.len() + 2 * i + 1] == np[2 * i + 1]);
        assert(np[2 * i + 1] == (DrawPrimitive::Label {
            x: pos[i].x,
            y: pos[i].y,
            index: i as usize,
        }));
    }
}

/// The assembled scene is split: there is a boundary below which every
/// primitive is an edge segment and at or above which none is, so all
/// edges render beneath all nodes and labels.
pub proof fn lemma_assemble_ordering(
    nodes: Seq<NodeKind>,
    edges: Seq<EdgeInfo>,
    pos: Seq<Point>,
    node_radius: i64,
    arrow_clearance: i64,
)
    ensures
        ({
            let prims = spec_assemble(nodes, edges, pos, node_radius, arrow_clearance);
            let boundary = spec_edge_prims(edges, pos, node_radius, arrow_clearance).len();
            &&& boundary <= prims.len()
            &&& forall|k: int| 0 <= k < boundary ==> is_edge_prim(#[trigger] prims[k])
            &&& forall|k: int| boundary <= k < prims.len() ==> !is_edge_prim(#[trigger] prims[k])
        }),
{
    lemma_edge_prims_are_edges(edges, pos, node_radius, arrow_clearance);
    lemma_node_prims_are_not_edges(nodes, pos, node_radius);
}

} // verus!
