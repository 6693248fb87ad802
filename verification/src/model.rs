//! The graph model: typed nodes, typed edges, and the container that
//! holds them.
//!
//! Storage is a petgraph directed graph, kept behind a small set of
//! trusted wrappers; node ids are the dense indices petgraph assigns at
//! insertion, so the abstract view is simply a sequence of node kinds and
//! a sequence of edge records.

use vstd::prelude::*;
use petgraph::visit::EdgeRef;

verus! {

/// Classification of a graph node: it stands for a value or for a
/// relationship between values.
#[derive(Debug, Clone, Copy, PartialEq, Eq, Structural)]
pub enum NodeKind {
    Value,
    Relationship,
}

/// Arrow style of an edge, independent of the stored source/target order.
#[derive(Debug, Clone, Copy, PartialEq, Eq, Structural)]
pub enum EdgeDirection {
    ValueToRel,
    RelToVal,
    Undirected,
    Bidirectional,
}

/// Arrowhead flags `(start_arrow, end_arrow)` that a direction maps to.
pub open spec fn spec_arrow_flags(d: EdgeDirection) -> (bool, bool) {
    match d {
        EdgeDirection::ValueToRel => (false, true),
        EdgeDirection::RelToVal => (true, false),
        EdgeDirection::Undirected => (false, false),
        EdgeDirection::Bidirectional => (true, true),
    }
}

/// Map an edge direction to its arrowhead flags: an arrow at the target
/// end for `ValueToRel`, at the source end for `RelToVal`, none for
/// `Undirected`, both for `Bidirectional`.
pub fn arrow_flags(d: EdgeDirection) -> (r: (bool, bool))
    ensures
        r == spec_arrow_flags(d),
{
    match d {
        EdgeDirection::ValueToRel => (false, true),
        EdgeDirection::RelToVal => (true, false),
        EdgeDirection::Undirected => (false, false),
        EdgeDirection::Bidirectional => (true, true),
    }
}

/// Record of one stored edge: endpoints by node id, in storage order,
/// and the rendering direction.
#[derive(Debug, Clone, Copy, PartialEq, Eq, Structural)]
pub struct EdgeInfo {
    pub source: usize,
    pub target: usize,
    pub direction: EdgeDirection,
}

/// Construction-time errors of the graph model.
#[derive(Debug, Clone, Copy, PartialEq, Eq, Structural)]
pub enum GraphError {
    /// A node id was looked up but is absent.
    NotFound,
    /// An edge was added with an absent endpoint.
    InvalidEndpoint,
}

#[verifier::external_type_specification]
#[verifier::external_body]
#[verifier::reject_recursive_types(N)]
#[verifier::reject_recursive_types(E)]
#[verifier::reject_recursive_types(Ty)]
#[verifier::reject_recursive_types(Ix)]
pub struct ExPetgraphGraph<N, E, Ty, Ix>(petgraph::graph::Graph<N, E, Ty, Ix>);

#[verifier::external_type_specification]
#[verifier::external_body]
pub struct ExPetgraphDirected(petgraph::Directed);

/// The node weights a petgraph graph holds, in dense index order.
pub uninterp spec fn pg_nodes(g: petgraph::graph::Graph<NodeKind, EdgeDirection>) -> Seq<NodeKind>;

/// The edges a petgraph graph holds, in insertion order, as id pairs
/// with their weight.
pub uninterp spec fn pg_edge_seq(g: petgraph::graph::Graph<NodeKind, EdgeDirection>) -> Seq<
    EdgeInfo,
>;

/// Relies on `petgraph::graph::Graph::new`: the new graph has no nodes
/// and no edges.
#[verifier::external_body]
fn pg_new() -> (g: petgraph::graph::Graph<NodeKind, EdgeDirection>)
    ensures
        pg_nodes(g) == Seq::<NodeKind>::empty(),
        pg_edge_seq(g) == Seq::<EdgeInfo>::empty(),
{
    petgraph::graph::Graph::new()
}

/// Relies on `petgraph::graph::Graph::node_count`: the number of nodes.
#[verifier::external_body]
fn pg_node_count(g: &petgraph::graph::Graph<NodeKind, EdgeDirection>) -> (n: usize)
    ensures
        n == pg_nodes(*g).len(),
{
    g.node_count()
}

/// Relies on `petgraph::graph::Graph::add_node`: the weight is appended
/// and its dense index (the old node count) returned; edges are
/// untouched. petgraph panics once the u32 index space is exhausted, so
/// that case is excluded.
#[verifier::external_body]
fn pg_add_node(g: &mut petgraph::graph::Graph<NodeKind, EdgeDirection>, kind: NodeKind) -> (id:
    usize)
    requires
        pg_nodes(*old(g)).len() < 0xFFFF_FFFF,
    ensures
        pg_nodes(*final(g)) == pg_nodes(*old(g)).push(kind),
        pg_edge_seq(*final(g)) == pg_edge_seq(*old(g)),
        id == pg_nodes(*old(g)).len(),
{
    g.add_node(kind).index()
}

/// Relies on `petgraph::graph::Graph::add_edge`: the edge is appended in
/// insertion order and its index (the old edge count) returned; nodes
/// are untouched. petgraph panics on an absent endpoint or once the u32
/// index space is exhausted, so those cases are excluded.
#[verifier::external_body]
fn pg_add_edge(
    g: &mut petgraph::graph::Graph<NodeKind, EdgeDirection>,
    source: usize,
    target: usize,
    direction: EdgeDirection,
) -> (eid: usize)
    requires
        source < pg_nodes(*old(g)).len(),
        target < pg_nodes(*old(g)).len(),
        pg_edge_seq(*old(g)).len() < 0xFFFF_FFFF,
    ensures
        pg_nodes(*final(g)) == pg_nodes(*old(g)),
        pg_edge_seq(*final(g)) == pg_edge_seq(*old(g)).push(
            (EdgeInfo { source, target, direction }),
        ),
        eid == pg_edge_seq(*old(g)).len(),
{
    g.add_edge(
        petgraph::graph::NodeIndex::new(source),
        petgraph::graph::NodeIndex::new(target),
        direction,
    ).index()
}

/// Relies on `petgraph::graph::Graph::node_weight`: the weight at a
/// dense index, or `None` when the index is out of range. `NodeIndex::new`
/// truncates to u32, so ids above the u32 range are excluded; below it
/// the cast is faithful and `Vec::get` gives exactly this Some/None split.
#[verifier::external_body]
fn pg_node_weight(g: &petgraph::graph::Graph<NodeKind, EdgeDirection>, id: usize) -> (r: Option<
    NodeKind,
>)
    requires
        id <= 0xFFFF_FFFF,
    ensures
        id < pg_nodes(*g).len() ==> r == Some(pg_nodes(*g)[id as int]),
        id >= pg_nodes(*g).len() ==> r == None::<NodeKind>,
{
    g.node_weight(petgraph::graph::NodeIndex::new(id)).copied()
}

/// Relies on `petgraph::graph::Graph::edge_references`: all edges in
/// insertion order, each as its endpoint indices and weight.
#[verifier::external_body]
fn pg_edge_list(g: &petgraph::graph::Graph<NodeKind, EdgeDirection>) -> (r: Vec<EdgeInfo>)
    ensures
        r@ == pg_edge_seq(*g),
{
    g.edge_references().map(
        |e| EdgeInfo { source: e.source().index(), target: e.target().index(), direction: *e.weight() },
    ).collect()
}

/// One below the sentinel value of petgraph's u32 node index space.
pub const NODE_LIMIT: usize = 0xFFFF_FFFE;

/// One below the sentinel value of petgraph's u32 edge index space.
pub const EDGE_LIMIT: usize = 0xFFFF_FFFE;

/// A directed multigraph of typed nodes and typed edges, built once per
/// render pass. Node ids are dense indices assigned at insertion and
/// never reused.
pub struct GraphModel {
    inner: petgraph::graph::Graph<NodeKind, EdgeDirection>,
}

impl GraphModel {
    /// The node kinds, in id order.
    pub closed spec fn nodes(self) -> Seq<NodeKind> {
        pg_nodes(self.inner)
    }

    /// The edges, in insertion order.
    pub closed spec fn edge_list(self) -> Seq<EdgeInfo> {
        pg_edge_seq(self.inner)
    }

    /// Well-formed: within the index space, and every edge endpoint
    /// names an existing node.
    pub open spec fn wf(self) -> bool {
        &&& self.nodes().len() <= NODE_LIMIT
        &&& self.edge_list().len() <= EDGE_LIMIT
        &&& forall|i: int|
            0 <= i < self.edge_list().len() ==> (#[trigger] self.edge_list()[i]).source
                < self.nodes().len() && self.edge_list()[i].target < self.nodes().len()
    }

    /// An empty graph.
    pub fn new() -> (g: GraphModel)
        ensures
            g.wf(),
            g.nodes() == Seq::<NodeKind>::empty(),
            g.edge_list() == Seq::<EdgeInfo>::empty(),
    {
        GraphModel { inner: pg_new() }
    }

    /// Number of nodes.
    pub fn node_count(&self) -> (n: usize)
        ensures
            n == self.nodes().len(),
    {
        pg_node_count(&self.inner)
    }

    /// All node ids, in insertion order: the dense indices 0, 1, ...
    pub fn node_ids(&self) -> (ids: Vec<usize>)
        ensures
            ids@.len() == self.nodes().len(),
            forall|i: int| 0 <= i < ids@.len() ==> ids@[i] == i,
    {
        let n: usize = self.node_count();
        let mut ids: Vec<usize> = Vec::new();
        let mut i: usize = 0;
        while i < n
            invariant
                i <= n,
                n == self.nodes().len(),
                ids@.len() == i,
                forall|j: int| 0 <= j < i ==> ids@[j] == j,
            decreases n - i,
        {
            ids.push(i);
            i = i + 1;
        }
        ids
    }

    /// The kind of the node with the given id, or `NotFound` when the id
    /// is absent. An id beyond the u32 index space can name no node of a
    /// well-formed graph, so it is answered here without a lookup.
    pub fn node_kind(&self, id: usize) -> (r: Result<NodeKind, GraphError>)
        requires
            self.wf(),
        ensures
            id < self.nodes().len() ==> r == Ok::<NodeKind, GraphError>(self.nodes()[id as int]),
            id >= self.nodes().len() ==> r == Err::<NodeKind, GraphError>(GraphError::NotFound),
    {
        if id > 0xFFFF_FFFF {
            return Err(GraphError::NotFound);
        }
        match pg_node_weight(&self.inner, id) {
            Some(kind) => Ok(kind),
            None => Err(GraphError::NotFound),
        }
    }

    /// All edges, in insertion order.
    pub fn edges(&self) -> (es: Vec<EdgeInfo>)
        ensures
            es@ == self.edge_list(),
    {
        pg_edge_list(&self.inner)
    }

    /// Add a node of the given kind; its id is the next dense index.
    pub fn add_node(&mut self, kind: NodeKind) -> (id: usize)
        requires
            old(self).wf(),
            old(self).nodes().len() < NODE_LIMIT,
        ensures
            final(self).wf(),
            final(self).nodes() == old(self).nodes().push(kind),
            final(self).edge_list() == old(self).edge_list(),
            id == old(self).nodes().len(),
    {
        pg_add_node(&mut self.inner, kind)
    }

    /// Add an edge between two existing nodes; `InvalidEndpoint` exactly
    /// when either id is absent, in which case the graph is unchanged.
    pub fn add_edge(&mut self, source: usize, target: usize, direction: EdgeDirection) -> (r:
        Result<usize, GraphError>)
        requires
            old(self).wf(),
            old(self).edge_list().len() < EDGE_LIMIT,
        ensures
            final(self).wf(),
            final(self).nodes() == old(self).nodes(),
            source < old(self).nodes().len() && target < old(self).nodes().len() ==> r
                == Ok::<usize, GraphError>((old(self).edge_list().len() as usize))
                && final(self).edge_list() == old(self).edge_list().push(
                (EdgeInfo { source, target, direction }),
            ),
            !(source < old(self).nodes().len() && target < old(self).nodes().len()) ==> r
                == Err::<usize, GraphError>(GraphError::InvalidEndpoint) && final(self).edge_list()
                == old(self).edge_list(),
    {
        let n: usize = self.node_count();
        if source < n && target < n {
            Ok(pg_add_edge(&mut self.inner, source, target, direction))
        } else {
            Err(GraphError::InvalidEndpoint)
        }
    }
}

/// The sample graph the renderer displays: six nodes alternating between
/// value and relationship, and five edges covering every direction.
pub fn create_graph() -> (g: GraphModel)
    ensures
        g.wf(),
        g.nodes() =~= seq![
            NodeKind::Value,
            NodeKind::Relationship,
            NodeKind::Value,
            NodeKind::Relationship,
            NodeKind::Value,
            NodeKind::Relationship,
        ],
        g.edge_list() =~= seq![
            (EdgeInfo { source: 0, target: 1, direction: EdgeDirection::ValueToRel }),
            (EdgeInfo { source: 2, target: 3, direction: EdgeDirection::RelToVal }),
            (EdgeInfo { source: 4, target: 5, direction: EdgeDirection::Undirected }),
            (EdgeInfo { source: 1, target: 2, direction: EdgeDirection::Bidirectional }),
            (EdgeInfo { source: 3, target: 4, direction: EdgeDirection::ValueToRel }),
        ],
{
    let mut g = GraphModel::new();
    let v1 = g.add_node(NodeKind::Value);
    let r1 = g.add_node(NodeKind::Relationship);
    let v2 = g.add_node(NodeKind::Value);
    let r2 = g.add_node(NodeKind::Relationship);
    let v3 = g.add_node(NodeKind::Value);
    let r3 = g.add_node(NodeKind::Relationship);
    let _ = g.add_edge(v1, r1, EdgeDirection::ValueToRel);
    let _ = g.add_edge(v2, r2, EdgeDirection::RelToVal);
    let _ = g.add_edge(v3, r3, EdgeDirection::Undirected);
    let _ = g.add_edge(r1, v2, EdgeDirection::Bidirectional);
    let _ = g.add_edge(r2, v3, EdgeDirection::ValueToRel);
    g
}

} // verus!
