//! The link graph: a `petgraph` graph whose nodes carry note identifiers.
//!
//! The graph is an outside type, so its contents are given names (`graph_nodes`, `graph_edges`)
//! and each method that the store calls is wrapped with a contract over those names.
use petgraph::dot::{Config, Dot};
use petgraph::graph::{Graph, NodeIndex};
use petgraph::Directed;
use uuid::Uuid;
use vstd::prelude::*;

verus! {

#[verifier::external_type_specification]
#[verifier::external_body]
pub struct ExUuid(Uuid);

#[verifier::external_type_specification]
#[verifier::external_body]
pub struct ExDirected(Directed);

#[verifier::external_type_specification]
#[verifier::external_body]
#[verifier::reject_recursive_types(N)]
#[verifier::reject_recursive_types(E)]
#[verifier::reject_recursive_types(Ty)]
#[verifier::reject_recursive_types(Ix)]
pub struct ExGraph<N, E, Ty, Ix>(Graph<N, E, Ty, Ix>);

/// The graph type of a store: nodes carry a note's UUID, edges a placeholder weight.
pub type LinkGraph = Graph<Uuid, u8, Directed, u32>;

/// The identifiers carried by the graph's nodes, as 128-bit integers, in node-index order.
pub uninterp spec fn graph_nodes(g: LinkGraph) -> Seq<u128>;

/// The graph's edges as (source index, target index), in edge-index order.
pub uninterp spec fn graph_edges(g: LinkGraph) -> Seq<(usize, usize)>;

/// The largest number of nodes or edges a graph with `u32` indices can hold.
pub const GRAPH_CAPACITY: usize = 0xffff_ffff;

/// Relies on `Graph::new`: a directed graph with no nodes and no edges.
#[verifier::external_body]
pub(crate) fn new_graph() -> (g: LinkGraph)
    ensures
        graph_nodes(g) == Seq::<u128>::empty(),
        graph_edges(g) == Seq::<(usize, usize)>::empty(),
{
    Graph::new()
}

/// Relies on `Graph::add_node`: the node is appended, its index is the old node count, and it
/// panics only when the count reaches the `u32` index limit.
#[verifier::external_body]
pub(crate) fn add_node(g: &mut LinkGraph, id: u128) -> (r: usize)
    requires
        graph_nodes(*old(g)).len() < GRAPH_CAPACITY,
    ensures
        r == graph_nodes(*old(g)).len(),
        graph_nodes(*final(g)) == graph_nodes(*old(g)).push(id),
        graph_edges(*final(g)) == graph_edges(*old(g)),
{
    g.add_node(Uuid::from_u128(id)).index()
}

/// Relies on `Graph::add_edge`: the edge is appended; it panics only on an endpoint out of
/// range or when the edge count reaches the `u32` index limit.
#[verifier::external_body]
pub(crate) fn add_edge(g: &mut LinkGraph, source: usize, target: usize, weight: u8)
    requires
        source < graph_nodes(*old(g)).len(),
        target < graph_nodes(*old(g)).len(),
        graph_edges(*old(g)).len() < GRAPH_CAPACITY,
    ensures
        graph_nodes(*final(g)) == graph_nodes(*old(g)),
        graph_edges(*final(g)) == graph_edges(*old(g)).push((source, target)),
{
    g.add_edge(NodeIndex::new(source), NodeIndex::new(target), weight);
}

/// Relies on `Graph::node_count`: the number of nodes.
#[verifier::external_body]
pub(crate) fn node_count(g: &LinkGraph) -> (r: usize)
    ensures
        r == graph_nodes(*g).len(),
{
    g.node_count()
}

/// Relies on `Graph::edge_count`: the number of edges.
#[verifier::external_body]
pub(crate) fn edge_count(g: &LinkGraph) -> (r: usize)
    ensures
        r == graph_edges(*g).len(),
{
    g.edge_count()
}

/// Relies on indexing a `Graph` by node: the weight of node `i`, read as a 128-bit integer.
#[verifier::external_body]
pub(crate) fn node_id(g: &LinkGraph, i: usize) -> (r: u128)
    requires
        i < graph_nodes(*g).len(),
    ensures
        r == graph_nodes(*g)[i as int],
{
    g[NodeIndex::new(i)].as_u128()
}

/// Relies on `Graph::raw_edges`: the endpoints of edge `i`.
#[verifier::external_body]
pub(crate) fn edge_endpoints(g: &LinkGraph, i: usize) -> (r: (usize, usize))
    requires
        i < graph_edges(*g).len(),
    ensures
        r == graph_edges(*g)[i as int],
{
    let e = &g.raw_edges()[i];
    (e.source().index(), e.target().index())
}

/// The Graphviz text that `petgraph::dot::Dot` writes for a graph with these nodes and edges,
/// edges unlabelled.
pub uninterp spec fn dot_of(nodes: Seq<u128>, edges: Seq<(usize, usize)>) -> Seq<char>;

/// Relies on `Dot::with_config` with `Config::EdgeNoLabel`: the Graphviz text depends on the
/// graph's nodes and edges alone.
#[verifier::external_body]
pub(crate) fn render_dot(g: &LinkGraph) -> (r: String)
    ensures
        r@ == dot_of(graph_nodes(*g), graph_edges(*g)),
{
    format!("{:?}", Dot::with_config(g, &[Config::EdgeNoLabel]))
}

} // verus!
