//! Trusted boundary to the external graph store.
//!
//! The dependency engine keeps its directed graph in `petgraph`'s
//! `DiGraph`. The graph value is opaque here; two names describe its
//! contents — the node weights in index order and the directed edges in
//! insertion order — and each method the engine calls is wrapped with a
//! contract over those names, as `petgraph`'s source shows its behaviour.

use vstd::prelude::*;

verus! {

#[verifier::external_type_specification]
#[verifier::external_body]
#[verifier::reject_recursive_types(N)]
#[verifier::reject_recursive_types(E)]
#[verifier::reject_recursive_types(Ty)]
#[verifier::reject_recursive_types(Ix)]
pub struct ExGraph<N, E, Ty, Ix>(petgraph::graph::Graph<N, E, Ty, Ix>);

#[verifier::external_type_specification]
#[verifier::external_body]
pub struct ExDirected(petgraph::Directed);

/// The node weights of the graph, in node index order.
pub uninterp spec fn graph_nodes(g: petgraph::graph::DiGraph<String, ()>) -> Seq<Seq<char>>;

/// The directed edges of the graph as (source, target) index pairs, in
/// insertion order.
pub uninterp spec fn graph_edges(g: petgraph::graph::DiGraph<String, ()>) -> Seq<(int, int)>;

/// The targets of the edges leaving node `n`, most recently added first:
/// the order in which `petgraph`'s `neighbors` walks them on a directed
/// graph.
pub open spec fn adjacency(edges: Seq<(int, int)>, n: int) -> Seq<int> {
    edges.filter(|e: (int, int)| e.0 == n).map_values(|e: (int, int)| e.1).reverse()
}

/// Relies on Graph::new: the empty directed graph.
#[verifier::external_body]
pub fn graph_new() -> (g: petgraph::graph::DiGraph<String, ()>)
    ensures
        graph_nodes(g) == Seq::<Seq<char>>::empty(),
        graph_edges(g) == Seq::<(int, int)>::empty(),
{
    petgraph::graph::DiGraph::new()
}

/// Relies on Graph::add_node: appends one node and returns its index;
/// the index space must not be exhausted, or the call would panic.
#[verifier::external_body]
pub fn graph_add_node(g: &mut petgraph::graph::DiGraph<String, ()>, w: String) -> (i: usize)
    requires
        graph_nodes(*old(g)).len() < 0xFFFF_FFFF,
    ensures
        graph_nodes(*final(g)) == graph_nodes(*old(g)).push(w@),
        graph_edges(*final(g)) == graph_edges(*old(g)),
        i as int == graph_nodes(*old(g)).len(),
{
    g.add_node(w).index()
}

/// Relies on Graph::add_edge: appends one directed edge between existing
/// nodes; a missing endpoint or an exhausted index space would panic.
#[verifier::external_body]
pub fn graph_add_edge(g: &mut petgraph::graph::DiGraph<String, ()>, a: usize, b: usize)
    requires
        a < graph_nodes(*old(g)).len(),
        b < graph_nodes(*old(g)).len(),
        graph_edges(*old(g)).len() < 0xFFFF_FFFF,
    ensures
        graph_nodes(*final(g)) == graph_nodes(*old(g)),
        graph_edges(*final(g)) == graph_edges(*old(g)).push((a as int, b as int)),
{
    g.add_edge(
        petgraph::graph::NodeIndex::new(a),
        petgraph::graph::NodeIndex::new(b),
        (),
    );
}

/// Relies on Graph::neighbors: the targets of the edges leaving `n`, in
/// reverse order of edge addition.
#[verifier::external_body]
pub fn graph_neighbors(g: &petgraph::graph::DiGraph<String, ()>, n: usize) -> (r: Vec<usize>)
    requires
        n < graph_nodes(*g).len(),
    ensures
        r@.map_values(|x: usize| x as int) == adjacency(graph_edges(*g), n as int),
        forall|k: int| 0 <= k < r@.len() ==> (#[trigger] r@[k]) < graph_nodes(*g).len(),
{
    g.neighbors(petgraph::graph::NodeIndex::new(n)).map(|x| x.index()).collect()
}

/// Relies on Index for Graph: the weight of node `n`.
#[verifier::external_body]
pub fn graph_node_name(g: &petgraph::graph::DiGraph<String, ()>, n: usize) -> (r: String)
    requires
        n < graph_nodes(*g).len(),
    ensures
        r@ == graph_nodes(*g)[n as int],
{
    g[petgraph::graph::NodeIndex::new(n)].clone()
}

} // verus!
