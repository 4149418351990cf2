//! Directed graph over node identifiers, backed by petgraph's `GraphMap`.
//!
//! The graph stores plain `u64` node identifiers; callers keep the data the
//! identifiers stand for. Its contents are described by two names:
//! [`graph_node_seq`], the node identifiers in insertion order, and
//! [`graph_edge_seq`], the directed edges in insertion order.

use vstd::prelude::*;

use petgraph::graphmap::GraphMap;
use petgraph::Directed;

verus! {

#[verifier::external_type_specification]
#[verifier::external_body]
#[verifier::reject_recursive_types(N)]
#[verifier::reject_recursive_types(E)]
#[verifier::reject_recursive_types(Ty)]
#[verifier::reject_recursive_types(S)]
pub struct ExGraphMap<N, E, Ty, S>(GraphMap<N, E, Ty, S>) where S: core::hash::BuildHasher;

#[verifier::external_type_specification]
#[verifier::external_body]
pub struct ExDirected(Directed);

/// The node identifiers held by the graph, in insertion order, each once.
pub uninterp spec fn graph_node_seq(g: GraphMap<u64, (), Directed>) -> Seq<u64>;

/// The directed edges held by the graph, in insertion order, each once.
pub uninterp spec fn graph_edge_seq(g: GraphMap<u64, (), Directed>) -> Seq<(u64, u64)>;

/// What petgraph's `tarjan_scc` returns on a graph with these nodes and
/// edges: the strongly connected components in dependency-first order.
/// The result depends on the graph contents alone.
pub uninterp spec fn tarjan_postorder(nodes: Seq<u64>, edges: Seq<(u64, u64)>) -> Seq<Seq<u64>>;

/// A walk through the edge table: consecutive elements are edges.
pub open spec fn is_path(edges: Seq<(u64, u64)>, p: Seq<u64>) -> bool {
    p.len() >= 1 && forall|k: int|
        0 <= k < p.len() - 1 ==> edges.contains((#[trigger] p[k], p[k + 1]))
}

/// Reachability over the edge table; every node reaches itself by the
/// one-element walk.
pub open spec fn reachable(edges: Seq<(u64, u64)>, a: u64, b: u64) -> bool {
    exists|p: Seq<u64>| is_path(edges, p) && p.first() == a && p.last() == b
}

/// Relies on petgraph's `GraphMap::new`: a freshly created graph is empty.
#[verifier::external_body]
pub fn graph_new() -> (g: GraphMap<u64, (), Directed>)
    ensures
        graph_node_seq(g) == Seq::<u64>::empty(),
        graph_edge_seq(g) == Seq::<(u64, u64)>::empty(),
{
    GraphMap::new()
}

/// Relies on petgraph's `GraphMap::add_node`: the node is appended to the
/// node table if absent, and nothing else changes.
#[verifier::external_body]
pub fn graph_add_node(g: &mut GraphMap<u64, (), Directed>, n: u64)
    ensures
        graph_node_seq(*final(g)) == if graph_node_seq(*old(g)).contains(n) {
            graph_node_seq(*old(g))
        } else {
            graph_node_seq(*old(g)).push(n)
        },
        graph_edge_seq(*final(g)) == graph_edge_seq(*old(g)),
{
    g.add_node(n);
}

/// Relies on petgraph's `GraphMap::add_edge`: the directed edge `a -> b` is
/// appended to the edge table if absent; existing endpoints stay as they are.
#[verifier::external_body]
pub fn graph_add_edge(g: &mut GraphMap<u64, (), Directed>, a: u64, b: u64)
    requires
        graph_node_seq(*old(g)).contains(a),
        graph_node_seq(*old(g)).contains(b),
    ensures
        graph_node_seq(*final(g)) == graph_node_seq(*old(g)),
        graph_edge_seq(*final(g)) == if graph_edge_seq(*old(g)).contains((a, b)) {
            graph_edge_seq(*old(g))
        } else {
            graph_edge_seq(*old(g)).push((a, b))
        },
{
    g.add_edge(a, b, ());
}

/// Relies on petgraph's `GraphMap::contains_edge`: membership in the edge
/// table.
#[verifier::external_body]
pub fn graph_contains_edge(g: &GraphMap<u64, (), Directed>, a: u64, b: u64) -> (r: bool)
    ensures
        r == graph_edge_seq(*g).contains((a, b)),
{
    g.contains_edge(a, b)
}

/// Relies on petgraph's `tarjan_scc`: the result lists each strongly
/// connected component once, every member is a graph node and every graph
/// node is a member of exactly one component, no component is empty, a
/// component's members all reach one another, mutually reachable nodes
/// share a component (each component is strongly connected and maximal),
/// and the components come in postorder of the condensation (reverse
/// topological order), so an edge's target never sits in a later component
/// than its source. The result depends on the graph contents alone.
#[verifier::external_body]
pub fn graph_postorder_sccs(g: &GraphMap<u64, (), Directed>) -> (r: Vec<Vec<u64>>)
    ensures
        r.deep_view() == tarjan_postorder(graph_node_seq(*g), graph_edge_seq(*g)),
        r.deep_view().flatten().to_multiset() == graph_node_seq(*g).to_multiset(),
        forall|i: int| 0 <= i < r.deep_view().len() ==> #[trigger] r.deep_view()[i].len() > 0,
        forall|i: int, j: int, e: (u64, u64)|
            0 <= i < r.deep_view().len() && 0 <= j < r.deep_view().len()
                && graph_edge_seq(*g).contains(e) && #[trigger] r.deep_view()[i].contains(e.0)
                && #[trigger] r.deep_view()[j].contains(e.1) ==> j <= i,
        forall|i: int, x: u64, y: u64|
            0 <= i < r.deep_view().len() && #[trigger] r.deep_view()[i].contains(x)
                && #[trigger] r.deep_view()[i].contains(y) ==> reachable(
                graph_edge_seq(*g),
                x,
                y,
            ),
        forall|i: int, j: int, x: u64, y: u64|
            0 <= i < r.deep_view().len() && 0 <= j < r.deep_view().len()
                && #[trigger] r.deep_view()[i].contains(x) && #[trigger] r.deep_view()[j].contains(
                y,
            ) && reachable(graph_edge_seq(*g), x, y) && reachable(graph_edge_seq(*g), y, x) ==> i
                == j,
{
    petgraph::algo::tarjan_scc(g)
}

} // verus!
