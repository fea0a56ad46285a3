//! Directed graphs of `petgraph`, seen as a node count and the sequence of
//! their edges in order of insertion.

use vstd::prelude::*;

use petgraph::graph::{Graph, NodeIndex};

verus! {

#[verifier::external_type_specification]
#[verifier::external_body]
#[verifier::reject_recursive_types(N)]
#[verifier::reject_recursive_types(E)]
#[verifier::reject_recursive_types(Ty)]
#[verifier::reject_recursive_types(Ix)]
pub struct ExGraph<N, E, Ty, Ix>(Graph<N, E, Ty, Ix>);

#[verifier::external_type_specification]
#[verifier::external_body]
pub struct ExDirected(petgraph::Directed);

/// Node indices of a `Graph` are `u32`: one index value is reserved.
pub const INDEX_LIMIT: usize = 4294967295;

/// How many nodes a graph holds.
pub uninterp spec fn node_count_of(g: Graph<(), ()>) -> nat;

/// The edges of a graph, as (source, target) pairs in order of insertion.
pub uninterp spec fn edges_of(g: Graph<(), ()>) -> Seq<(usize, usize)>;

/// The targets of the edges out of `a`, the most recently added first.
pub open spec fn out_targets(edges: Seq<(usize, usize)>, a: usize) -> Seq<usize>
    decreases edges.len(),
{
    if edges.len() == 0 {
        Seq::empty()
    } else if edges.last().0 == a {
        seq![edges.last().1] + out_targets(edges.drop_last(), a)
    } else {
        out_targets(edges.drop_last(), a)
    }
}

/// The sources of the edges into `a`, the most recently added first.
pub open spec fn in_sources(edges: Seq<(usize, usize)>, a: usize) -> Seq<usize>
    decreases edges.len(),
{
    if edges.len() == 0 {
        Seq::empty()
    } else if edges.last().1 == a {
        seq![edges.last().0] + in_sources(edges.drop_last(), a)
    } else {
        in_sources(edges.drop_last(), a)
    }
}

/// Relies on `Graph::new`: a graph with no nodes and no edges.
#[verifier::external_body]
pub fn new_graph() -> (r: Graph<(), ()>)
    ensures
        node_count_of(r) == 0,
        edges_of(r) == Seq::<(usize, usize)>::empty(),
{
    Graph::new()
}

/// Relies on `Graph::add_node`: the new node's index is the old node count,
/// and it panics only when that index is the reserved one.
#[verifier::external_body]
pub fn add_vertex(g: &mut Graph<(), ()>) -> (r: usize)
    requires
        node_count_of(*old(g)) < INDEX_LIMIT,
    ensures
        r == node_count_of(*old(g)),
        node_count_of(*final(g)) == node_count_of(*old(g)) + 1,
        edges_of(*final(g)) == edges_of(*old(g)),
{
    g.add_node(()).index()
}

/// Relies on `Graph::add_edge`: the edge is appended, also where the same
/// pair is there already; it panics only on an absent node or when the new
/// edge's index is the reserved one.
#[verifier::external_body]
pub fn add_arc(g: &mut Graph<(), ()>, a: usize, b: usize)
    requires
        a < node_count_of(*old(g)),
        b < node_count_of(*old(g)),
        edges_of(*old(g)).len() < INDEX_LIMIT,
    ensures
        node_count_of(*final(g)) == node_count_of(*old(g)),
        edges_of(*final(g)) == edges_of(*old(g)).push((a, b)),
{
    g.add_edge(NodeIndex::new(a), NodeIndex::new(b), ());
}

/// Relies on `Graph::contains_edge`: whether some edge goes from `a` to `b`.
#[verifier::external_body]
pub fn has_arc(g: &Graph<(), ()>, a: usize, b: usize) -> (r: bool)
    requires
        a < node_count_of(*g),
        b < node_count_of(*g),
    ensures
        r == edges_of(*g).contains((a, b)),
{
    g.contains_edge(NodeIndex::new(a), NodeIndex::new(b))
}

/// Relies on `Graph::neighbors_directed` on a directed graph: the targets of
/// the edges out of `a` (with `outgoing`) or the sources of the edges into
/// `a`, listed in reverse order of the edges' addition.
#[verifier::external_body]
pub fn neighbor_list(g: &Graph<(), ()>, a: usize, outgoing: bool) -> (r: Vec<usize>)
    requires
        a < node_count_of(*g),
    ensures
        outgoing ==> r@ == out_targets(edges_of(*g), a),
        !outgoing ==> r@ == in_sources(edges_of(*g), a),
{
    let dir = if outgoing {
        petgraph::Direction::Outgoing
    } else {
        petgraph::Direction::Incoming
    };
    g.neighbors_directed(NodeIndex::new(a), dir).map(|n| n.index()).collect()
}

/// Relies on `Graph::raw_edges`: the edges in order of insertion.
#[verifier::external_body]
pub fn edge_list(g: &Graph<(), ()>) -> (r: Vec<(usize, usize)>)
    ensures
        r@ == edges_of(*g),
{
    g.raw_edges().iter().map(|e| (e.source().index(), e.target().index())).collect()
}

} // verus!
