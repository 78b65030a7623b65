use vstd::prelude::*;

use petgraph::graph::{DiGraph, Graph, NodeIndex};
use petgraph::visit::{Dfs, DfsPostOrder, Walker};
use petgraph::Direction;

verus! {

/// The graph type of petgraph. Its contents are seen through `graph_node_count` and
/// `graph_edges`.
#[verifier::external_type_specification]
#[verifier::external_body]
#[verifier::reject_recursive_types(N)]
#[verifier::reject_recursive_types(E)]
#[verifier::reject_recursive_types(Ty)]
#[verifier::reject_recursive_types(Ix)]
pub struct ExGraph<N, E, Ty, Ix>(Graph<N, E, Ty, Ix>);

/// The marker type of directed graphs in petgraph.
#[verifier::external_type_specification]
#[verifier::external_body]
pub struct ExDirected(petgraph::Directed);

/// The edges of a graph, as (source, target) node indices, in the order they were added.
pub uninterp spec fn graph_edges(g: DiGraph<(), ()>) -> Seq<(int, int)>;

/// The number of nodes of a graph; its nodes are the indices below it.
pub uninterp spec fn graph_node_count(g: DiGraph<(), ()>) -> nat;

/// The neighbours of node `a` in one direction, the most recently added edge first:
/// targets of the edges leaving `a` when `outgoing`, sources of those entering it otherwise.
pub open spec fn spec_neighbors(edges: Seq<(int, int)>, a: int, outgoing: bool) -> Seq<int>
    decreases edges.len(),
{
    if edges.len() == 0 {
        seq![]
    } else {
        let e = edges.last();
        let rest = spec_neighbors(edges.drop_last(), a, outgoing);
        if outgoing && e.0 == a {
            seq![e.1] + rest
        } else if !outgoing && e.1 == a {
            seq![e.0] + rest
        } else {
            rest
        }
    }
}

/// A path of edges leads from `from` to `to` (every node reaches itself).
pub open spec fn reachable(edges: Seq<(int, int)>, from: int, to: int) -> bool {
    exists|path: Seq<int>|
        #![trigger path.len(), path[0]]
        path.len() >= 1 && path[0] == from && path.last() == to && forall|i: int|
            0 <= i < path.len() - 1 ==> edges.contains((path[i], #[trigger] path[i + 1]))
}

/// The order in which petgraph's `DfsPostOrder`, started at `start`, emits the nodes of a
/// graph with `node_count` nodes and the given edges.
pub uninterp spec fn dfs_post_order(node_count: nat, edges: Seq<(int, int)>, start: int) -> Seq<usize>;

/// Creates an empty directed graph.
///
/// Trusted: calls `Graph::new` of petgraph, which creates a graph without nodes or edges.
#[verifier::external_body]
pub(crate) fn graph_new() -> (g: DiGraph<(), ()>)
    ensures
        graph_node_count(g) == 0,
        graph_edges(g) == Seq::<(int, int)>::empty(),
{
    DiGraph::new()
}

/// Adds a node and returns its index.
///
/// Trusted: calls `Graph::add_node` of petgraph, whose source pushes the node and returns the
/// previous node count as its index; it panics only when the count reaches the largest
/// `u32`, which the `requires` rules out. The edges are untouched.
#[verifier::external_body]
pub(crate) fn graph_add_node(g: &mut DiGraph<(), ()>) -> (n: usize)
    requires
        graph_node_count(*old(g)) < u32::MAX,
    ensures
        n == graph_node_count(*old(g)),
        graph_node_count(*final(g)) == graph_node_count(*old(g)) + 1,
        graph_edges(*final(g)) == graph_edges(*old(g)),
{
    g.add_node(()).index()
}

/// Adds an edge from `a` to `b`.
///
/// Trusted: calls `Graph::add_edge` of petgraph, whose source appends the edge to the edge
/// list (parallel edges are kept) and panics only on a missing node or when the edge count
/// reaches the largest `u32`, both ruled out by the `requires`.
#[verifier::external_body]
pub(crate) fn graph_add_edge(g: &mut DiGraph<(), ()>, a: usize, b: usize)
    requires
        a < graph_node_count(*old(g)),
        b < graph_node_count(*old(g)),
        graph_edges(*old(g)).len() < u32::MAX,
    ensures
        graph_node_count(*final(g)) == graph_node_count(*old(g)),
        graph_edges(*final(g)) == graph_edges(*old(g)).push((a as int, b as int)),
{
    g.add_edge(NodeIndex::new(a), NodeIndex::new(b), ());
}

/// The neighbours of node `a`, following outgoing edges or incoming ones.
///
/// Trusted: calls `Graph::neighbors_directed` of petgraph, documented to list, for a directed
/// graph, the other ends of the edges in the given direction, most recently added first.
#[verifier::external_body]
pub(crate) fn graph_neighbors(g: &DiGraph<(), ()>, a: usize, outgoing: bool) -> (r: Vec<usize>)
    requires
        a < graph_node_count(*g),
    ensures
        r@.map_values(|n: usize| n as int) == spec_neighbors(graph_edges(*g), a as int, outgoing),
{
    let dir = if outgoing { Direction::Outgoing } else { Direction::Incoming };
    g.neighbors_directed(NodeIndex::new(a), dir).map(|n| n.index()).collect()
}

/// The edges of the graph, in the order they were added.
///
/// Trusted: calls `Graph::raw_edges` of petgraph, whose source returns the edge list itself.
#[verifier::external_body]
pub(crate) fn graph_raw_edges(g: &DiGraph<(), ()>) -> (r: Vec<(usize, usize)>)
    ensures
        r@.map_values(|e: (usize, usize)| (e.0 as int, e.1 as int)) == graph_edges(*g),
{
    g.raw_edges().iter().map(|e| (e.source().index(), e.target().index())).collect()
}

/// The nodes that a depth-first search from `start` visits, in the order it discovers them.
///
/// Trusted: calls petgraph's `Dfs`, documented to traverse exactly the nodes reachable from
/// `start`; its source marks each node visited once, so none comes twice. The order among
/// them is not stated.
#[verifier::external_body]
pub(crate) fn graph_dfs(g: &DiGraph<(), ()>, start: usize) -> (r: Vec<usize>)
    requires
        start < graph_node_count(*g),
    ensures
        r@.no_duplicates(),
        forall|n: usize|
            r@.contains(n) <==> (n < graph_node_count(*g) && reachable(graph_edges(*g), start as int, n as int)),
{
    Dfs::new(g, NodeIndex::new(start)).iter(g).map(|n| n.index()).collect()
}

/// The nodes that a post-order depth-first search from `start` emits, in order.
///
/// Trusted: calls petgraph's `DfsPostOrder`. The order is named by `dfs_post_order`; the
/// contract adds what its documentation and source show: it emits exactly the nodes
/// reachable from `start`, each once.
#[verifier::external_body]
pub(crate) fn graph_dfs_post_order(g: &DiGraph<(), ()>, start: usize) -> (r: Vec<usize>)
    requires
        start < graph_node_count(*g),
    ensures
        r@ == dfs_post_order(graph_node_count(*g), graph_edges(*g), start as int),
        r@.no_duplicates(),
        forall|n: usize|
            r@.contains(n) <==> (n < graph_node_count(*g) && reachable(graph_edges(*g), start as int, n as int)),
{
    DfsPostOrder::new(g, NodeIndex::new(start)).iter(g).map(|n| n.index()).collect()
}

} // verus!
