//! The directed graph that holds a control-flow graph: petgraph's `Graph`,
//! with node weights the basic blocks and edge weights the edge kinds.

use vstd::prelude::*;
use petgraph::graph::{EdgeIndex, Graph, NodeIndex};
use petgraph::Directed;
use super::cfg::{BasicBlock, EdgeKind};

verus! {

#[verifier::external_type_specification]
#[verifier::external_body]
#[verifier::reject_recursive_types(N)]
#[verifier::reject_recursive_types(E)]
#[verifier::reject_recursive_types(Ty)]
#[verifier::reject_recursive_types(Ix)]
pub struct ExGraph<N, E, Ty, Ix>(Graph<N, E, Ty, Ix>);

#[verifier::external_type_specification]
#[verifier::external_body]
pub struct ExDirected(Directed);

/// The graph type of a control-flow graph.
pub type CfgGraph = Graph<BasicBlock, EdgeKind, Directed, u32>;

/// The node weights of a graph, in node-index order.
pub uninterp spec fn graph_nodes(g: Graph<BasicBlock, EdgeKind, Directed, u32>) -> Seq<BasicBlock>;

/// The edges of a graph, in edge-index order: source index, target index, weight.
pub uninterp spec fn graph_edges(g: Graph<BasicBlock, EdgeKind, Directed, u32>) -> Seq<(usize, usize, EdgeKind)>;

/// `Graph::new`: a directed graph with no nodes and no edges.
#[verifier::external_body]
pub(crate) fn graph_new() -> (g: CfgGraph)
    ensures
        graph_nodes(g).len() == 0,
        graph_edges(g).len() == 0,
{
    Graph::new()
}

/// `Graph::add_node`: the weight is appended to the nodes and its index, the old
/// node count, is returned. The graph panics at `u32::MAX` nodes, hence the bound.
#[verifier::external_body]
pub(crate) fn graph_add_node(g: &mut CfgGraph, w: BasicBlock) -> (idx: usize)
    requires
        graph_nodes(*old(g)).len() < u32::MAX,
    ensures
        graph_nodes(*final(g)) == graph_nodes(*old(g)).push(w),
        graph_edges(*final(g)) == graph_edges(*old(g)),
        idx == graph_nodes(*old(g)).len(),
{
    g.add_node(w).index()
}

/// `Graph::add_edge`: the edge is appended to the edges. The graph panics on an
/// endpoint that is not a node and at `u32::MAX` edges, hence the bounds.
#[verifier::external_body]
pub(crate) fn graph_add_edge(g: &mut CfgGraph, a: usize, b: usize, k: EdgeKind)
    requires
        a < graph_nodes(*old(g)).len(),
        b < graph_nodes(*old(g)).len(),
        graph_edges(*old(g)).len() < u32::MAX,
    ensures
        graph_nodes(*final(g)) == graph_nodes(*old(g)),
        graph_edges(*final(g)) == graph_edges(*old(g)).push((a, b, k)),
{
    g.add_edge(NodeIndex::new(a), NodeIndex::new(b), k);
}

/// `Graph::node_count`: the number of nodes.
#[verifier::external_body]
pub(crate) fn graph_node_count(g: &CfgGraph) -> (n: usize)
    ensures
        n == graph_nodes(*g).len(),
{
    g.node_count()
}

/// `Graph::edge_count`: the number of edges.
#[verifier::external_body]
pub(crate) fn graph_edge_count(g: &CfgGraph) -> (n: usize)
    ensures
        n == graph_edges(*g).len(),
{
    g.edge_count()
}

/// Indexing a graph by a node index: the weight of that node.
#[verifier::external_body]
pub(crate) fn graph_node(g: &CfgGraph, i: usize) -> (w: &BasicBlock)
    requires
        i < graph_nodes(*g).len(),
    ensures
        *w == graph_nodes(*g)[i as int],
{
    &g[NodeIndex::new(i)]
}

/// Assigning through a mutable node index: the weight of that node is replaced.
#[verifier::external_body]
pub(crate) fn graph_set_node(g: &mut CfgGraph, i: usize, w: BasicBlock)
    requires
        i < graph_nodes(*old(g)).len(),
    ensures
        graph_nodes(*final(g)) == graph_nodes(*old(g)).update(i as int, w),
        graph_edges(*final(g)) == graph_edges(*old(g)),
{
    g[NodeIndex::new(i)] = w;
}

/// `Graph::edge_endpoints` of an existing edge: its source and target.
#[verifier::external_body]
pub(crate) fn graph_edge_endpoints(g: &CfgGraph, e: usize) -> (st: (usize, usize))
    requires
        e < graph_edges(*g).len(),
    ensures
        st.0 == graph_edges(*g)[e as int].0,
        st.1 == graph_edges(*g)[e as int].1,
{
    let (a, b) = g.edge_endpoints(EdgeIndex::new(e)).unwrap();
    (a.index(), b.index())
}

/// Indexing a graph by an edge index: the weight of that edge.
#[verifier::external_body]
pub(crate) fn graph_edge_weight(g: &CfgGraph, e: usize) -> (k: EdgeKind)
    requires
        e < graph_edges(*g).len(),
    ensures
        k == graph_edges(*g)[e as int].2,
{
    g[EdgeIndex::new(e)]
}

} // verus!
