//! Bridge to the directed-graph view of the `petgraph` crate.
//!
//! A finite chain can be converted into a directed weighted graph plus a
//! pointer to the current node, for consumption by external graph-analysis
//! tooling. The graph is opaque to verification; [`graph_payloads`] and
//! [`graph_edge_list`] name what it holds, and [`node_id`] names the index
//! a node handle stands for.

use vstd::prelude::*;

verus! {

#[verifier::external_type_specification]
#[verifier::external_body]
#[verifier::reject_recursive_types(N)]
#[verifier::reject_recursive_types(E)]
#[verifier::reject_recursive_types(Ty)]
#[verifier::reject_recursive_types(Ix)]
pub struct ExGraph<N, E, Ty, Ix>(petgraph::graph::Graph<N, E, Ty, Ix>);

#[verifier::external_type_specification]
#[verifier::external_body]
pub struct ExDirected(petgraph::Directed);

#[verifier::external_type_specification]
#[verifier::external_body]
#[verifier::reject_recursive_types(Ix)]
pub struct ExNodeIndex<Ix>(petgraph::graph::NodeIndex<Ix>);

/// The node payloads a graph holds, in insertion order.
pub uninterp spec fn graph_payloads(g: petgraph::graph::DiGraph<usize, u64>) -> Seq<usize>;

/// The (source index, target index, weight) edges a graph holds, in
/// insertion order.
pub uninterp spec fn graph_edge_list(g: petgraph::graph::DiGraph<usize, u64>) -> Seq<
    (usize, usize, u64),
>;

/// The position a node handle points at.
pub uninterp spec fn node_id(n: petgraph::graph::NodeIndex<u32>) -> usize;

/// The edges contributed by the first `j` entries of row `i`: one edge per
/// positive weight, in column order.
pub open spec fn row_edges(row: Seq<u64>, i: usize, j: int) -> Seq<(usize, usize, u64)>
    decreases j,
{
    if j <= 0 {
        Seq::empty()
    } else if row[j - 1] > 0 {
        row_edges(row, i, j - 1).push((i, (j - 1) as usize, row[j - 1]))
    } else {
        row_edges(row, i, j - 1)
    }
}

/// The edges of the first `i` full rows of the table, in row-major order.
pub open spec fn table_edges(m: Seq<Seq<u64>>, i: int) -> Seq<(usize, usize, u64)>
    decreases i,
{
    if i <= 0 {
        Seq::empty()
    } else {
        table_edges(m, i - 1) + row_edges(m[i - 1], (i - 1) as usize, m[i - 1].len() as int)
    }
}

/// A row's partial edge list never outgrows the full row's.
pub proof fn lemma_row_edges_mono(row: Seq<u64>, i: usize, j: int)
    requires
        0 <= j <= row.len(),
    ensures
        row_edges(row, i, j).len() <= row_edges(row, i, row.len() as int).len(),
    decreases row.len() - j,
{
    if j < row.len() {
        lemma_row_edges_mono(row, i, j + 1);
    }
}

/// A table's partial edge list never outgrows the whole table's.
pub proof fn lemma_table_edges_mono(m: Seq<Seq<u64>>, i: int)
    requires
        0 <= i <= m.len(),
    ensures
        table_edges(m, i).len() <= table_edges(m, m.len() as int).len(),
    decreases m.len() - i,
{
    if i < m.len() {
        lemma_table_edges_mono(m, i + 1);
    }
}

/// Relies on `petgraph::graph::Graph::new`, which builds a graph with no
/// nodes and no edges.
#[verifier::external_body]
pub(crate) fn digraph_new() -> (r: petgraph::graph::DiGraph<usize, u64>)
    ensures
        graph_payloads(r) == Seq::<usize>::empty(),
        graph_edge_list(r) == Seq::<(usize, usize, u64)>::empty(),
{
    petgraph::graph::DiGraph::new()
}

/// Relies on `Graph::add_node`, which appends a node and returns its
/// position; it panics only when the node count would overflow the index
/// type.
#[verifier::external_body]
pub(crate) fn digraph_add_node(g: &mut petgraph::graph::DiGraph<usize, u64>, payload: usize) -> (r:
    petgraph::graph::NodeIndex<u32>)
    requires
        graph_payloads(*old(g)).len() < u32::MAX,
    ensures
        graph_payloads(*final(g)) == graph_payloads(*old(g)).push(payload),
        graph_edge_list(*final(g)) == graph_edge_list(*old(g)),
        node_id(r) == graph_payloads(*old(g)).len(),
{
    g.add_node(payload)
}

/// Relies on `Graph::add_edge`, which appends an edge between two existing
/// nodes; it panics only on a dangling node handle or when the edge count
/// would overflow the index type.
#[verifier::external_body]
pub(crate) fn digraph_add_edge(
    g: &mut petgraph::graph::DiGraph<usize, u64>,
    a: petgraph::graph::NodeIndex<u32>,
    b: petgraph::graph::NodeIndex<u32>,
    weight: u64,
)
    requires
        node_id(a) < graph_payloads(*old(g)).len(),
        node_id(b) < graph_payloads(*old(g)).len(),
        graph_edge_list(*old(g)).len() < u32::MAX,
    ensures
        graph_payloads(*final(g)) == graph_payloads(*old(g)),
        graph_edge_list(*final(g)) == graph_edge_list(*old(g)).push(
            (node_id(a), node_id(b), weight),
        ),
{
    g.add_edge(a, b, weight);
}

} // verus!
