//! Graph diffs: what one update did to the graph, tagged with a sequence number.
use vstd::prelude::*;
use crate::graph::{detach, increasing_edges, increasing_nodes, Graph, GraphView};
use crate::model::{same_node, EdgeId, GraphEdge, GraphNode, NodeId};

verus! {

/// A change to the graph, broadcast to clients.
pub struct GraphDiff {
    /// Strictly increasing over successive emissions.
    pub sequence: u64,
    pub added_nodes: Vec<GraphNode>,
    pub removed_nodes: Vec<NodeId>,
    pub added_edges: Vec<GraphEdge>,
    pub removed_edges: Vec<EdgeId>,
    pub modified_nodes: Vec<NodeId>,
}

impl GraphDiff {
    /// An empty diff with the given sequence number.
    pub fn new(sequence: u64) -> (r: GraphDiff)
        ensures
            r.sequence == sequence,
            r.added_nodes@.len() == 0,
            r.removed_nodes@.len() == 0,
            r.added_edges@.len() == 0,
            r.removed_edges@.len() == 0,
            r.modified_nodes@.len() == 0,
    {
        GraphDiff {
            sequence,
            added_nodes: Vec::new(),
            removed_nodes: Vec::new(),
            added_edges: Vec::new(),
            removed_edges: Vec::new(),
            modified_nodes: Vec::new(),
        }
    }

    /// Whether the diff changes nothing.
    pub fn is_empty(&self) -> (r: bool)
        ensures
            r == (self.added_nodes@.len() == 0 && self.removed_nodes@.len() == 0
                && self.added_edges@.len() == 0 && self.removed_edges@.len() == 0
                && self.modified_nodes@.len() == 0),
    {
        self.added_nodes.len() == 0 && self.removed_nodes.len() == 0 && self.added_edges.len() == 0
            && self.removed_edges.len() == 0 && self.modified_nodes.len() == 0
    }
}

/// Removes the listed edges, in order (ids that are not live are skipped).
pub open spec fn drop_edges(g: GraphView, ids: Seq<EdgeId>) -> GraphView
    decreases ids.len(),
{
    if ids.len() == 0 {
        g
    } else {
        let h = drop_edges(g, ids.drop_last());
        let id = ids.last();
        if h.has_edge(id) {
            GraphView { nodes: h.nodes, edges: h.edges.update(id.0 as int, None) }
        } else {
            h
        }
    }
}

/// Removes the listed nodes, in order, each with its incident edges.
pub open spec fn drop_nodes(g: GraphView, ids: Seq<NodeId>) -> GraphView
    decreases ids.len(),
{
    if ids.len() == 0 {
        g
    } else {
        let h = drop_nodes(g, ids.drop_last());
        let id = ids.last();
        if h.has_node(id) {
            GraphView { nodes: h.nodes.update(id.0 as int, None), edges: detach(h.edges, id) }
        } else {
            h
        }
    }
}

/// What a client's replica becomes after applying a diff: removals first (edges,
/// then nodes with their incident edges), then the added nodes and edges appended
/// in the slots their ids name.
pub open spec fn apply_diff(
    g: GraphView,
    removed_edges: Seq<EdgeId>,
    removed_nodes: Seq<NodeId>,
    added_nodes: Seq<GraphNode>,
    added_edges: Seq<GraphEdge>,
) -> GraphView {
    let h = drop_nodes(drop_edges(g, removed_edges), removed_nodes);
    GraphView {
        nodes: h.nodes + added_nodes.map_values(|n: GraphNode| Some(n)),
        edges: h.edges + added_edges.map_values(|e: GraphEdge| Some(e)),
    }
}

/// Two graph views hold the same nodes and edges slot by slot (node metadata
/// compared by contents).
pub open spec fn same_graph(a: GraphView, b: GraphView) -> bool {
    &&& a.nodes.len() == b.nodes.len()
    &&& a.edges == b.edges
    &&& forall|i: int|
        0 <= i < a.nodes.len() ==> (#[trigger] a.nodes[i] is Some) == (b.nodes[i] is Some)
            && (a.nodes[i] is Some ==> same_node(a.nodes[i].unwrap(), b.nodes[i].unwrap()))
}

/// The diff sequence counter.
pub struct DiffEngine {
    sequence: u64,
}

impl View for DiffEngine {
    type V = u64;

    closed spec fn view(&self) -> u64 {
        self.sequence
    }
}

impl DiffEngine {
    /// A counter that has issued nothing yet.
    pub fn new() -> (r: DiffEngine)
        ensures
            r@ == 0,
    {
        DiffEngine { sequence: 0 }
    }

    /// The last sequence number issued (0 before the first).
    pub fn sequence(&self) -> (r: u64)
        ensures
            r == self@,
    {
        self.sequence
    }

    /// Issues the next sequence number.
    pub fn next_sequence(&mut self) -> (r: u64)
        requires
            old(self)@ < u64::MAX,
        ensures
            r == old(self)@ + 1,
            final(self)@ == r,
    {
        self.sequence = self.sequence + 1;
        self.sequence
    }

    /// The diff that takes `old_graph` to `new_graph`, under the next sequence
    /// number: nodes and edges live only in the new graph are added (as copies),
    /// those live only in the old one are removed, each list in increasing id order.
    pub fn compute_diff(&mut self, old_graph: &Graph, new_graph: &Graph) -> (d: GraphDiff)
        requires
            old(self)@ < u64::MAX,
            old_graph@.wf(),
            new_graph@.wf(),
        ensures
            d.sequence == old(self)@ + 1,
            final(self)@ == d.sequence,
            increasing_nodes(d.removed_nodes@),
            forall|id: NodeId|
                d.removed_nodes@.contains(id) <==> (old_graph@.has_node(id) && !new_graph@.has_node(id)),
            increasing_edges(d.removed_edges@),
            forall|id: EdgeId|
                d.removed_edges@.contains(id) <==> (old_graph@.has_edge(id) && !new_graph@.has_edge(id)),
            increasing_nodes(d.added_nodes@.map_values(|n: GraphNode| n.id)),
            forall|id: NodeId|
                d.added_nodes@.map_values(|n: GraphNode| n.id).contains(id) <==> (new_graph@.has_node(id)
                    && !old_graph@.has_node(id)),
            forall|k: int|
                0 <= k < d.added_nodes@.len() ==> same_node(
                    #[trigger] d.added_nodes@[k],
                    new_graph@.node(d.added_nodes@[k].id),
                ),
            increasing_edges(d.added_edges@.map_values(|e: GraphEdge| e.id)),
            forall|id: EdgeId|
                d.added_edges@.map_values(|e: GraphEdge| e.id).contains(id) <==> (new_graph@.has_edge(id)
                    && !old_graph@.has_edge(id)),
            forall|k: int|
                0 <= k < d.added_edges@.len() ==> #[trigger] d.added_edges@[k] == new_graph@.edge(
                    d.added_edges@[k].id,
                ),
            d.modified_nodes@.len() == 0,
    {
        let node_ids = new_graph.nodes_missing_from(old_graph);
        let mut added_nodes: Vec<GraphNode> = Vec::new();
        let mut k: usize = 0;
        while k < node_ids.len()
            invariant
                new_graph@.wf(),
                k <= node_ids@.len(),
                added_nodes@.len() == k,
                forall|id: NodeId| node_ids@.contains(id) ==> new_graph@.has_node(id),
                forall|j: int|
                    0 <= j < k ==> (#[trigger] added_nodes@[j]).id == node_ids@[j] && same_node(
                        added_nodes@[j],
                        new_graph@.node(node_ids@[j]),
                    ),
            decreases node_ids@.len() - k,
        {
            let id = node_ids[k];
            assert(node_ids@.contains(id));
            let n = new_graph.node(id).unwrap().duplicate();
            assert(new_graph@.nodes[id.0 as int] is Some);
            added_nodes.push(n);
            k = k + 1;
        }
        assert(added_nodes@.map_values(|n: GraphNode| n.id) =~= node_ids@);
        let edge_ids = new_graph.edges_missing_from(old_graph);
        let mut added_edges: Vec<GraphEdge> = Vec::new();
        let mut k: usize = 0;
        while k < edge_ids.len()
            invariant
                new_graph@.wf(),
                k <= edge_ids@.len(),
                added_edges@.len() == k,
                forall|id: EdgeId| edge_ids@.contains(id) ==> new_graph@.has_edge(id),
                forall|j: int|
                    0 <= j < k ==> (#[trigger] added_edges@[j]).id == edge_ids@[j] && added_edges@[j]
                        == new_graph@.edge(edge_ids@[j]),
            decreases edge_ids@.len() - k,
        {
            let id = edge_ids[k];
            assert(edge_ids@.contains(id));
            let e = new_graph.edge(id).unwrap().duplicate();
            assert(new_graph@.edges[id.0 as int] is Some);
            added_edges.push(e);
            k = k + 1;
        }
        assert(added_edges@.map_values(|e: GraphEdge| e.id) =~= edge_ids@);
        let seq = self.next_sequence();
        GraphDiff {
            sequence: seq,
            added_nodes,
            removed_nodes: old_graph.nodes_missing_from(new_graph),
            added_edges,
            removed_edges: old_graph.edges_missing_from(new_graph),
            modified_nodes: Vec::new(),
        }
    }
}

} // verus!
