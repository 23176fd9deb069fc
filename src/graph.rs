//! The graph store: a directed multigraph whose node and edge ids are stable
//! indices that are never reused.
use vstd::prelude::*;
use crate::model::{confidence_ok, EdgeId, EdgeKind, GraphEdge, GraphNode, NodeId, NodeKind};
use crate::text::str_eq;

verus! {

/// The mathematical model of a graph: slot `i` holds the node (edge) with id `i`,
/// or nothing once it has been removed.
pub struct GraphView {
    pub nodes: Seq<Option<GraphNode>>,
    pub edges: Seq<Option<GraphEdge>>,
}

impl GraphView {
    pub open spec fn has_node(self, id: NodeId) -> bool {
        (id.0 as int) < self.nodes.len() && self.nodes[id.0 as int] is Some
    }

    pub open spec fn node(self, id: NodeId) -> GraphNode {
        self.nodes[id.0 as int].unwrap()
    }

    pub open spec fn has_edge(self, id: EdgeId) -> bool {
        (id.0 as int) < self.edges.len() && self.edges[id.0 as int] is Some
    }

    pub open spec fn edge(self, id: EdgeId) -> GraphEdge {
        self.edges[id.0 as int].unwrap()
    }

    /// Each stored entity carries its own id; every edge joins two live nodes and
    /// respects the confidence bounds.
    pub open spec fn wf(self) -> bool {
        &&& self.nodes.len() <= u64::MAX
        &&& self.edges.len() <= u64::MAX
        &&& forall|i: int|
            0 <= i < self.nodes.len() && #[trigger] self.nodes[i] is Some ==> self.nodes[i].unwrap().id.0
                == i
        &&& forall|i: int|
            0 <= i < self.edges.len() && #[trigger] self.edges[i] is Some ==> {
                let e = self.edges[i].unwrap();
                &&& e.id.0 == i
                &&& self.has_node(e.source)
                &&& self.has_node(e.target)
                &&& confidence_ok(e)
            }
    }
}

/// Every edge a well-formed graph reports as live joins two live nodes, and its
/// confidence is within [0, 1], exactly 1 for a structural edge.
pub proof fn lemma_live_edges_are_sound(g: GraphView, id: EdgeId)
    requires
        g.wf(),
        g.has_edge(id),
    ensures
        g.has_node(g.edge(id).source),
        g.has_node(g.edge(id).target),
        g.edge(id).confidence <= crate::model::CONFIDENCE_ONE,
        g.edge(id).edge_source == crate::model::EdgeSource::Structure ==> g.edge(id).confidence
            == crate::model::CONFIDENCE_ONE,
{
    assert(g.edges[id.0 as int] is Some);
}

/// The edges left after removing node `id`: those incident to it are gone.
pub open spec fn detach(edges: Seq<Option<GraphEdge>>, id: NodeId) -> Seq<Option<GraphEdge>> {
    Seq::new(
        edges.len(),
        |i: int|
            if edges[i] is Some && (edges[i].unwrap().source == id || edges[i].unwrap().target
                == id) {
                None
            } else {
                edges[i]
            },
    )
}

/// Number of occupied slots.
pub open spec fn count_live<T>(s: Seq<Option<T>>) -> nat
    decreases s.len(),
{
    if s.len() == 0 {
        0
    } else {
        count_live(s.drop_last()) + if s.last() is Some {
            1nat
        } else {
            0nat
        }
    }
}

/// Ids listed in strictly increasing order (hence without repetition).
pub open spec fn increasing_nodes(s: Seq<NodeId>) -> bool {
    forall|i: int, j: int| 0 <= i < j < s.len() ==> s[i].0 < s[j].0
}

/// Ids of the live edges that satisfy `p`, in increasing order.
pub open spec fn select_edges(s: Seq<Option<GraphEdge>>, p: spec_fn(GraphEdge) -> bool) -> Seq<EdgeId>
    decreases s.len(),
{
    if s.len() == 0 {
        Seq::empty()
    } else {
        let r = select_edges(s.drop_last(), p);
        if s.last() is Some && p(s.last().unwrap()) {
            r.push(EdgeId((s.len() - 1) as u64))
        } else {
            r
        }
    }
}

/// Ids of the live nodes that satisfy `p`, in increasing order.
pub open spec fn select_nodes(s: Seq<Option<GraphNode>>, p: spec_fn(GraphNode) -> bool) -> Seq<NodeId>
    decreases s.len(),
{
    if s.len() == 0 {
        Seq::empty()
    } else {
        let r = select_nodes(s.drop_last(), p);
        if s.last() is Some && p(s.last().unwrap()) {
            r.push(NodeId((s.len() - 1) as u64))
        } else {
            r
        }
    }
}

/// `id` is the live node of smallest id that satisfies `p`, or there is none.
pub open spec fn first_node_where(
    nodes: Seq<Option<GraphNode>>,
    p: spec_fn(GraphNode) -> bool,
    r: Option<NodeId>,
) -> bool {
    match r {
        Some(id) => {
            &&& (id.0 as int) < nodes.len()
            &&& nodes[id.0 as int] is Some
            &&& p(nodes[id.0 as int].unwrap())
            &&& forall|j: int| 0 <= j < id.0 ==> !(nodes[j] is Some && p(#[trigger] nodes[j].unwrap()))
        },
        None => forall|j: int| 0 <= j < nodes.len() ==> !(nodes[j] is Some && p(#[trigger] nodes[j].unwrap())),
    }
}

/// Live edge `e` is a `Contains` edge from `p` to `c`.
pub open spec fn contains_edge(g: GraphView, e: EdgeId, p: NodeId, c: NodeId) -> bool {
    g.has_edge(e) && g.edge(e).kind == EdgeKind::Contains && g.edge(e).source == p && g.edge(e).target == c
}

/// `x` contains `n` through a chain of at most `k + 1` `Contains` edges.
pub open spec fn ancestor_within(g: GraphView, x: NodeId, n: NodeId, k: nat) -> bool
    decreases k,
{
    exists|e: EdgeId, c: NodeId|
        #[trigger] contains_edge(g, e, x, c) && (c == n || (k > 0 && ancestor_within(g, c, n, (k - 1) as nat)))
}

/// `x` contains `n` through a chain of `Contains` edges.
pub open spec fn is_ancestor(g: GraphView, x: NodeId, n: NodeId) -> bool {
    exists|k: nat| ancestor_within(g, x, n, k)
}

/// Number of `true` entries.
pub open spec fn count_true(s: Seq<bool>) -> nat
    decreases s.len(),
{
    if s.len() == 0 {
        0
    } else {
        count_true(s.drop_last()) + if s.last() {
            1nat
        } else {
            0nat
        }
    }
}

proof fn lemma_count_true_update(s: Seq<bool>, i: int)
    requires
        0 <= i < s.len(),
        !s[i],
    ensures
        count_true(s.update(i, true)) == count_true(s) + 1,
        count_true(s) <= s.len(),
    decreases s.len(),
{
    let t = s.update(i, true);
    if i == s.len() - 1 {
        assert(t.drop_last() =~= s.drop_last());
        lemma_count_true_bound(s.drop_last());
    } else {
        assert(t.drop_last() =~= s.drop_last().update(i, true));
        lemma_count_true_update(s.drop_last(), i);
    }
}

proof fn lemma_count_true_none(s: Seq<bool>)
    requires
        forall|j: int| 0 <= j < s.len() ==> !s[j],
    ensures
        count_true(s) == 0,
    decreases s.len(),
{
    if s.len() > 0 {
        lemma_count_true_none(s.drop_last());
    }
}

proof fn lemma_count_true_bound(s: Seq<bool>)
    ensures
        count_true(s) <= s.len(),
    decreases s.len(),
{
    if s.len() > 0 {
        lemma_count_true_bound(s.drop_last());
    }
}

/// Ids listed in strictly increasing order (hence without repetition).
pub open spec fn increasing_edges(s: Seq<EdgeId>) -> bool {
    forall|i: int, j: int| 0 <= i < j < s.len() ==> s[i].0 < s[j].0
}

/// The code graph.
pub struct Graph {
    nodes: Vec<Option<GraphNode>>,
    edges: Vec<Option<GraphEdge>>,
}

impl View for Graph {
    type V = GraphView;

    closed spec fn view(&self) -> GraphView {
        GraphView { nodes: self.nodes@, edges: self.edges@ }
    }
}

fn count_slots<T>(v: &Vec<Option<T>>) -> (r: usize)
    ensures
        r == count_live(v@),
{
    let mut c: usize = 0;
    let mut i: usize = 0;
    while i < v.len()
        invariant
            i <= v@.len(),
            c <= i,
            c == count_live(v@.subrange(0, i as int)),
        decreases v@.len() - i,
    {
        assert(v@.subrange(0, i as int + 1).drop_last() =~= v@.subrange(0, i as int));
        if v[i].is_some() {
            c = c + 1;
        }
        i = i + 1;
    }
    assert(v@.subrange(0, i as int) =~= v@);
    c
}

impl Graph {
    /// An empty graph.
    pub fn new() -> (r: Graph)
        ensures
            r@.wf(),
            r@.nodes == Seq::<Option<GraphNode>>::empty(),
            r@.edges == Seq::<Option<GraphEdge>>::empty(),
    {
        Graph { nodes: Vec::new(), edges: Vec::new() }
    }

    /// Adds a node; its id is the next unused index.
    pub fn add_node(&mut self, node: GraphNode) -> (id: NodeId)
        requires
            old(self)@.wf(),
            old(self)@.nodes.len() < u64::MAX,
        ensures
            final(self)@.wf(),
            id.0 == old(self)@.nodes.len(),
            final(self)@.nodes == old(self)@.nodes.push(Some(GraphNode { id, ..node })),
            final(self)@.edges == old(self)@.edges,
    {
        let id = NodeId(self.nodes.len() as u64);
        let mut n = node;
        n.id = id;
        self.nodes.push(Some(n));
        proof {
            let v = self@;
            assert forall|i: int| 0 <= i < v.edges.len() && #[trigger] v.edges[i] is Some implies {
                let e = v.edges[i].unwrap();
                &&& e.id.0 == i
                &&& v.has_node(e.source)
                &&& v.has_node(e.target)
                &&& confidence_ok(e)
            } by {
                let e = v.edges[i].unwrap();
                assert(old(self)@.edges[i] is Some);
                assert(v.nodes[e.source.0 as int] == old(self)@.nodes[e.source.0 as int]);
                assert(v.nodes[e.target.0 as int] == old(self)@.nodes[e.target.0 as int]);
            }
        }
        id
    }

    /// Adds an edge between two live nodes; its id is the next unused index.
    pub fn add_edge(&mut self, edge: GraphEdge) -> (id: EdgeId)
        requires
            old(self)@.wf(),
            old(self)@.has_node(edge.source),
            old(self)@.has_node(edge.target),
            confidence_ok(edge),
            old(self)@.edges.len() < u64::MAX,
        ensures
            final(self)@.wf(),
            id.0 == old(self)@.edges.len(),
            final(self)@.edges == old(self)@.edges.push(Some(GraphEdge { id, ..edge })),
            final(self)@.nodes == old(self)@.nodes,
    {
        let id = EdgeId(self.edges.len() as u64);
        let mut e = edge;
        e.id = id;
        self.edges.push(Some(e));
        proof {
            let v = self@;
            assert forall|i: int| 0 <= i < v.edges.len() && #[trigger] v.edges[i] is Some implies {
                let e = v.edges[i].unwrap();
                &&& e.id.0 == i
                &&& v.has_node(e.source)
                &&& v.has_node(e.target)
                &&& confidence_ok(e)
            } by {
                if i < old(self)@.edges.len() {
                    assert(old(self)@.edges[i] is Some);
                }
            }
        }
        id
    }

    /// The node with this id, if it is live.
    pub fn node(&self, id: NodeId) -> (r: Option<&GraphNode>)
        ensures
            r is Some == self@.has_node(id),
            r is Some ==> *r.unwrap() == self@.node(id),
    {
        if id.0 < self.nodes.len() as u64 {
            self.nodes[id.0 as usize].as_ref()
        } else {
            None
        }
    }

    /// The edge with this id, if it is live.
    pub fn edge(&self, id: EdgeId) -> (r: Option<&GraphEdge>)
        ensures
            r is Some == self@.has_edge(id),
            r is Some ==> *r.unwrap() == self@.edge(id),
    {
        if id.0 < self.edges.len() as u64 {
            self.edges[id.0 as usize].as_ref()
        } else {
            None
        }
    }

    /// Number of live nodes.
    pub fn node_count(&self) -> (r: usize)
        ensures
            r == count_live(self@.nodes),
    {
        count_slots(&self.nodes)
    }

    /// Number of live edges.
    pub fn edge_count(&self) -> (r: usize)
        ensures
            r == count_live(self@.edges),
    {
        count_slots(&self.edges)
    }

    /// Removes an edge; nothing changes when it is not live.
    pub fn remove_edge(&mut self, id: EdgeId) -> (r: Option<GraphEdge>)
        requires
            old(self)@.wf(),
        ensures
            final(self)@.wf(),
            final(self)@.nodes == old(self)@.nodes,
            old(self)@.has_edge(id) ==> r == Some(old(self)@.edge(id)) && final(self)@.edges
                == old(self)@.edges.update(id.0 as int, None),
            !old(self)@.has_edge(id) ==> r is None && final(self)@.edges == old(self)@.edges,
    {
        if id.0 < self.edges.len() as u64 {
            let k = id.0 as usize;
            self.edges.push(None);
            let r = self.edges.swap_remove(k);
            proof {
                assert(self@.edges =~= old(self)@.edges.update(k as int, None));
                let v = self@;
                assert forall|i: int| 0 <= i < v.edges.len() && #[trigger] v.edges[i] is Some implies {
                    let e = v.edges[i].unwrap();
                    &&& e.id.0 == i
                    &&& v.has_node(e.source)
                    &&& v.has_node(e.target)
                    &&& confidence_ok(e)
                } by {
                    assert(old(self)@.edges[i] is Some);
                }
            }
            r
        } else {
            None
        }
    }

    /// Removes a node together with every edge that starts or ends at it;
    /// nothing changes when it is not live.
    pub fn remove_node(&mut self, id: NodeId) -> (r: Option<GraphNode>)
        requires
            old(self)@.wf(),
        ensures
            final(self)@.wf(),
            old(self)@.has_node(id) ==> r == Some(old(self)@.node(id)) && final(self)@.nodes
                == old(self)@.nodes.update(id.0 as int, None) && final(self)@.edges == detach(
                old(self)@.edges,
                id,
            ),
            !old(self)@.has_node(id) ==> r is None && final(self)@ == old(self)@,
    {
        if id.0 >= self.nodes.len() as u64 || self.nodes[id.0 as usize].is_none() {
            return None;
        }
        let ghost old_edges = self@.edges;
        let mut i: usize = 0;
        while i < self.edges.len()
            invariant
                self.nodes@ == old(self)@.nodes,
                self.edges@.len() == old_edges.len(),
                old_edges == old(self)@.edges,
                i <= self.edges@.len(),
                forall|j: int| 0 <= j < i ==> self.edges@[j] == detach(old_edges, id)[j],
                forall|j: int| i <= j < self.edges@.len() ==> self.edges@[j] == old_edges[j],
            decreases self.edges@.len() - i,
        {
            let incident = match &self.edges[i] {
                Some(e) => e.source == id || e.target == id,
                None => false,
            };
            if incident {
                self.edges.set(i, None);
            }
            i = i + 1;
        }
        assert(self.edges@ =~= detach(old_edges, id));
        let k = id.0 as usize;
        self.nodes.push(None);
        let r = self.nodes.swap_remove(k);
        proof {
            assert(self@.nodes =~= old(self)@.nodes.update(k as int, None));
            let v = self@;
            assert forall|i: int| 0 <= i < v.edges.len() && #[trigger] v.edges[i] is Some implies {
                let e = v.edges[i].unwrap();
                &&& e.id.0 == i
                &&& v.has_node(e.source)
                &&& v.has_node(e.target)
                &&& confidence_ok(e)
            } by {
                assert(old_edges[i] is Some);
            }
        }
        r
    }

    /// Ids of all live nodes, in increasing order.
    pub fn node_ids(&self) -> (r: Vec<NodeId>)
        requires
            self@.wf(),
        ensures
            increasing_nodes(r@),
            forall|id: NodeId| r@.contains(id) <==> self@.has_node(id),
    {
        let mut r: Vec<NodeId> = Vec::new();
        let mut i: usize = 0;
        while i < self.nodes.len()
            invariant
                i <= self.nodes@.len(),
                self.nodes@.len() <= u64::MAX,
                increasing_nodes(r@),
                forall|k: int| 0 <= k < r@.len() ==> r@[k].0 < i,
                forall|id: NodeId| r@.contains(id) <==> (id.0 < i && self@.has_node(id)),
            decreases self.nodes@.len() - i,
        {
            if self.nodes[i].is_some() {
                let ghost before = r@;
                r.push(NodeId(i as u64));
                proof {
                    assert forall|id: NodeId| r@.contains(id) <==> (id.0 < i + 1 && self@.has_node(id)) by {
                        if id == NodeId(i as u64) {
                            assert(r@[r@.len() - 1] == id);
                        } else if r@.contains(id) {
                            let k = choose|k: int| 0 <= k < r@.len() && r@[k] == id;
                            assert(before[k] == id);
                        } else if id.0 < i && self@.has_node(id) {
                            assert(before.contains(id));
                            let k = choose|k: int| 0 <= k < before.len() && before[k] == id;
                            assert(r@[k] == id);
                        }
                    }
                }
            } else {
                proof {
                    assert forall|id: NodeId| r@.contains(id) <==> (id.0 < i + 1 && self@.has_node(id)) by {
                        if id.0 == i {
                            if r@.contains(id) {
                                let k = choose|k: int| 0 <= k < r@.len() && r@[k] == id;
                            }
                        }
                    }
                }
            }
            i = i + 1;
        }
        r
    }

    /// Ids of the live edges that start at `n`, in increasing order.
    pub fn edges_from(&self, n: NodeId) -> (r: Vec<EdgeId>)
        requires
            self@.wf(),
        ensures
            r@ == select_edges(self@.edges, |e: GraphEdge| e.source == n),
    {
        let mut r: Vec<EdgeId> = Vec::new();
        let mut i: usize = 0;
        while i < self.edges.len()
            invariant
                i <= self.edges@.len(),
                self.edges@.len() <= u64::MAX,
                r@ == select_edges(self.edges@.subrange(0, i as int), |e: GraphEdge| e.source == n),
            decreases self.edges@.len() - i,
        {
            assert(self.edges@.subrange(0, i as int + 1).drop_last() =~= self.edges@.subrange(0, i as int));
            assert(self.edges@.subrange(0, i as int + 1).last() == self.edges@[i as int]);
            match &self.edges[i] {
                Some(e) => {
                    if e.source == n {
                        r.push(EdgeId(i as u64));
                    }
                },
                None => {},
            }
            i = i + 1;
        }
        assert(self.edges@.subrange(0, i as int) =~= self.edges@);
        r
    }

    /// Ids of the live edges that end at `n`, in increasing order.
    pub fn edges_to(&self, n: NodeId) -> (r: Vec<EdgeId>)
        requires
            self@.wf(),
        ensures
            r@ == select_edges(self@.edges, |e: GraphEdge| e.target == n),
    {
        let mut r: Vec<EdgeId> = Vec::new();
        let mut i: usize = 0;
        while i < self.edges.len()
            invariant
                i <= self.edges@.len(),
                self.edges@.len() <= u64::MAX,
                r@ == select_edges(self.edges@.subrange(0, i as int), |e: GraphEdge| e.target == n),
            decreases self.edges@.len() - i,
        {
            assert(self.edges@.subrange(0, i as int + 1).drop_last() =~= self.edges@.subrange(0, i as int));
            assert(self.edges@.subrange(0, i as int + 1).last() == self.edges@[i as int]);
            match &self.edges[i] {
                Some(e) => {
                    if e.target == n {
                        r.push(EdgeId(i as u64));
                    }
                },
                None => {},
            }
            i = i + 1;
        }
        assert(self.edges@.subrange(0, i as int) =~= self.edges@);
        r
    }

    /// Ids of the live nodes of the given kind, in increasing order.
    pub fn nodes_of_kind(&self, kind: NodeKind) -> (r: Vec<NodeId>)
        requires
            self@.wf(),
        ensures
            r@ == select_nodes(self@.nodes, |n: GraphNode| n.kind == kind),
    {
        let mut r: Vec<NodeId> = Vec::new();
        let mut i: usize = 0;
        while i < self.nodes.len()
            invariant
                i <= self.nodes@.len(),
                self.nodes@.len() <= u64::MAX,
                r@ == select_nodes(self.nodes@.subrange(0, i as int), |n: GraphNode| n.kind == kind),
            decreases self.nodes@.len() - i,
        {
            assert(self.nodes@.subrange(0, i as int + 1).drop_last() =~= self.nodes@.subrange(0, i as int));
            assert(self.nodes@.subrange(0, i as int + 1).last() == self.nodes@[i as int]);
            match &self.nodes[i] {
                Some(x) => {
                    if x.kind == kind {
                        r.push(NodeId(i as u64));
                    }
                },
                None => {},
            }
            i = i + 1;
        }
        assert(self.nodes@.subrange(0, i as int) =~= self.nodes@);
        r
    }

    /// Whether a live edge of this kind goes from `source` to `target`.
    pub fn has_edge_between(&self, source: NodeId, target: NodeId, kind: EdgeKind) -> (r: bool)
        requires
            self@.wf(),
        ensures
            r == exists|id: EdgeId|
                #![trigger self@.edge(id)]
                self@.has_edge(id) && self@.edge(id).source == source && self@.edge(id).target
                    == target && self@.edge(id).kind == kind,
    {
        let mut i: usize = 0;
        while i < self.edges.len()
            invariant
                i <= self.edges@.len(),
                self.edges@.len() <= u64::MAX,
                forall|j: int|
                    0 <= j < i && #[trigger] self.edges@[j] is Some ==> !(self.edges@[j].unwrap().source
                        == source && self.edges@[j].unwrap().target == target
                        && self.edges@[j].unwrap().kind == kind),
            decreases self.edges@.len() - i,
        {
            match &self.edges[i] {
                Some(e) => {
                    if e.source == source && e.target == target && e.kind == kind {
                        assert(self@.edge(EdgeId(i as u64)) == *e);
                        return true;
                    }
                },
                None => {},
            }
            i = i + 1;
        }
        assert forall|id: EdgeId| self@.has_edge(id) implies !(self@.edge(id).source == source
            && self@.edge(id).target == target && self@.edge(id).kind == kind) by {
            assert(self.edges@[id.0 as int] is Some);
        }
        false
    }

    /// The live node of smallest id whose name is `name`.
    pub fn find_node_by_name(&self, name: &str) -> (r: Option<NodeId>)
        requires
            self@.wf(),
        ensures
            first_node_where(self@.nodes, |n: GraphNode| n.name@ == name@, r),
    {
        let mut i: usize = 0;
        while i < self.nodes.len()
            invariant
                i <= self.nodes@.len(),
                self.nodes@.len() <= u64::MAX,
                forall|j: int| 0 <= j < i ==> !(self.nodes@[j] is Some && (|n: GraphNode| n.name@ == name@)(#[trigger] self.nodes@[j].unwrap())),
            decreases self.nodes@.len() - i,
        {
            match &self.nodes[i] {
                Some(x) => {
                    if str_eq(x.name.as_str(), name) {
                        return Some(NodeId(i as u64));
                    }
                },
                None => {},
            }
            i = i + 1;
        }
        None
    }

    /// The live node of smallest id whose qualified name is `qualified_name`.
    pub fn find_node_by_qualified(&self, qualified_name: &str) -> (r: Option<NodeId>)
        requires
            self@.wf(),
        ensures
            first_node_where(self@.nodes, |n: GraphNode| n.qualified_name@ == qualified_name@, r),
    {
        let mut i: usize = 0;
        while i < self.nodes.len()
            invariant
                i <= self.nodes@.len(),
                self.nodes@.len() <= u64::MAX,
                forall|j: int| 0 <= j < i ==> !(self.nodes@[j] is Some && (|n: GraphNode| n.qualified_name@ == qualified_name@)(#[trigger] self.nodes@[j].unwrap())),
            decreases self.nodes@.len() - i,
        {
            match &self.nodes[i] {
                Some(x) => {
                    if str_eq(x.qualified_name.as_str(), qualified_name) {
                        return Some(NodeId(i as u64));
                    }
                },
                None => {},
            }
            i = i + 1;
        }
        None
    }

    /// Number of node slots, live or not: the id the next node will get.
    pub fn node_slots(&self) -> (r: usize)
        ensures
            r == self@.nodes.len(),
    {
        self.nodes.len()
    }

    /// Number of edge slots, live or not: the id the next edge will get.
    pub fn edge_slots(&self) -> (r: usize)
        ensures
            r == self@.edges.len(),
    {
        self.edges.len()
    }

    /// The nodes that contain `n` through `Contains` edges, directly or not, in
    /// increasing id order.
    pub fn ancestors(&self, n: NodeId) -> (r: Vec<NodeId>)
        requires
            self@.wf(),
        ensures
            increasing_nodes(r@),
            forall|x: NodeId| r@.contains(x) ==> is_ancestor(self@, x, n),
            forall|e: EdgeId, p: NodeId, c: NodeId|
                #[trigger] contains_edge(self@, e, p, c) && (c == n || r@.contains(c)) ==> r@.contains(p),
    {
        let len = self.nodes.len();
        let mut mask: Vec<bool> = Vec::new();
        let mut i: usize = 0;
        while i < len
            invariant
                i <= len,
                len == self.nodes@.len(),
                mask@.len() == i,
                forall|j: int| 0 <= j < i ==> !mask@[j],
            decreases len - i,
        {
            mask.push(false);
            i = i + 1;
        }
        proof {
            lemma_count_true_none(mask@);
        }
        let mut changed = true;
        while changed
            invariant
                self@.wf(),
                len == self.nodes@.len(),
                mask@.len() == len,
                count_true(mask@) <= len,
                forall|j: int| 0 <= j < len && #[trigger] mask@[j] ==> is_ancestor(self@, NodeId(j as u64), n),
                !changed ==> forall|e: EdgeId, p: NodeId, c: NodeId|
                    #[trigger] contains_edge(self@, e, p, c) && (c == n || mask@[c.0 as int]) ==> mask@[p.0 as int],
            decreases len - count_true(mask@), if changed { 1int } else { 0int },
        {
            let ghost before = count_true(mask@);
            changed = false;
            let mut k: usize = 0;
            while k < self.edges.len()
                invariant
                    self@.wf(),
                    len == self.nodes@.len(),
                    mask@.len() == len,
                    k <= self.edges@.len(),
                    count_true(mask@) <= len,
                    count_true(mask@) >= before,
                    changed ==> count_true(mask@) > before,
                    forall|j: int| 0 <= j < len && #[trigger] mask@[j] ==> is_ancestor(self@, NodeId(j as u64), n),
                    !changed ==> forall|e: EdgeId, p: NodeId, c: NodeId|
                        #[trigger] contains_edge(self@, e, p, c) && e.0 < k && (c == n || mask@[c.0 as int]) ==> mask@[p.0 as int],
                decreases self.edges@.len() - k,
            {
                match &self.edges[k] {
                    Some(e) => {
                        let ghost eid = EdgeId(k as u64);
                        if e.kind == EdgeKind::Contains {
                            assert(self@.edge(eid) == *e);
                            let p = e.source.0 as usize;
                            let c = e.target.0 as usize;
                            if (e.target == n || mask[c]) && !mask[p] {
                                proof {
                                    assert(contains_edge(self@, eid, e.source, e.target));
                                    if e.target == n {
                                        assert(ancestor_within(self@, e.source, n, 0));
                                    } else {
                                        assert(is_ancestor(self@, NodeId(c as u64), n));
                                        let kk = choose|kk: nat| ancestor_within(self@, e.target, n, kk);
                                        assert(ancestor_within(self@, e.source, n, kk + 1));
                                    }
                                    lemma_count_true_update(mask@, p as int);
                                }
                                mask.set(p, true);
                                proof {
                                    lemma_count_true_bound(mask@);
                                }
                                changed = true;
                            }
                        }
                    },
                    None => {},
                }
                k = k + 1;
            }
        }
        let mut r: Vec<NodeId> = Vec::new();
        let mut j: usize = 0;
        while j < len
            invariant
                j <= len,
                len == self.nodes@.len(),
                mask@.len() == len,
                len <= u64::MAX,
                increasing_nodes(r@),
                forall|q: int| 0 <= q < r@.len() ==> r@[q].0 < j,
                forall|x: NodeId| r@.contains(x) <==> (x.0 < j && mask@[x.0 as int]),
            decreases len - j,
        {
            if mask[j] {
                let ghost prev = r@;
                r.push(NodeId(j as u64));
                proof {
                    assert forall|x: NodeId| r@.contains(x) <==> (x.0 < j + 1 && mask@[x.0 as int]) by {
                        if x == NodeId(j as u64) {
                            assert(r@[r@.len() - 1] == x);
                        } else if r@.contains(x) {
                            let q = choose|q: int| 0 <= q < r@.len() && r@[q] == x;
                            if q < prev.len() {
                                assert(prev[q] == x);
                                assert(prev.contains(x));
                            } else {
                                assert(r@[q] == NodeId(j as u64));
                            }
                        } else if x.0 < j && mask@[x.0 as int] {
                            assert(prev.contains(x));
                            let q = choose|q: int| 0 <= q < prev.len() && prev[q] == x;
                            assert(r@[q] == x);
                        }
                    }
                }
            } else {
                proof {
                    assert forall|x: NodeId| r@.contains(x) <==> (x.0 < j + 1 && mask@[x.0 as int]) by {
                        if r@.contains(x) {
                            let q = choose|q: int| 0 <= q < r@.len() && r@[q] == x;
                            assert(r@[q].0 < j);
                        }
                        if x.0 == j {
                            assert(!mask@[j as int]);
                        }
                        if x.0 < j && mask@[x.0 as int] {
                            assert((x.0 < j && mask@[x.0 as int]) ==> r@.contains(x));
                        }
                    }
                }
            }
            j = j + 1;
        }
        r
    }

    /// Ids of the nodes live here but not in `other`, in increasing order.
    pub fn nodes_missing_from(&self, other: &Graph) -> (r: Vec<NodeId>)
        requires
            self@.wf(),
        ensures
            increasing_nodes(r@),
            forall|id: NodeId| r@.contains(id) <==> (self@.has_node(id) && !other@.has_node(id)),
    {
        let mut r: Vec<NodeId> = Vec::new();
        let mut i: usize = 0;
        while i < self.nodes.len()
            invariant
                i <= self.nodes@.len(),
                self.nodes@.len() <= u64::MAX,
                increasing_nodes(r@),
                forall|k: int| 0 <= k < r@.len() ==> r@[k].0 < i,
                forall|id: NodeId| r@.contains(id) <==> (id.0 < i && self@.has_node(id) && !other@.has_node(id)),
            decreases self.nodes@.len() - i,
        {
            let id = NodeId(i as u64);
            let elsewhere = i < other.nodes.len() && other.nodes[i].is_some();
            assert(elsewhere == other@.has_node(id));
            if self.nodes[i].is_some() && !elsewhere {
                let ghost before = r@;
                r.push(id);
                proof {
                    assert forall|x: NodeId| r@.contains(x) <==> (x.0 < i + 1 && self@.has_node(x) && !other@.has_node(x)) by {
                        if x == id {
                            assert(r@[r@.len() - 1] == x);
                        } else if r@.contains(x) {
                            let q = choose|q: int| 0 <= q < r@.len() && r@[q] == x;
                            if q < before.len() {
                                assert(before[q] == x);
                                assert(before.contains(x));
                            }
                        } else if x.0 < i && self@.has_node(x) && !other@.has_node(x) {
                            assert(before.contains(x));
                            let q = choose|q: int| 0 <= q < before.len() && before[q] == x;
                            assert(r@[q] == x);
                        }
                    }
                }
            } else {
                proof {
                    assert forall|x: NodeId| r@.contains(x) <==> (x.0 < i + 1 && self@.has_node(x) && !other@.has_node(x)) by {
                        if r@.contains(x) {
                            let q = choose|q: int| 0 <= q < r@.len() && r@[q] == x;
                            assert(r@[q].0 < i);
                        }
                        if x.0 < i && self@.has_node(x) && !other@.has_node(x) {
                            assert((x.0 < i && self@.has_node(x) && !other@.has_node(x)) ==> r@.contains(x));
                        }
                    }
                }
            }
            i = i + 1;
        }
        r
    }

    /// Ids of the edges live here but not in `other`, in increasing order.
    pub fn edges_missing_from(&self, other: &Graph) -> (r: Vec<EdgeId>)
        requires
            self@.wf(),
        ensures
            increasing_edges(r@),
            forall|id: EdgeId| r@.contains(id) <==> (self@.has_edge(id) && !other@.has_edge(id)),
    {
        let mut r: Vec<EdgeId> = Vec::new();
        let mut i: usize = 0;
        while i < self.edges.len()
            invariant
                i <= self.edges@.len(),
                self.edges@.len() <= u64::MAX,
                increasing_edges(r@),
                forall|k: int| 0 <= k < r@.len() ==> r@[k].0 < i,
                forall|id: EdgeId| r@.contains(id) <==> (id.0 < i && self@.has_edge(id) && !other@.has_edge(id)),
            decreases self.edges@.len() - i,
        {
            let id = EdgeId(i as u64);
            let elsewhere = i < other.edges.len() && other.edges[i].is_some();
            assert(elsewhere == other@.has_edge(id));
            if self.edges[i].is_some() && !elsewhere {
                let ghost before = r@;
                r.push(id);
                proof {
                    assert forall|x: EdgeId| r@.contains(x) <==> (x.0 < i + 1 && self@.has_edge(x) && !other@.has_edge(x)) by {
                        if x == id {
                            assert(r@[r@.len() - 1] == x);
                        } else if r@.contains(x) {
                            let q = choose|q: int| 0 <= q < r@.len() && r@[q] == x;
                            if q < before.len() {
                                assert(before[q] == x);
                                assert(before.contains(x));
                            }
                        } else if x.0 < i && self@.has_edge(x) && !other@.has_edge(x) {
                            assert(before.contains(x));
                            let q = choose|q: int| 0 <= q < before.len() && before[q] == x;
                            assert(r@[q] == x);
                        }
                    }
                }
            } else {
                proof {
                    assert forall|x: EdgeId| r@.contains(x) <==> (x.0 < i + 1 && self@.has_edge(x) && !other@.has_edge(x)) by {
                        if r@.contains(x) {
                            let q = choose|q: int| 0 <= q < r@.len() && r@[q] == x;
                            assert(r@[q].0 < i);
                        }
                        if x.0 < i && self@.has_edge(x) && !other@.has_edge(x) {
                            assert((x.0 < i && self@.has_edge(x) && !other@.has_edge(x)) ==> r@.contains(x));
                        }
                    }
                }
            }
            i = i + 1;
        }
        r
    }
}

} // verus!
