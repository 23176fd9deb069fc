//! The incremental updater: per-file replacement of graph entities, symbol
//! bookkeeping and diff sequencing.
use vstd::prelude::*;
use crate::diff::{apply_diff, drop_edges, drop_nodes, same_graph, DiffEngine, GraphDiff};
use crate::graph::{Graph, GraphView};
use crate::model::{CONFIDENCE_ONE, confidence_ok, has_valid_confidence, same_node, EdgeId, EdgeSource, GraphEdge, GraphNode, NodeId};
use crate::symbols::{lemma_without_file_subset, without_file, SymbolRecord, SymbolTable};
use crate::semantic::{relationship_kind, InferredRelationship};
use crate::text::str_eq;

verus! {

/// What the updater tracks for one file: its path, and the ids of the nodes and
/// edges that its last successful processing put in the graph.
pub type FileEntry = (Seq<char>, Seq<NodeId>, Seq<EdgeId>);

/// Whether some file record is for `path`.
pub open spec fn has_record(t: Seq<FileEntry>, path: Seq<char>) -> bool {
    exists|i: int| 0 <= i < t.len() && (#[trigger] t[i]).0 == path
}

/// No two file records share a path.
pub open spec fn distinct_paths(t: Seq<FileEntry>) -> bool {
    forall|i: int, j: int| 0 <= i < t.len() && 0 <= j < t.len() && i != j ==> (#[trigger] t[i]).0 != (#[trigger] t[j]).0
}

/// Every id a record lists is a live node of that record's file.
pub open spec fn records_are_live(g: GraphView, t: Seq<FileEntry>) -> bool {
    forall|i: int, k: int|
        0 <= i < t.len() && 0 <= k < t[i].1.len() ==> g.has_node(#[trigger] t[i].1[k]) && g.node(
            t[i].1[k],
        ).file_path@ == t[i].0
}

/// Every live node is listed by the record of its file.
pub open spec fn nodes_are_recorded(g: GraphView, t: Seq<FileEntry>) -> bool {
    forall|id: NodeId|
        #[trigger] g.has_node(id) ==> exists|i: int|
            0 <= i < t.len() && (#[trigger] t[i]).0 == g.node(id).file_path@ && t[i].1.contains(id)
}

/// Every live edge that names a file is listed by that file's record.
pub open spec fn edges_are_recorded(g: GraphView, t: Seq<FileEntry>) -> bool {
    forall|e: EdgeId|
        #[trigger] g.has_edge(e) && g.edge(e).file_path is Some ==> exists|i: int|
            0 <= i < t.len() && (#[trigger] t[i]).0 == g.edge(e).file_path.unwrap()@ && t[i].2.contains(
                e,
            )
}

/// Every symbol names a live node of the file that defined it.
pub open spec fn symbols_are_live(g: GraphView, s: Seq<SymbolRecord>) -> bool {
    forall|k: int|
        0 <= k < s.len() ==> g.has_node((#[trigger] s[k]).1) && g.node(s[k].1).file_path@ == s[k].2
}

/// No inferred edge below the acceptance threshold is in the graph.
pub open spec fn ai_edges_accepted(g: GraphView, threshold: u32) -> bool {
    forall|e: EdgeId|
        #[trigger] g.has_edge(e) && g.edge(e).edge_source == EdgeSource::AI ==> g.edge(e).confidence
            >= threshold
}

/// The consistency of the graph, the per-file records and the symbol table.
pub open spec fn consistent(
    g: GraphView,
    t: Seq<FileEntry>,
    s: Seq<SymbolRecord>,
    threshold: u32,
) -> bool {
    &&& g.wf()
    &&& distinct_paths(t)
    &&& records_are_live(g, t)
    &&& nodes_are_recorded(g, t)
    &&& edges_are_recorded(g, t)
    &&& symbols_are_live(g, s)
    &&& ai_edges_accepted(g, threshold)
}

/// Per-file closure: in a consistent state, the record of a file lists exactly
/// the live nodes whose file is that file.
pub proof fn lemma_file_closure(
    g: GraphView,
    t: Seq<FileEntry>,
    s: Seq<SymbolRecord>,
    threshold: u32,
    i: int,
)
    requires
        consistent(g, t, s, threshold),
        0 <= i < t.len(),
    ensures
        forall|id: NodeId|
            t[i].1.contains(id) <==> (g.has_node(id) && g.node(id).file_path@ == t[i].0),
{
    assert forall|id: NodeId| t[i].1.contains(id) <==> (g.has_node(id) && g.node(id).file_path@ == t[i].0) by {
        if t[i].1.contains(id) {
            let k = choose|k: int| 0 <= k < t[i].1.len() && t[i].1[k] == id;
            assert(g.has_node(t[i].1[k]));
        }
        if g.has_node(id) && g.node(id).file_path@ == t[i].0 {
            let j = choose|j: int|
                0 <= j < t.len() && (#[trigger] t[j]).0 == g.node(id).file_path@ && t[j].1.contains(id);
            if j != i {
                assert(t[i].0 != t[j].0);
            }
        }
    }
}

/// Removal completeness: in a consistent state, no live node or edge belongs to
/// a path that has no record.
pub proof fn lemma_unrecorded_path_is_absent(
    g: GraphView,
    t: Seq<FileEntry>,
    s: Seq<SymbolRecord>,
    threshold: u32,
    path: Seq<char>,
)
    requires
        consistent(g, t, s, threshold),
        !has_record(t, path),
    ensures
        forall|id: NodeId| g.has_node(id) ==> g.node(id).file_path@ != path,
        forall|e: EdgeId|
            g.has_edge(e) && g.edge(e).file_path is Some ==> g.edge(e).file_path.unwrap()@ != path,
{
    assert forall|id: NodeId| g.has_node(id) implies g.node(id).file_path@ != path by {
        let j = choose|j: int|
            0 <= j < t.len() && (#[trigger] t[j]).0 == g.node(id).file_path@ && t[j].1.contains(id);
    }
    assert forall|e: EdgeId| g.has_edge(e) && g.edge(e).file_path is Some implies g.edge(
        e,
    ).file_path.unwrap()@ != path by {
        let j = choose|j: int|
            0 <= j < t.len() && (#[trigger] t[j]).0 == g.edge(e).file_path.unwrap()@
                && t[j].2.contains(e);
    }
}

/// What an extractor produced for one file. Edge endpoints name nodes by their
/// position in `nodes`; ids are placeholders until the graph assigns real ones.
pub struct ExtractionResult {
    pub nodes: Vec<GraphNode>,
    pub edges: Vec<GraphEdge>,
}

/// An extracted edge can be inserted: both endpoints name extracted nodes, its
/// confidence is in bounds, and it is not an inferred edge.
pub open spec fn edge_insertable(e: GraphEdge, n: int) -> bool {
    &&& (e.source.0 as int) < n
    &&& (e.target.0 as int) < n
    &&& confidence_ok(e)
    &&& e.edge_source != EdgeSource::AI
}

/// The insertable edges of an extraction with `n` nodes, in order.
pub open spec fn insertable_edges(es: Seq<GraphEdge>, n: int) -> Seq<GraphEdge>
    decreases es.len(),
{
    if es.len() == 0 {
        Seq::empty()
    } else if edge_insertable(es.last(), n) {
        insertable_edges(es.drop_last(), n).push(es.last())
    } else {
        insertable_edges(es.drop_last(), n)
    }
}

/// `x` is extracted node `n` as stored: with id `id` and file `path`.
pub open spec fn placed_node(x: GraphNode, n: GraphNode, id: NodeId, path: Seq<char>) -> bool {
    &&& x.id == id
    &&& x.file_path@ == path
    &&& x.kind == n.kind
    &&& x.name@ == n.name@
    &&& x.qualified_name@ == n.qualified_name@
    &&& x.line_start == n.line_start
    &&& x.line_end == n.line_end
    &&& x.language == n.language
    &&& x.is_container == n.is_container
    &&& x.child_count == n.child_count
    &&& x.loc == n.loc
    &&& x.metadata@ == n.metadata@
}

/// `x` is extracted edge `e` as stored: with id `id`, endpoints moved to the ids
/// given to the extracted nodes (from `base` on), and file `path`.
pub open spec fn placed_edge(x: GraphEdge, e: GraphEdge, id: EdgeId, base: int, path: Seq<char>) -> bool {
    &&& x.id == id
    &&& x.source.0 == base + e.source.0
    &&& x.target.0 == base + e.target.0
    &&& x.kind == e.kind
    &&& x.edge_source == e.edge_source
    &&& x.confidence == e.confidence
    &&& x.label == e.label
    &&& x.file_path is Some && x.file_path.unwrap()@ == path
    &&& x.line == e.line
}

/// Position of the record for `path` (meaningful when there is one).
pub open spec fn record_index(t: Seq<FileEntry>, path: Seq<char>) -> int {
    choose|i: int| 0 <= i < t.len() && (#[trigger] t[i]).0 == path
}

/// The node ids recorded for `path`, or none.
pub open spec fn prior_nodes(t: Seq<FileEntry>, path: Seq<char>) -> Seq<NodeId> {
    if has_record(t, path) {
        t[record_index(t, path)].1
    } else {
        Seq::empty()
    }
}

/// The edge ids recorded for `path`, or none.
pub open spec fn prior_edges(t: Seq<FileEntry>, path: Seq<char>) -> Seq<EdgeId> {
    if has_record(t, path) {
        t[record_index(t, path)].2
    } else {
        Seq::empty()
    }
}

/// The records once the one for `path` (if any) is taken out.
pub open spec fn other_records(t: Seq<FileEntry>, path: Seq<char>) -> Seq<FileEntry> {
    if has_record(t, path) {
        t.remove(record_index(t, path))
    } else {
        t
    }
}

/// Symbols defined by the extracted nodes, given ids from `base` on.
pub open spec fn new_symbols(ns: Seq<GraphNode>, base: int, path: Seq<char>) -> Seq<SymbolRecord> {
    Seq::new(ns.len(), |k: int| (ns[k].qualified_name@, NodeId((base + k) as u64), path))
}

/// With distinct paths, the record of `path` is the one at any position that holds it.
proof fn lemma_record_index(t: Seq<FileEntry>, path: Seq<char>, i: int)
    requires
        distinct_paths(t),
        0 <= i < t.len(),
        t[i].0 == path,
    ensures
        has_record(t, path),
        record_index(t, path) == i,
{
    assert(has_record(t, path));
    let j = record_index(t, path);
    if j != i {
        assert(t[i].0 != t[j].0);
    }
}

/// Every edge that `insertable_edges` keeps is insertable.
proof fn lemma_insertable_edges(es: Seq<GraphEdge>, n: int)
    ensures
        forall|q: int|
            0 <= q < insertable_edges(es, n).len() ==> edge_insertable(
                #[trigger] insertable_edges(es, n)[q],
                n,
            ),
    decreases es.len(),
{
    if es.len() > 0 {
        lemma_insertable_edges(es.drop_last(), n);
        let w = insertable_edges(es.drop_last(), n);
        if edge_insertable(es.last(), n) {
            assert forall|q: int| 0 <= q < insertable_edges(es, n).len() implies edge_insertable(
                #[trigger] insertable_edges(es, n)[q],
                n,
            ) by {
                if q < w.len() {
                    assert(insertable_edges(es, n)[q] == w[q]);
                }
            }
        }
    }
}

/// What holds once the replacement transaction for `path` has run: `g0`, `t0`,
/// `s0` before it; `g2`, `t1`, `s1` once the old entities are gone; `g`, `t2`,
/// `s3` at the end.
spec fn replacement_facts(
    t0: Seq<FileEntry>,
    g0: GraphView,
    s0: Seq<SymbolRecord>,
    th: u32,
    t1: Seq<FileEntry>,
    g2: GraphView,
    s1: Seq<SymbolRecord>,
    g: GraphView,
    t2: Seq<FileEntry>,
    s3: Seq<SymbolRecord>,
    path: Seq<char>,
    base: int,
    ebase: int,
    ns: Seq<GraphNode>,
    kept: Seq<GraphEdge>,
    an: Seq<GraphNode>,
    ae: Seq<GraphEdge>,
    nn: Seq<NodeId>,
    ee: Seq<EdgeId>,
    old_nodes: Seq<NodeId>,
    old_edges: Seq<EdgeId>,
) -> bool {
    &&& consistent(g0, t0, s0, th)
    &&& t1 == other_records(t0, path)
    &&& old_nodes == prior_nodes(t0, path)
    &&& old_edges == prior_edges(t0, path)
    &&& g2 == drop_nodes(drop_edges(g0, old_edges), old_nodes)
    &&& g2.wf()
    &&& g2.nodes.len() == g0.nodes.len()
    &&& g2.edges.len() == g0.edges.len()
    &&& (forall|id: NodeId|
        #[trigger] g2.has_node(id) <==> (g0.has_node(id) && forall|k: int|
            0 <= k < old_nodes.len() ==> old_nodes[k] != id))
    &&& (forall|id: NodeId| #[trigger] g2.has_node(id) ==> g2.node(id) == g0.node(id))
    &&& (forall|e: EdgeId|
        #[trigger] g2.has_edge(e) ==> g0.has_edge(e) && g2.edge(e) == g0.edge(e) && forall|k: int|
            0 <= k < old_edges.len() ==> old_edges[k] != e)
    &&& s1 == without_file(s0, path)
    &&& base == g2.nodes.len()
    &&& ebase == g2.edges.len()
    &&& g.wf()
    &&& g.nodes.len() == base + ns.len()
    &&& (forall|m: int| 0 <= m < base ==> g.nodes[m] == g2.nodes[m])
    &&& (forall|m: int|
        0 <= m < ns.len() ==> g.nodes[base + m] is Some && placed_node(
            #[trigger] g.nodes[base + m].unwrap(),
            ns[m],
            NodeId((base + m) as u64),
            path,
        ))
    &&& an.len() == ns.len()
    &&& (forall|m: int| 0 <= m < ns.len() ==> same_node(#[trigger] an[m], g.nodes[base + m].unwrap()))
    &&& g.edges.len() == ebase + ae.len()
    &&& (forall|m: int| 0 <= m < ebase ==> g.edges[m] == g2.edges[m])
    &&& (forall|q: int| 0 <= q < ae.len() ==> g.edges[ebase + q] == Some(#[trigger] ae[q]))
    &&& ae.len() == kept.len()
    &&& (forall|q: int| 0 <= q < kept.len() ==> edge_insertable(#[trigger] kept[q], ns.len() as int))
    &&& (forall|q: int|
        0 <= q < ae.len() ==> placed_edge(#[trigger] ae[q], kept[q], EdgeId((ebase + q) as u64), base, path))
    &&& nn.len() == ns.len()
    &&& (forall|m: int| 0 <= m < nn.len() ==> #[trigger] nn[m] == NodeId((base + m) as u64))
    &&& ee.len() == ae.len()
    &&& (forall|q: int| 0 <= q < ee.len() ==> #[trigger] ee[q] == EdgeId((ebase + q) as u64))
    &&& t2 == t1.push((path, nn, ee))
    &&& s3 == s1 + new_symbols(ns, base, path)
}

/// How positions of the records before and after the replacement transaction correspond.
proof fn lemma_replacement_positions(
    t0: Seq<FileEntry>,
    g0: GraphView,
    s0: Seq<SymbolRecord>,
    th: u32,
    t1: Seq<FileEntry>,
    g2: GraphView,
    s1: Seq<SymbolRecord>,
    g: GraphView,
    t2: Seq<FileEntry>,
    s3: Seq<SymbolRecord>,
    path: Seq<char>,
    base: int,
    ebase: int,
    ns: Seq<GraphNode>,
    kept: Seq<GraphEdge>,
    an: Seq<GraphNode>,
    ae: Seq<GraphEdge>,
    nn: Seq<NodeId>,
    ee: Seq<EdgeId>,
    old_nodes: Seq<NodeId>,
    old_edges: Seq<EdgeId>,
)
    requires
        replacement_facts(t0, g0, s0, th, t1, g2, s1, g, t2, s3, path, base, ebase, ns, kept, an, ae, nn, ee, old_nodes, old_edges),
    ensures
        forall|a: int|
            0 <= a < t1.len() ==> exists|b: int|
                0 <= b < t0.len() && t0[b] == #[trigger] t1[a] && t0[b].0 != path,
        forall|b: int|
            0 <= b < t0.len() && (#[trigger] t0[b]).0 != path ==> exists|a: int|
                0 <= a < t1.len() && t1[a] == t0[b],
        forall|id: NodeId|
            g0.has_node(id) && #[trigger] g0.node(id).file_path@ != path ==> (forall|k: int|
                0 <= k < old_nodes.len() ==> old_nodes[k] != id),
        !has_record(t1, path),
{
        // Positions in `t1` come from positions in `t0` other than the record of `path`.
        assert forall|a: int| 0 <= a < t1.len() implies exists|b: int|
            0 <= b < t0.len() && t0[b] == #[trigger] t1[a] && t0[b].0 != path by {
            if has_record(t0, path) {
                let i = record_index(t0, path);
                let b = if a < i { a } else { a + 1 };
                assert(t1[a] == t0[b]);
                assert(t0[b].0 != t0[i].0);
            } else {
                assert(t1[a] == t0[a]);
            }
        }
        // A live node or edge of g0 outside the record of `path` is in `t1`.
        assert forall|b: int| 0 <= b < t0.len() && (#[trigger] t0[b]).0 != path implies exists|a: int|
            0 <= a < t1.len() && t1[a] == t0[b] by {
            if has_record(t0, path) {
                let i = record_index(t0, path);
                let a = if b < i { b } else { b - 1 };
                assert(t1[a] == t0[b]);
            } else {
                assert(t1[b] == t0[b]);
            }
        }
        assert forall|id: NodeId| g0.has_node(id) && g0.node(id).file_path@ != path implies (forall|k: int|
            0 <= k < old_nodes.len() ==> old_nodes[k] != id) by {
            if has_record(t0, path) {
                let i = record_index(t0, path);
                assert forall|k: int| 0 <= k < old_nodes.len() implies old_nodes[k] != id by {
                    assert(g0.node(t0[i].1[k]).file_path@ == t0[i].0);
                }
            }
        }
        assert(!has_record(t1, path)) by {
            if has_record(t1, path) {
                let a = choose|a: int| 0 <= a < t1.len() && (#[trigger] t1[a]).0 == path;
            }
        }
    }

/// After the replacement transaction no two records share a path.
proof fn lemma_replacement_distinct(
    t0: Seq<FileEntry>,
    g0: GraphView,
    s0: Seq<SymbolRecord>,
    th: u32,
    t1: Seq<FileEntry>,
    g2: GraphView,
    s1: Seq<SymbolRecord>,
    g: GraphView,
    t2: Seq<FileEntry>,
    s3: Seq<SymbolRecord>,
    path: Seq<char>,
    base: int,
    ebase: int,
    ns: Seq<GraphNode>,
    kept: Seq<GraphEdge>,
    an: Seq<GraphNode>,
    ae: Seq<GraphEdge>,
    nn: Seq<NodeId>,
    ee: Seq<EdgeId>,
    old_nodes: Seq<NodeId>,
    old_edges: Seq<EdgeId>,
)
    requires
        replacement_facts(t0, g0, s0, th, t1, g2, s1, g, t2, s3, path, base, ebase, ns, kept, an, ae, nn, ee, old_nodes, old_edges),
    ensures
        distinct_paths(t2),
{
    lemma_replacement_positions(t0, g0, s0, th, t1, g2, s1, g, t2, s3, path, base, ebase, ns, kept, an, ae, nn, ee, old_nodes, old_edges);
    // distinct paths
        assert forall|a: int, b: int|
            0 <= a < t2.len() && 0 <= b < t2.len() && a != b implies (#[trigger] t2[a]).0
            != (#[trigger] t2[b]).0 by {
            if a < t1.len() && b < t1.len() {
                let a0 = choose|a0: int| 0 <= a0 < t0.len() && t0[a0] == t1[a] && t0[a0].0 != path;
                let b0 = choose|b0: int| 0 <= b0 < t0.len() && t0[b0] == t1[b] && t0[b0].0 != path;
                if has_record(t0, path) {
                    let i = record_index(t0, path);
                    if a0 == b0 {
                        let a1 = if a < i { a } else { a + 1 };
                        let b1 = if b < i { b } else { b + 1 };
                        assert(t1[a] == t0[a1]);
                        assert(t1[b] == t0[b1]);
                    }
                } else {
                    assert(t1[a] == t0[a]);
                    assert(t1[b] == t0[b]);
                }
            } else if a < t1.len() {
                assert(t1[a].0 != path);
            } else if b < t1.len() {
                assert(t1[b].0 != path);
            }
        }
    }

/// After the replacement transaction every recorded id is a live node of its file.
proof fn lemma_replacement_live(
    t0: Seq<FileEntry>,
    g0: GraphView,
    s0: Seq<SymbolRecord>,
    th: u32,
    t1: Seq<FileEntry>,
    g2: GraphView,
    s1: Seq<SymbolRecord>,
    g: GraphView,
    t2: Seq<FileEntry>,
    s3: Seq<SymbolRecord>,
    path: Seq<char>,
    base: int,
    ebase: int,
    ns: Seq<GraphNode>,
    kept: Seq<GraphEdge>,
    an: Seq<GraphNode>,
    ae: Seq<GraphEdge>,
    nn: Seq<NodeId>,
    ee: Seq<EdgeId>,
    old_nodes: Seq<NodeId>,
    old_edges: Seq<EdgeId>,
)
    requires
        replacement_facts(t0, g0, s0, th, t1, g2, s1, g, t2, s3, path, base, ebase, ns, kept, an, ae, nn, ee, old_nodes, old_edges),
    ensures
        records_are_live(g, t2),
{
    lemma_replacement_positions(t0, g0, s0, th, t1, g2, s1, g, t2, s3, path, base, ebase, ns, kept, an, ae, nn, ee, old_nodes, old_edges);
    // records are live
        assert forall|a: int, k: int| 0 <= a < t2.len() && 0 <= k < t2[a].1.len() implies g.has_node(
            #[trigger] t2[a].1[k],
        ) && g.node(t2[a].1[k]).file_path@ == t2[a].0 by {
            if a < t1.len() {
                let b = choose|b: int| 0 <= b < t0.len() && t0[b] == t1[a] && t0[b].0 != path;
                let id = t0[b].1[k];
                assert(g0.has_node(id));
                assert(g2.has_node(id));
                assert(g.nodes[id.0 as int] == g2.nodes[id.0 as int]);
            } else {
                assert(nn[k] == NodeId((base + k) as u64));
            }
        }
    }

/// After the replacement transaction every live node is recorded.
proof fn lemma_replacement_nodes(
    t0: Seq<FileEntry>,
    g0: GraphView,
    s0: Seq<SymbolRecord>,
    th: u32,
    t1: Seq<FileEntry>,
    g2: GraphView,
    s1: Seq<SymbolRecord>,
    g: GraphView,
    t2: Seq<FileEntry>,
    s3: Seq<SymbolRecord>,
    path: Seq<char>,
    base: int,
    ebase: int,
    ns: Seq<GraphNode>,
    kept: Seq<GraphEdge>,
    an: Seq<GraphNode>,
    ae: Seq<GraphEdge>,
    nn: Seq<NodeId>,
    ee: Seq<EdgeId>,
    old_nodes: Seq<NodeId>,
    old_edges: Seq<EdgeId>,
)
    requires
        replacement_facts(t0, g0, s0, th, t1, g2, s1, g, t2, s3, path, base, ebase, ns, kept, an, ae, nn, ee, old_nodes, old_edges),
    ensures
        nodes_are_recorded(g, t2),
{
    lemma_replacement_positions(t0, g0, s0, th, t1, g2, s1, g, t2, s3, path, base, ebase, ns, kept, an, ae, nn, ee, old_nodes, old_edges);
    // nodes are recorded
        assert forall|id: NodeId| #[trigger] g.has_node(id) implies exists|a: int|
            0 <= a < t2.len() && (#[trigger] t2[a]).0 == g.node(id).file_path@ && t2[a].1.contains(id) by {
            if (id.0 as int) < base {
                assert(g.nodes[id.0 as int] == g2.nodes[id.0 as int]);
                assert(g2.has_node(id));
                assert(g0.has_node(id));
                let b = choose|b: int|
                    0 <= b < t0.len() && (#[trigger] t0[b]).0 == g0.node(id).file_path@ && t0[b].1.contains(id);
                if t0[b].0 == path {
                    lemma_record_index(t0, path, b);
                    let m = choose|m: int| 0 <= m < t0[b].1.len() && t0[b].1[m] == id;
                    assert(old_nodes[m] == id);
                }
                let a = choose|a: int| 0 <= a < t1.len() && t1[a] == t0[b];
                assert(t2[a] == t1[a]);
            } else {
                let m = id.0 - base;
                assert(nn[m] == id);
                assert(t2[t1.len() as int] == (path, nn, ee));
                assert(t2[t1.len() as int].1.contains(id));
            }
        }
    }

/// After the replacement transaction every live edge that names a file is recorded.
#[verifier::rlimit(100)]
proof fn lemma_replacement_edges(
    t0: Seq<FileEntry>,
    g0: GraphView,
    s0: Seq<SymbolRecord>,
    th: u32,
    t1: Seq<FileEntry>,
    g2: GraphView,
    s1: Seq<SymbolRecord>,
    g: GraphView,
    t2: Seq<FileEntry>,
    s3: Seq<SymbolRecord>,
    path: Seq<char>,
    base: int,
    ebase: int,
    ns: Seq<GraphNode>,
    kept: Seq<GraphEdge>,
    an: Seq<GraphNode>,
    ae: Seq<GraphEdge>,
    nn: Seq<NodeId>,
    ee: Seq<EdgeId>,
    old_nodes: Seq<NodeId>,
    old_edges: Seq<EdgeId>,
)
    requires
        replacement_facts(t0, g0, s0, th, t1, g2, s1, g, t2, s3, path, base, ebase, ns, kept, an, ae, nn, ee, old_nodes, old_edges),
    ensures
        edges_are_recorded(g, t2),
{
    lemma_replacement_positions(t0, g0, s0, th, t1, g2, s1, g, t2, s3, path, base, ebase, ns, kept, an, ae, nn, ee, old_nodes, old_edges);
    // edges are recorded
        assert forall|e: EdgeId| #[trigger] g.has_edge(e) && g.edge(e).file_path is Some implies exists|a: int|
            0 <= a < t2.len() && (#[trigger] t2[a]).0 == g.edge(e).file_path.unwrap()@ && t2[a].2.contains(e) by {
            if (e.0 as int) < ebase {
                assert(g.edges[e.0 as int] == g2.edges[e.0 as int]);
                assert(g2.has_edge(e));
                assert(g0.has_edge(e));
                let b = choose|b: int|
                    0 <= b < t0.len() && (#[trigger] t0[b]).0 == g0.edge(e).file_path.unwrap()@ && t0[b].2.contains(e);
                if t0[b].0 == path {
                    lemma_record_index(t0, path, b);
                    let m = choose|m: int| 0 <= m < t0[b].2.len() && t0[b].2[m] == e;
                    assert(old_edges[m] == e);
                }
                let a = choose|a: int| 0 <= a < t1.len() && t1[a] == t0[b];
                assert(t2[a] == t1[a]);
            } else {
                let q = e.0 - ebase;
                assert(g.edges[ebase + q] == Some(ae[q]));
                assert(ee[q] == e);
                assert(t2[t1.len() as int] == (path, nn, ee));
                assert(t2[t1.len() as int].2.contains(e));
            }
        }
    }

/// The symbols and inferred edges after the replacement transaction are
/// consistent with the graph, and its diff replays to the graph.
proof fn lemma_replacement_rest(
    t0: Seq<FileEntry>,
    g0: GraphView,
    s0: Seq<SymbolRecord>,
    th: u32,
    t1: Seq<FileEntry>,
    g2: GraphView,
    s1: Seq<SymbolRecord>,
    g: GraphView,
    t2: Seq<FileEntry>,
    s3: Seq<SymbolRecord>,
    path: Seq<char>,
    base: int,
    ebase: int,
    ns: Seq<GraphNode>,
    kept: Seq<GraphEdge>,
    an: Seq<GraphNode>,
    ae: Seq<GraphEdge>,
    nn: Seq<NodeId>,
    ee: Seq<EdgeId>,
    old_nodes: Seq<NodeId>,
    old_edges: Seq<EdgeId>,
)
    requires
        replacement_facts(t0, g0, s0, th, t1, g2, s1, g, t2, s3, path, base, ebase, ns, kept, an, ae, nn, ee, old_nodes, old_edges),
    ensures
        symbols_are_live(g, s3),
        ai_edges_accepted(g, th),
        an.map_values(|x: GraphNode| x.id) == nn,
        ae.map_values(|x: GraphEdge| x.id) == ee,
        same_graph(g, apply_diff(g0, old_edges, old_nodes, an, ae)),
        forall|k: int|
            0 <= k < ns.len() ==> placed_node(#[trigger] an[k], ns[k], NodeId((base + k) as u64), path),
{
    // symbols are live
        lemma_without_file_subset(s0, path);
                    assert forall|k: int| 0 <= k < s3.len() implies g.has_node((#[trigger] s3[k]).1)
            && g.node(s3[k].1).file_path@ == s3[k].2 by {
            if k < s1.len() {
                assert(s3[k] == s1[k]);
                assert(s1[k].2 != path);
                assert(s0.contains(s1[k]));
                let q = choose|q: int| 0 <= q < s0.len() && s0[q] == s1[k];
                let id = s0[q].1;
                assert(g0.has_node(id));
                assert(g2.has_node(id));
                assert(g.nodes[id.0 as int] == g2.nodes[id.0 as int]);
            } else {
                let m = k - s1.len();
                assert(s3[k] == new_symbols(ns, base, path)[m]);
            }
        }
        // inferred edges
        assert forall|e: EdgeId| #[trigger] g.has_edge(e) && g.edge(e).edge_source == EdgeSource::AI implies g.edge(e).confidence >= th by {
            if (e.0 as int) < ebase {
                assert(g.edges[e.0 as int] == g2.edges[e.0 as int]);
                assert(g2.has_edge(e));
                assert(g0.has_edge(e));
            } else {
                let q = e.0 - ebase;
                assert(g.edges[ebase + q] == Some(ae[q]));
                assert(edge_insertable(kept[q], ns.len() as int));
            }
        }
        // the diff replays to this graph
        assert(an.map_values(|x: GraphNode| x.id) =~= nn);
        assert(ae.map_values(|x: GraphEdge| x.id) =~= ee);
        let h = apply_diff(g0, old_edges, old_nodes, an, ae);
        assert(h.edges =~= g.edges) by {
            assert forall|m: int| 0 <= m < g.edges.len() implies h.edges[m] == g.edges[m] by {
                if m >= ebase {
                    assert(g.edges[m] == Some(ae[m - ebase]));
                }
            }
        }
        assert forall|m: int| 0 <= m < g.nodes.len() implies (#[trigger] g.nodes[m] is Some) == (h.nodes[m] is Some)
            && (g.nodes[m] is Some ==> same_node(g.nodes[m].unwrap(), h.nodes[m].unwrap())) by {
            if m >= base {
                assert(h.nodes[m] == Some(an[m - base]));
            }
        }
        assert forall|k: int| 0 <= k < ns.len() implies placed_node(
            #[trigger] an[k],
            ns[k],
            NodeId((base + k) as u64),
            path,
        ) by {
            assert(same_node(an[k], g.nodes[base + k].unwrap()));
        }
    }

/// An inferred relationship is accepted into `g`: it reaches the threshold, its
/// confidence is in bounds, and both its ends are live nodes.
pub open spec fn relationship_accepted(r: InferredRelationship, g: GraphView, threshold: u32) -> bool {
    &&& r.confidence >= threshold
    &&& r.confidence <= CONFIDENCE_ONE
    &&& g.has_node(r.source_id)
    &&& g.has_node(r.target_id)
}

/// The accepted relationships, in order.
pub open spec fn accepted_relationships(
    rs: Seq<InferredRelationship>,
    g: GraphView,
    threshold: u32,
) -> Seq<InferredRelationship>
    decreases rs.len(),
{
    if rs.len() == 0 {
        Seq::empty()
    } else if relationship_accepted(rs.last(), g, threshold) {
        accepted_relationships(rs.drop_last(), g, threshold).push(rs.last())
    } else {
        accepted_relationships(rs.drop_last(), g, threshold)
    }
}

/// `x` is the inferred edge made from `r`, with id `id`, for file `path`.
pub open spec fn inferred_edge(x: GraphEdge, r: InferredRelationship, id: EdgeId, path: Seq<char>) -> bool {
    &&& x.id == id
    &&& x.source == r.source_id
    &&& x.target == r.target_id
    &&& x.kind == relationship_kind(r.relationship)
    &&& x.edge_source == EdgeSource::AI
    &&& x.confidence == r.confidence
    &&& x.label is Some && x.label.unwrap()@ == r.explanation@
    &&& x.file_path is Some && x.file_path.unwrap()@ == path
    &&& x.line == r.line_reference
}

/// Every relationship that `accepted_relationships` keeps is accepted.
proof fn lemma_accepted_relationships(rs: Seq<InferredRelationship>, g: GraphView, th: u32)
    ensures
        forall|q: int|
            0 <= q < accepted_relationships(rs, g, th).len() ==> relationship_accepted(
                #[trigger] accepted_relationships(rs, g, th)[q],
                g,
                th,
            ),
    decreases rs.len(),
{
    if rs.len() > 0 {
        lemma_accepted_relationships(rs.drop_last(), g, th);
        let w = accepted_relationships(rs.drop_last(), g, th);
        if relationship_accepted(rs.last(), g, th) {
            assert forall|q: int| 0 <= q < accepted_relationships(rs, g, th).len() implies relationship_accepted(
                #[trigger] accepted_relationships(rs, g, th)[q],
                g,
                th,
            ) by {
                if q < w.len() {
                    assert(accepted_relationships(rs, g, th)[q] == w[q]);
                }
            }
        }
    }
}

/// Appending inferred edges, all recorded under `path`, keeps the state consistent.
#[verifier::rlimit(100)]
proof fn lemma_inferred_consistent(
    g0: GraphView,
    t0: Seq<FileEntry>,
    s: Seq<SymbolRecord>,
    th: u32,
    t1: Seq<FileEntry>,
    g: GraphView,
    t2: Seq<FileEntry>,
    path: Seq<char>,
    pn: Seq<NodeId>,
    pe: Seq<EdgeId>,
    ids: Seq<EdgeId>,
    ebase: int,
)
    requires
        consistent(g0, t0, s, th),
        t1 == other_records(t0, path),
        pn == prior_nodes(t0, path),
        pe == prior_edges(t0, path),
        t2 == t1.push((path, pn, pe + ids)),
        g.wf(),
        g.nodes == g0.nodes,
        ebase == g0.edges.len(),
        g.edges.len() == ebase + ids.len(),
        forall|m: int| 0 <= m < ebase ==> g.edges[m] == g0.edges[m],
        forall|q: int| 0 <= q < ids.len() ==> #[trigger] ids[q] == EdgeId((ebase + q) as u64),
        forall|q: int|
            0 <= q < ids.len() ==> g.edges[ebase + q] is Some && (#[trigger] g.edges[ebase + q]).unwrap().file_path
                is Some && g.edges[ebase + q].unwrap().file_path.unwrap()@ == path,
        ai_edges_accepted(g, th),
    ensures
        consistent(g, t2, s, th),
{
    // Records other than the one for `path` keep their positions' contents.
    assert forall|a: int| 0 <= a < t1.len() implies exists|b: int|
        0 <= b < t0.len() && t0[b] == #[trigger] t1[a] && t0[b].0 != path by {
        if has_record(t0, path) {
            let i = record_index(t0, path);
            let b = if a < i { a } else { a + 1 };
            assert(t1[a] == t0[b]);
            assert(t0[b].0 != t0[i].0);
        } else {
            assert(t1[a] == t0[a]);
        }
    }
    assert forall|b: int| 0 <= b < t0.len() && (#[trigger] t0[b]).0 != path implies exists|a: int|
        0 <= a < t1.len() && t1[a] == t0[b] by {
        if has_record(t0, path) {
            let i = record_index(t0, path);
            let a = if b < i { b } else { b - 1 };
            assert(t1[a] == t0[b]);
        } else {
            assert(t1[b] == t0[b]);
        }
    }
    let last = t1.len() as int;
    assert(t2[last] == (path, pn, pe + ids));
    assert forall|a: int, b: int|
        0 <= a < t2.len() && 0 <= b < t2.len() && a != b implies (#[trigger] t2[a]).0 != (
        #[trigger] t2[b]).0 by {
        if a < last && b < last {
            let a0 = choose|a0: int| 0 <= a0 < t0.len() && t0[a0] == t1[a] && t0[a0].0 != path;
            let b0 = choose|b0: int| 0 <= b0 < t0.len() && t0[b0] == t1[b] && t0[b0].0 != path;
            if has_record(t0, path) {
                let i = record_index(t0, path);
                let a1 = if a < i { a } else { a + 1 };
                let b1 = if b < i { b } else { b + 1 };
                assert(t1[a] == t0[a1]);
                assert(t1[b] == t0[b1]);
            } else {
                assert(t1[a] == t0[a]);
                assert(t1[b] == t0[b]);
            }
        } else if a < last {
            assert(t2[a] == t1[a]);
        } else if b < last {
            assert(t2[b] == t1[b]);
        }
    }
    assert forall|a: int, k: int| 0 <= a < t2.len() && 0 <= k < t2[a].1.len() implies g.has_node(
        #[trigger] t2[a].1[k],
    ) && g.node(t2[a].1[k]).file_path@ == t2[a].0 by {
        if a < last {
            assert(t2[a] == t1[a]);
            let b = choose|b: int| 0 <= b < t0.len() && t0[b] == t1[a] && t0[b].0 != path;
            assert(g0.has_node(t0[b].1[k]));
        } else {
            let i = record_index(t0, path);
            assert(g0.has_node(t0[i].1[k]));
        }
    }
    assert forall|id: NodeId| #[trigger] g.has_node(id) implies exists|a: int|
        0 <= a < t2.len() && (#[trigger] t2[a]).0 == g.node(id).file_path@ && t2[a].1.contains(id) by {
        assert(g0.has_node(id));
        let b = choose|b: int|
            0 <= b < t0.len() && (#[trigger] t0[b]).0 == g0.node(id).file_path@ && t0[b].1.contains(id);
        if t0[b].0 == path {
            lemma_record_index(t0, path, b);
            assert(t2[last].1 == t0[b].1);
        } else {
            let a = choose|a: int| 0 <= a < t1.len() && t1[a] == t0[b];
            assert(t2[a] == t1[a]);
        }
    }
    assert forall|e: EdgeId| #[trigger] g.has_edge(e) && g.edge(e).file_path is Some implies exists|a: int|
        0 <= a < t2.len() && (#[trigger] t2[a]).0 == g.edge(e).file_path.unwrap()@ && t2[a].2.contains(e) by {
        if (e.0 as int) < ebase {
            assert(g.edges[e.0 as int] == g0.edges[e.0 as int]);
            assert(g0.has_edge(e));
            let b = choose|b: int|
                0 <= b < t0.len() && (#[trigger] t0[b]).0 == g0.edge(e).file_path.unwrap()@ && t0[b].2.contains(e);
            if t0[b].0 == path {
                lemma_record_index(t0, path, b);
                let m = choose|m: int| 0 <= m < t0[b].2.len() && t0[b].2[m] == e;
                assert(t2[last].2[m] == e);
                assert(t2[last].2.contains(e));
            } else {
                let a = choose|a: int| 0 <= a < t1.len() && t1[a] == t0[b];
                assert(t2[a] == t1[a]);
            }
        } else {
            let q = e.0 - ebase;
            assert(ids[q] == e);
            assert(t2[last].2[pe.len() + q] == e);
            assert(t2[last].2.contains(e));
        }
    }
    assert forall|k: int| 0 <= k < s.len() implies g.has_node((#[trigger] s[k]).1)
        && g.node(s[k].1).file_path@ == s[k].2 by {
        assert(g0.has_node(s[k].1));
    }
}

struct FileRecord {
    path: String,
    nodes: Vec<NodeId>,
    edges: Vec<EdgeId>,
}

spec fn entries_of(v: Seq<FileRecord>) -> Seq<FileEntry> {
    v.map_values(|r: FileRecord| (r.path@, r.nodes@, r.edges@))
}

/// Keeps the graph in step with the files it was built from.
pub struct IncrementalUpdater {
    graph: Graph,
    symbols: SymbolTable,
    files: Vec<FileRecord>,
    engine: DiffEngine,
    auto_accept_threshold: u32,
}

impl IncrementalUpdater {
    pub closed spec fn graph_view(&self) -> GraphView {
        self.graph@
    }

    pub closed spec fn file_records(&self) -> Seq<FileEntry> {
        entries_of(self.files@)
    }

    pub closed spec fn symbol_view(&self) -> Seq<SymbolRecord> {
        self.symbols@
    }

    pub closed spec fn last_sequence(&self) -> u64 {
        self.engine@
    }

    pub closed spec fn threshold(&self) -> u32 {
        self.auto_accept_threshold
    }

    pub open spec fn inv(&self) -> bool {
        consistent(self.graph_view(), self.file_records(), self.symbol_view(), self.threshold())
    }

    /// An updater over an empty graph; inferred edges are accepted from
    /// `auto_accept_threshold` (in thousandths) up.
    pub fn new(auto_accept_threshold: u32) -> (r: IncrementalUpdater)
        ensures
            r.inv(),
            r.graph_view().nodes.len() == 0,
            r.graph_view().edges.len() == 0,
            r.file_records().len() == 0,
            r.symbol_view().len() == 0,
            r.last_sequence() == 0,
            r.threshold() == auto_accept_threshold,
    {
        let r = IncrementalUpdater {
            graph: Graph::new(),
            symbols: SymbolTable::new(),
            files: Vec::new(),
            engine: DiffEngine::new(),
            auto_accept_threshold,
        };
        assert(r.file_records() =~= Seq::<FileEntry>::empty());
        r
    }

    /// The graph.
    pub fn graph(&self) -> (r: &Graph)
        ensures
            r@ == self.graph_view(),
    {
        &self.graph
    }

    /// The symbol table.
    pub fn symbols(&self) -> (r: &SymbolTable)
        ensures
            r@ == self.symbol_view(),
    {
        &self.symbols
    }

    /// The last diff sequence number issued (0 before the first diff).
    pub fn sequence(&self) -> (r: u64)
        ensures
            r == self.last_sequence(),
    {
        self.engine.sequence()
    }

    /// Drops everything the graph holds for `path`: its edges, then its nodes
    /// (with any edge still attached to them), then its symbols and its record.
    /// Returns the removal diff, or nothing when `path` has no record.
    pub fn remove_file(&mut self, path: &str) -> (d: GraphDiff)
        requires
            old(self).inv(),
            old(self).last_sequence() < u64::MAX,
        ensures
            final(self).inv(),
            final(self).threshold() == old(self).threshold(),
            !has_record(final(self).file_records(), path@),
            forall|id: NodeId|
                final(self).graph_view().has_node(id) ==> final(self).graph_view().node(id).file_path@
                    != path@,
            forall|e: EdgeId|
                final(self).graph_view().has_edge(e) && final(self).graph_view().edge(e).file_path is Some
                    ==> final(self).graph_view().edge(e).file_path.unwrap()@ != path@,
            d.sequence == old(self).last_sequence() + 1,
            final(self).last_sequence() == d.sequence,
            d.added_nodes@.len() == 0,
            d.added_edges@.len() == 0,
            d.modified_nodes@.len() == 0,
            !has_record(old(self).file_records(), path@) ==> d.removed_nodes@.len() == 0
                && d.removed_edges@.len() == 0 && final(self).graph_view() == old(self).graph_view()
                && final(self).file_records() == old(self).file_records() && final(self).symbol_view()
                == old(self).symbol_view(),
            has_record(old(self).file_records(), path@) ==> exists|i: int|
                0 <= i < old(self).file_records().len() && (#[trigger] old(self).file_records()[i]).0
                    == path@ && ({
                    &&& d.removed_nodes@ == old(self).file_records()[i].1
                    &&& d.removed_edges@ == old(self).file_records()[i].2
                    &&& final(self).file_records() == old(self).file_records().remove(i)
                    &&& final(self).symbol_view() == without_file(old(self).symbol_view(), path@)
                    &&& final(self).graph_view() == apply_diff(
                        old(self).graph_view(),
                        d.removed_edges@,
                        d.removed_nodes@,
                        Seq::empty(),
                        Seq::empty(),
                    )
                }),
    {
        let found = self.find_file(path);
        if found.is_none() {
            let seq = self.engine.next_sequence();
            return GraphDiff::new(seq);
        }
        let i = found.unwrap();
        let ghost t0 = self.file_records();
        let ghost g0 = self.graph@;
        let ghost s0 = self.symbols@;
        let rec = self.files.remove(i);
        let ghost old_files = self.files@;
        assert(self.file_records() =~= t0.remove(i as int));
        assert(t0[i as int] == (rec.path@, rec.nodes@, rec.edges@));
        drop_entities(&mut self.graph, &rec.nodes, &rec.edges);
        self.symbols.remove_file(path);
        let seq = self.engine.next_sequence();
        let mut d = GraphDiff::new(seq);
        let ghost g2 = self.graph@;
        proof {
            let t1 = self.file_records();
            let g = self.graph@;
            // Nodes of other records stay live.
            assert forall|a: int, k: int|
                0 <= a < t1.len() && 0 <= k < t1[a].1.len() implies g.has_node(#[trigger] t1[a].1[k])
                && g.node(t1[a].1[k]).file_path@ == t1[a].0 by {
                let b = if a < i { a } else { a + 1 };
                assert(t1[a] == t0[b]);
                assert(g0.has_node(t0[b].1[k]));
                let id = t0[b].1[k];
                assert forall|m: int| 0 <= m < rec.nodes@.len() implies rec.nodes@[m] != id by {
                    assert(t0[i as int].1[m] == rec.nodes@[m]);
                    assert(g0.node(t0[i as int].1[m]).file_path@ == t0[i as int].0);
                    assert(t0[b].0 != t0[i as int].0);
                }
                assert(g.has_node(id));
            }
            assert forall|id: NodeId| #[trigger] g.has_node(id) implies exists|a: int|
                0 <= a < t1.len() && (#[trigger] t1[a]).0 == g.node(id).file_path@ && t1[a].1.contains(id) by {
                assert(g0.has_node(id));
                let b = choose|b: int|
                    0 <= b < t0.len() && (#[trigger] t0[b]).0 == g0.node(id).file_path@ && t0[b].1.contains(id);
                if b == i {
                    let m = choose|m: int| 0 <= m < t0[b].1.len() && t0[b].1[m] == id;
                    assert(rec.nodes@[m] == id);
                }
                let a = if b < i { b } else { b - 1 };
                assert(t1[a] == t0[b]);
            }
            assert forall|e: EdgeId| #[trigger] g.has_edge(e) && g.edge(e).file_path is Some implies exists|a: int|
                0 <= a < t1.len() && (#[trigger] t1[a]).0 == g.edge(e).file_path.unwrap()@ && t1[a].2.contains(e) by {
                assert(g0.has_edge(e));
                let b = choose|b: int|
                    0 <= b < t0.len() && (#[trigger] t0[b]).0 == g0.edge(e).file_path.unwrap()@ && t0[b].2.contains(e);
                if b == i {
                    let m = choose|m: int| 0 <= m < t0[b].2.len() && t0[b].2[m] == e;
                    assert(rec.edges@[m] == e);
                }
                let a = if b < i { b } else { b - 1 };
                assert(t1[a] == t0[b]);
            }
            lemma_without_file_subset(s0, path@);
            let s1 = self.symbols@;
            assert forall|k: int| 0 <= k < s1.len() implies g.has_node((#[trigger] s1[k]).1)
                && g.node(s1[k].1).file_path@ == s1[k].2 by {
                assert(s1 == without_file(s0, path@));
                assert(s1[k].2 != path@);
                assert(s0.contains(s1[k]));
                let q = choose|q: int| 0 <= q < s0.len() && s0[q] == s1[k];
                assert(g0.has_node(s0[q].1));
                let id = s0[q].1;
                assert(g0.node(id).file_path@ == s0[q].2);
                assert forall|m: int| 0 <= m < rec.nodes@.len() implies rec.nodes@[m] != id by {
                    assert(t0[i as int].1[m] == rec.nodes@[m]);
                    assert(g0.node(t0[i as int].1[m]).file_path@ == t0[i as int].0);
                    assert(t0[i as int].0 == path@);
                }
                assert(g.has_node(id));
            }
            assert forall|a: int, b: int|
                0 <= a < t1.len() && 0 <= b < t1.len() && a != b implies (#[trigger] t1[a]).0
                != (#[trigger] t1[b]).0 by {
                let a0 = if a < i { a } else { a + 1 };
                let b0 = if b < i { b } else { b + 1 };
                assert(t1[a] == t0[a0]);
                assert(t1[b] == t0[b0]);
            }
            assert forall|e: EdgeId| #[trigger] g.has_edge(e) && g.edge(e).edge_source == EdgeSource::AI implies g.edge(e).confidence >= self.auto_accept_threshold by {
                assert(g0.has_edge(e));
            }
            assert(!has_record(t1, path@)) by {
                if has_record(t1, path@) {
                    let a = choose|a: int| 0 <= a < t1.len() && (#[trigger] t1[a]).0 == path@;
                    let b = if a < i { a } else { a + 1 };
                    assert(t1[a] == t0[b]);
                }
            }
            lemma_unrecorded_path_is_absent(g, t1, s1, self.auto_accept_threshold, path@);
            assert(g =~= apply_diff(g0, rec.edges@, rec.nodes@, Seq::empty(), Seq::empty()));
        }
        d.removed_nodes = rec.nodes;
        d.removed_edges = rec.edges;
        d
    }

    /// The replacement transaction for one file: removes what the graph holds for
    /// `path` (edges, then nodes), inserts the extracted nodes with fresh ids and
    /// the insertable extracted edges with their endpoints moved to those ids,
    /// re-registers the file's symbols and records the new ids. Returns the diff,
    /// or nothing (and changes nothing) when the file had nothing and still has
    /// nothing.
    pub fn apply_extraction(&mut self, path: &str, result: ExtractionResult) -> (r: Option<GraphDiff>)
        requires
            old(self).inv(),
            old(self).last_sequence() < u64::MAX,
            old(self).graph_view().nodes.len() + result.nodes@.len() < u64::MAX,
            old(self).graph_view().edges.len() + result.edges@.len() < u64::MAX,
        ensures
            final(self).inv(),
            final(self).threshold() == old(self).threshold(),
            ({
                let t = old(self).file_records();
                let g = old(self).graph_view();
                let base = g.nodes.len() as int;
                let kept = insertable_edges(result.edges@, result.nodes@.len() as int);
                if prior_nodes(t, path@).len() == 0 && prior_edges(t, path@).len() == 0
                    && result.nodes@.len() == 0 {
                    &&& r is None
                    &&& final(self).graph_view() == g
                    &&& final(self).file_records() == t
                    &&& final(self).symbol_view() == old(self).symbol_view()
                    &&& final(self).last_sequence() == old(self).last_sequence()
                } else {
                    &&& r is Some
                    &&& r.unwrap().sequence == old(self).last_sequence() + 1
                    &&& final(self).last_sequence() == r.unwrap().sequence
                    &&& r.unwrap().removed_nodes@ == prior_nodes(t, path@)
                    &&& r.unwrap().removed_edges@ == prior_edges(t, path@)
                    &&& r.unwrap().modified_nodes@.len() == 0
                    &&& r.unwrap().added_nodes@.len() == result.nodes@.len()
                    &&& forall|k: int|
                        0 <= k < result.nodes@.len() ==> placed_node(
                            #[trigger] r.unwrap().added_nodes@[k],
                            result.nodes@[k],
                            NodeId((base + k) as u64),
                            path@,
                        )
                    &&& r.unwrap().added_edges@.len() == kept.len()
                    &&& forall|q: int|
                        0 <= q < kept.len() ==> placed_edge(
                            #[trigger] r.unwrap().added_edges@[q],
                            kept[q],
                            EdgeId((g.edges.len() + q) as u64),
                            base,
                            path@,
                        )
                    &&& final(self).file_records() == other_records(t, path@).push(
                        (
                            path@,
                            r.unwrap().added_nodes@.map_values(|n: GraphNode| n.id),
                            r.unwrap().added_edges@.map_values(|e: GraphEdge| e.id),
                        ),
                    )
                    &&& final(self).symbol_view() == without_file(old(self).symbol_view(), path@)
                        + new_symbols(result.nodes@, base, path@)
                    &&& same_graph(
                        final(self).graph_view(),
                        apply_diff(
                            g,
                            r.unwrap().removed_edges@,
                            r.unwrap().removed_nodes@,
                            r.unwrap().added_nodes@,
                            r.unwrap().added_edges@,
                        ),
                    )
                }
            }),
    {
        let ghost t0 = self.file_records();
        let ghost g0 = self.graph@;
        let ghost s0 = self.symbols@;
        let found = self.find_file(path);
        let (old_nodes, old_edges) = match found {
            Some(i) => {
                proof {
                    lemma_record_index(t0, path@, i as int);
                }
                if self.files[i].nodes.len() == 0 && self.files[i].edges.len() == 0
                    && result.nodes.len() == 0 {
                    return None;
                }
                let rec = self.files.remove(i);
                assert(self.file_records() =~= t0.remove(i as int));
                (rec.nodes, rec.edges)
            },
            None => {
                if result.nodes.len() == 0 {
                    return None;
                }
                (Vec::new(), Vec::new())
            },
        };
        let ghost t1 = self.file_records();
        let ghost files1 = self.files@;
        assert(t1 == other_records(t0, path@));
        assert(old_nodes@ == prior_nodes(t0, path@));
        assert(old_edges@ == prior_edges(t0, path@));
        drop_entities(&mut self.graph, &old_nodes, &old_edges);
        self.symbols.remove_file(path);
        let ghost g2 = self.graph@;
        let ghost s1 = self.symbols@;
        let base = self.graph.node_slots();
        let n = result.nodes.len();
        let mut new_nodes: Vec<NodeId> = Vec::new();
        let mut added_nodes: Vec<GraphNode> = Vec::new();
        let mut k: usize = 0;
        while k < n
            invariant
                self.files@ == files1,
                self.engine@ == old(self).engine@,
                self.auto_accept_threshold == old(self).auto_accept_threshold,
                n == result.nodes@.len(),
                k <= n,
                base == g2.nodes.len(),
                base + n < u64::MAX,
                self.graph@.wf(),
                self.graph@.nodes.len() == base + k,
                self.graph@.edges == g2.edges,
                forall|m: int| 0 <= m < base ==> self.graph@.nodes[m] == g2.nodes[m],
                forall|m: int|
                    0 <= m < k ==> self.graph@.nodes[base + m] is Some && placed_node(
                        #[trigger] self.graph@.nodes[base + m].unwrap(),
                        result.nodes@[m],
                        NodeId((base + m) as u64),
                        path@,
                    ),
                new_nodes@.len() == k,
                forall|m: int| 0 <= m < k ==> #[trigger] new_nodes@[m] == NodeId((base + m) as u64),
                added_nodes@.len() == k,
                forall|m: int|
                    0 <= m < k ==> same_node(
                        #[trigger] added_nodes@[m],
                        self.graph@.nodes[base + m].unwrap(),
                    ),
                self.symbols@ == s1 + new_symbols(result.nodes@.subrange(0, k as int), base as int, path@),
            decreases n - k,
        {
            let mut x = result.nodes[k].duplicate();
            x.id = NodeId(base as u64 + k as u64);
            x.file_path = path.to_owned();
            let copy = x.duplicate();
            let qn = x.qualified_name.clone();
            let ghost before = self.graph@;
            let id = self.graph.add_node(x);
            let ghost sym_before = self.symbols@;
            self.symbols.insert(qn, id, path.to_owned());
            new_nodes.push(id);
            added_nodes.push(copy);
            proof {
                assert(new_symbols(result.nodes@.subrange(0, k + 1), base as int, path@) =~= new_symbols(
                    result.nodes@.subrange(0, k as int),
                    base as int,
                    path@,
                ).push((result.nodes@[k as int].qualified_name@, id, path@)));
                assert(self.symbols@ =~= s1 + new_symbols(result.nodes@.subrange(0, k + 1), base as int, path@));
                assert forall|m: int| 0 <= m < k + 1 implies self.graph@.nodes[base + m] is Some && placed_node(
                    #[trigger] self.graph@.nodes[base + m].unwrap(),
                    result.nodes@[m],
                    NodeId((base + m) as u64),
                    path@,
                ) by {
                    if m < k {
                        assert(self.graph@.nodes[base + m] == before.nodes[base + m]);
                    }
                }
                assert forall|m: int| 0 <= m < k + 1 implies same_node(
                    #[trigger] added_nodes@[m],
                    self.graph@.nodes[base + m].unwrap(),
                ) by {
                    if m < k {
                        assert(self.graph@.nodes[base + m] == before.nodes[base + m]);
                    }
                }
            }
            k = k + 1;
        }
        assert(result.nodes@.subrange(0, n as int) =~= result.nodes@);
        let ghost g3 = self.graph@;
        let ghost s2 = self.symbols@;
        let ebase = self.graph.edge_slots();
        let ne = result.edges.len();
        let mut new_edges: Vec<EdgeId> = Vec::new();
        let mut added_edges: Vec<GraphEdge> = Vec::new();
        let mut k: usize = 0;
        while k < ne
            invariant
                self.files@ == files1,
                self.engine@ == old(self).engine@,
                self.auto_accept_threshold == old(self).auto_accept_threshold,
                self.symbols@ == s2,
                n == result.nodes@.len(),
                ne == result.edges@.len(),
                k <= ne,
                base == g2.nodes.len(),
                base + n < u64::MAX,
                ebase == g3.edges.len(),
                ebase + ne < u64::MAX,
                g3.nodes.len() == base + n,
                forall|m: int| 0 <= m < n ==> #[trigger] g3.nodes[base + m] is Some,
                self.graph@.wf(),
                self.graph@.nodes == g3.nodes,
                added_edges@.len() <= k,
                self.graph@.edges.len() == ebase + added_edges@.len(),
                forall|m: int| 0 <= m < ebase ==> self.graph@.edges[m] == g3.edges[m],
                forall|q: int|
                    0 <= q < added_edges@.len() ==> self.graph@.edges[ebase + q] == Some(
                        #[trigger] added_edges@[q],
                    ),
                added_edges@.len() == insertable_edges(result.edges@.subrange(0, k as int), n as int).len(),
                forall|q: int|
                    0 <= q < added_edges@.len() ==> placed_edge(
                        #[trigger] added_edges@[q],
                        insertable_edges(result.edges@.subrange(0, k as int), n as int)[q],
                        EdgeId((ebase + q) as u64),
                        base as int,
                        path@,
                    ),
                new_edges@.len() == added_edges@.len(),
                forall|q: int|
                    0 <= q < new_edges@.len() ==> #[trigger] new_edges@[q] == EdgeId((ebase + q) as u64),
            decreases ne - k,
        {
            let ghost sub = result.edges@.subrange(0, k + 1);
            assert(sub.drop_last() =~= result.edges@.subrange(0, k as int));
            assert(sub.last() == result.edges@[k as int]);
            let e = &result.edges[k];
            if e.source.0 < n as u64 && e.target.0 < n as u64 && has_valid_confidence(e) && !(
            e.edge_source == EdgeSource::AI) {
                let mut x = e.duplicate();
                x.source = NodeId(base as u64 + e.source.0);
                x.target = NodeId(base as u64 + e.target.0);
                x.file_path = Some(path.to_owned());
                x.id = EdgeId(ebase as u64 + added_edges.len() as u64);
                assert(g3.nodes[base + e.source.0] is Some);
                assert(g3.nodes[base + e.target.0] is Some);
                let copy = x.duplicate();
                let ghost before = self.graph@;
                let id = self.graph.add_edge(x);
                new_edges.push(id);
                added_edges.push(copy);
                proof {
                    assert forall|q: int| 0 <= q < added_edges@.len() implies self.graph@.edges[ebase + q] == Some(
                        #[trigger] added_edges@[q],
                    ) by {
                        if q < added_edges@.len() - 1 {
                            assert(self.graph@.edges[ebase + q] == before.edges[ebase + q]);
                        }
                    }
                }
            }
            k = k + 1;
        }
        assert(result.edges@.subrange(0, ne as int) =~= result.edges@);
        let ghost g4 = self.graph@;
        let ghost nn0 = new_nodes@;
        let ghost ee0 = new_edges@;
        self.files.push(FileRecord { path: path.to_owned(), nodes: new_nodes, edges: new_edges });
        let seq = self.engine.next_sequence();
        let d = GraphDiff {
            sequence: seq,
            added_nodes,
            removed_nodes: old_nodes,
            added_edges,
            removed_edges: old_edges,
            modified_nodes: Vec::new(),
        };
        proof {
            let kept = insertable_edges(result.edges@, n as int);
            lemma_insertable_edges(result.edges@, n as int);
            assert(self.file_records() =~= t1.push((path@, nn0, ee0)));
            assert(replacement_facts(
                t0, g0, s0, self.auto_accept_threshold, t1, g2, s1, self.graph@, self.file_records(),
                self.symbols@, path@, base as int, ebase as int, result.nodes@, kept, d.added_nodes@,
                d.added_edges@, nn0, ee0, old_nodes@, old_edges@,
            ));
            lemma_replacement_distinct(
                t0, g0, s0, self.auto_accept_threshold, t1, g2, s1, self.graph@, self.file_records(),
                self.symbols@, path@, base as int, ebase as int, result.nodes@, kept, d.added_nodes@,
                d.added_edges@, nn0, ee0, old_nodes@, old_edges@,
            );
            lemma_replacement_live(
                t0, g0, s0, self.auto_accept_threshold, t1, g2, s1, self.graph@, self.file_records(),
                self.symbols@, path@, base as int, ebase as int, result.nodes@, kept, d.added_nodes@,
                d.added_edges@, nn0, ee0, old_nodes@, old_edges@,
            );
            lemma_replacement_nodes(
                t0, g0, s0, self.auto_accept_threshold, t1, g2, s1, self.graph@, self.file_records(),
                self.symbols@, path@, base as int, ebase as int, result.nodes@, kept, d.added_nodes@,
                d.added_edges@, nn0, ee0, old_nodes@, old_edges@,
            );
            lemma_replacement_edges(
                t0, g0, s0, self.auto_accept_threshold, t1, g2, s1, self.graph@, self.file_records(),
                self.symbols@, path@, base as int, ebase as int, result.nodes@, kept, d.added_nodes@,
                d.added_edges@, nn0, ee0, old_nodes@, old_edges@,
            );
            lemma_replacement_rest(
                t0, g0, s0, self.auto_accept_threshold, t1, g2, s1, self.graph@, self.file_records(),
                self.symbols@, path@, base as int, ebase as int, result.nodes@, kept, d.added_nodes@,
                d.added_edges@, nn0, ee0, old_nodes@, old_edges@,
            );
            assert(self.graph@.edges =~= g2.edges + d.added_edges@.map_values(|e: GraphEdge| Some(e)));
        }
        Some(d)
    }

    /// Adds the inferred relationships that are accepted (see
    /// `relationship_accepted`) as inferred edges of `path`, appended to its
    /// record. Returns a diff with those additions only, or nothing (and changes
    /// nothing) when none is accepted.
    pub fn add_inferred_edges(&mut self, path: &str, rels: &Vec<InferredRelationship>) -> (r: Option<GraphDiff>)
        requires
            old(self).inv(),
            old(self).last_sequence() < u64::MAX,
            old(self).graph_view().edges.len() + rels@.len() < u64::MAX,
        ensures
            final(self).inv(),
            final(self).threshold() == old(self).threshold(),
            final(self).symbol_view() == old(self).symbol_view(),
            final(self).graph_view().nodes == old(self).graph_view().nodes,
            ({
                let g = old(self).graph_view();
                let t = old(self).file_records();
                let acc = accepted_relationships(rels@, g, old(self).threshold());
                if acc.len() == 0 {
                    &&& r is None
                    &&& final(self).graph_view() == g
                    &&& final(self).file_records() == t
                    &&& final(self).last_sequence() == old(self).last_sequence()
                } else {
                    &&& r is Some
                    &&& r.unwrap().sequence == old(self).last_sequence() + 1
                    &&& final(self).last_sequence() == r.unwrap().sequence
                    &&& r.unwrap().added_nodes@.len() == 0
                    &&& r.unwrap().removed_nodes@.len() == 0
                    &&& r.unwrap().removed_edges@.len() == 0
                    &&& r.unwrap().modified_nodes@.len() == 0
                    &&& r.unwrap().added_edges@.len() == acc.len()
                    &&& forall|q: int|
                        0 <= q < acc.len() ==> inferred_edge(
                            #[trigger] r.unwrap().added_edges@[q],
                            acc[q],
                            EdgeId((g.edges.len() + q) as u64),
                            path@,
                        )
                    &&& final(self).graph_view() == apply_diff(
                        g,
                        Seq::empty(),
                        Seq::empty(),
                        Seq::empty(),
                        r.unwrap().added_edges@,
                    )
                    &&& final(self).file_records() == other_records(t, path@).push(
                        (
                            path@,
                            prior_nodes(t, path@),
                            prior_edges(t, path@) + r.unwrap().added_edges@.map_values(
                                |e: GraphEdge| e.id,
                            ),
                        ),
                    )
                }
            }),
    {
        let ghost g0 = self.graph@;
        let ghost t0 = self.file_records();
        let th = self.auto_accept_threshold;
        let ebase = self.graph.edge_slots();
        let mut added: Vec<GraphEdge> = Vec::new();
        let mut ids: Vec<EdgeId> = Vec::new();
        let mut k: usize = 0;
        while k < rels.len()
            invariant
                self.files@ == old(self).files@,
                self.symbols@ == old(self).symbols@,
                self.engine@ == old(self).engine@,
                self.auto_accept_threshold == th,
                t0 == old(self).file_records(),
                g0 == old(self).graph_view(),
                consistent(g0, t0, old(self).symbol_view(), th),
                k <= rels@.len(),
                ebase == g0.edges.len(),
                ebase + rels@.len() < u64::MAX,
                self.graph@.wf(),
                self.graph@.nodes == g0.nodes,
                added@.len() <= k,
                self.graph@.edges.len() == ebase + added@.len(),
                forall|m: int| 0 <= m < ebase ==> self.graph@.edges[m] == g0.edges[m],
                forall|q: int| 0 <= q < added@.len() ==> self.graph@.edges[ebase + q] == Some(#[trigger] added@[q]),
                added@.len() == accepted_relationships(rels@.subrange(0, k as int), g0, th).len(),
                forall|q: int|
                    0 <= q < added@.len() ==> inferred_edge(
                        #[trigger] added@[q],
                        accepted_relationships(rels@.subrange(0, k as int), g0, th)[q],
                        EdgeId((ebase + q) as u64),
                        path@,
                    ),
                ids@.len() == added@.len(),
                forall|q: int| 0 <= q < ids@.len() ==> #[trigger] ids@[q] == EdgeId((ebase + q) as u64),
                ai_edges_accepted(self.graph@, th),
            decreases rels@.len() - k,
        {
            let ghost sub = rels@.subrange(0, k + 1);
            assert(sub.drop_last() =~= rels@.subrange(0, k as int));
            assert(sub.last() == rels@[k as int]);
            let rel = &rels[k];
            if rel.confidence >= th && rel.confidence <= CONFIDENCE_ONE && self.graph.node(rel.source_id).is_some()
                && self.graph.node(rel.target_id).is_some() {
                let x = GraphEdge {
                    id: EdgeId(ebase as u64 + added.len() as u64),
                    source: rel.source_id,
                    target: rel.target_id,
                    kind: rel.relationship.into(),
                    edge_source: EdgeSource::AI,
                    confidence: rel.confidence,
                    label: Some(rel.explanation.clone()),
                    file_path: Some(path.to_owned()),
                    line: rel.line_reference,
                };
                let copy = x.duplicate();
                let ghost before = self.graph@;
                let id = self.graph.add_edge(x);
                ids.push(id);
                added.push(copy);
                proof {
                    assert forall|q: int| 0 <= q < added@.len() implies self.graph@.edges[ebase + q] == Some(
                        #[trigger] added@[q],
                    ) by {
                        if q < added@.len() - 1 {
                            assert(self.graph@.edges[ebase + q] == before.edges[ebase + q]);
                        }
                    }
                    assert forall|e: EdgeId| #[trigger] self.graph@.has_edge(e) && self.graph@.edge(e).edge_source
                        == EdgeSource::AI implies self.graph@.edge(e).confidence >= th by {
                        if e.0 < before.edges.len() {
                            assert(before.has_edge(e));
                        }
                    }
                }
            }
            k = k + 1;
        }
        assert(rels@.subrange(0, k as int) =~= rels@);
        if added.len() == 0 {
            assert(self.graph@.edges =~= g0.edges);
            return None;
        }
        let found = self.find_file(path);
        let (prior_n, prior_e) = match found {
            Some(i) => {
                proof {
                    lemma_record_index(t0, path@, i as int);
                }
                let rec = self.files.remove(i);
                assert(self.file_records() =~= t0.remove(i as int));
                (rec.nodes, rec.edges)
            },
            None => (Vec::new(), Vec::new()),
        };
        let ghost t1 = self.file_records();
        assert(t1 == other_records(t0, path@));
        let mut all_edges = prior_e;
        let ghost pe = all_edges@;
        let mut j: usize = 0;
        while j < ids.len()
            invariant
                j <= ids@.len(),
                all_edges@ == pe + ids@.subrange(0, j as int),
            decreases ids@.len() - j,
        {
            all_edges.push(ids[j]);
            j = j + 1;
            assert(all_edges@ =~= pe + ids@.subrange(0, j as int));
        }
        assert(ids@.subrange(0, j as int) =~= ids@);
        let ghost pn = prior_n@;
        let ghost ae = all_edges@;
        self.files.push(FileRecord { path: path.to_owned(), nodes: prior_n, edges: all_edges });
        let seq = self.engine.next_sequence();
        let mut d = GraphDiff::new(seq);
        proof {
            let acc = accepted_relationships(rels@, g0, th);
            let g = self.graph@;
            let t2 = self.file_records();
            assert(t2 =~= t1.push((path@, pn, ae)));
            assert(added@.map_values(|e: GraphEdge| e.id) =~= ids@);
            assert(g.edges =~= g0.edges + added@.map_values(|e: GraphEdge| Some(e)));
            assert(g =~= apply_diff(g0, Seq::empty(), Seq::empty(), Seq::empty(), added@));
            lemma_inferred_consistent(g0, t0, old(self).symbol_view(), th, t1, g, t2, path@, pn, pe, ids@, ebase as int);
        }
        d.added_edges = added;
        Some(d)
    }

    /// Position of the record for `path`.
    fn find_file(&self, path: &str) -> (r: Option<usize>)
        ensures
            r is Some ==> r.unwrap() < self.file_records().len() && self.file_records()[r.unwrap() as int].0
                == path@,
            r is None ==> !has_record(self.file_records(), path@),
    {
        let mut i: usize = 0;
        while i < self.files.len()
            invariant
                i <= self.files@.len(),
                forall|j: int| 0 <= j < i ==> (#[trigger] self.file_records()[j]).0 != path@,
            decreases self.files@.len() - i,
        {
            if str_eq(self.files[i].path.as_str(), path) {
                return Some(i);
            }
            i = i + 1;
        }
        None
    }

    /// The ids of the nodes the graph holds for `path`, in insertion order.
    pub fn file_nodes(&self, path: &str) -> (r: Vec<NodeId>)
        ensures
            has_record(self.file_records(), path@) ==> exists|i: int|
                0 <= i < self.file_records().len() && (#[trigger] self.file_records()[i]).0 == path@ && r@
                    == self.file_records()[i].1,
            !has_record(self.file_records(), path@) ==> r@.len() == 0,
    {
        match self.find_file(path) {
            Some(i) => copy_node_ids(&self.files[i].nodes),
            None => Vec::new(),
        }
    }
}

/// Removes the listed edges, then the listed nodes (each with its incident edges).
fn drop_entities(g: &mut Graph, nodes: &Vec<NodeId>, edges: &Vec<EdgeId>)
    requires
        old(g)@.wf(),
    ensures
        final(g)@.wf(),
        final(g)@ == drop_nodes(drop_edges(old(g)@, edges@), nodes@),
        final(g)@.nodes.len() == old(g)@.nodes.len(),
        final(g)@.edges.len() == old(g)@.edges.len(),
        forall|id: NodeId|
            #[trigger] final(g)@.has_node(id) <==> (old(g)@.has_node(id) && forall|k: int|
                0 <= k < nodes@.len() ==> nodes@[k] != id),
        forall|id: NodeId| #[trigger] final(g)@.has_node(id) ==> final(g)@.node(id) == old(g)@.node(id),
        forall|e: EdgeId|
            #[trigger] final(g)@.has_edge(e) ==> old(g)@.has_edge(e) && final(g)@.edge(e) == old(
                g,
            )@.edge(e) && forall|k: int| 0 <= k < edges@.len() ==> edges@[k] != e,
{
    let ghost g0 = g@;
    let mut j: usize = 0;
    while j < edges.len()
        invariant
            j <= edges@.len(),
            g@.wf(),
            g@ == drop_edges(g0, edges@.subrange(0, j as int)),
            g@.nodes == g0.nodes,
            g@.edges.len() == g0.edges.len(),
            forall|e: EdgeId|
                #[trigger] g@.has_edge(e) ==> g0.has_edge(e) && g@.edge(e) == g0.edge(e) && forall|k: int|
                    0 <= k < j ==> edges@[k] != e,
        decreases edges@.len() - j,
    {
        let ghost sub = edges@.subrange(0, j + 1);
        assert(sub.drop_last() =~= edges@.subrange(0, j as int));
        assert(sub.last() == edges@[j as int]);
        let ghost before = g@;
        g.remove_edge(edges[j]);
        proof {
            assert forall|e: EdgeId| #[trigger] g@.has_edge(e) implies g0.has_edge(e) && g@.edge(e)
                == g0.edge(e) && forall|k: int| 0 <= k < j + 1 ==> edges@[k] != e by {
                assert(before.has_edge(e));
            }
        }
        j = j + 1;
    }
    assert(edges@.subrange(0, j as int) =~= edges@);
    let ghost g1 = g@;
    let mut j: usize = 0;
    while j < nodes.len()
        invariant
            j <= nodes@.len(),
            g@.wf(),
            g@ == drop_nodes(g1, nodes@.subrange(0, j as int)),
            g@.nodes.len() == g1.nodes.len(),
            g@.edges.len() == g1.edges.len(),
            forall|id: NodeId|
                #[trigger] g@.has_node(id) <==> (g1.has_node(id) && forall|k: int|
                    0 <= k < j ==> nodes@[k] != id),
            forall|id: NodeId| #[trigger] g@.has_node(id) ==> g@.node(id) == g1.node(id),
            forall|e: EdgeId| #[trigger] g@.has_edge(e) ==> g1.has_edge(e) && g@.edge(e) == g1.edge(e),
        decreases nodes@.len() - j,
    {
        let ghost sub = nodes@.subrange(0, j + 1);
        assert(sub.drop_last() =~= nodes@.subrange(0, j as int));
        assert(sub.last() == nodes@[j as int]);
        let ghost before = g@;
        g.remove_node(nodes[j]);
        proof {
            assert forall|id: NodeId| #[trigger] g@.has_node(id) <==> (g1.has_node(id) && forall|k: int|
                0 <= k < j + 1 ==> nodes@[k] != id) by {
                if g1.has_node(id) && forall|k: int| 0 <= k < j + 1 ==> nodes@[k] != id {
                    assert(before.has_node(id));
                }
                if g@.has_node(id) {
                    assert(before.has_node(id));
                }
            }
            assert forall|id: NodeId| #[trigger] g@.has_node(id) implies g@.node(id) == g1.node(id) by {
                assert(before.has_node(id));
            }
            assert forall|e: EdgeId| #[trigger] g@.has_edge(e) implies g1.has_edge(e) && g@.edge(e)
                == g1.edge(e) by {
                if before.has_node(nodes@[j as int]) {
                    assert(g@.edges[e.0 as int] == crate::graph::detach(before.edges, nodes@[j as int])[e.0 as int]);
                    assert(before.has_edge(e));
                }
            }
        }
        j = j + 1;
    }
    assert(nodes@.subrange(0, j as int) =~= nodes@);
}

fn copy_node_ids(v: &Vec<NodeId>) -> (r: Vec<NodeId>)
    ensures
        r@ == v@,
{
    let mut r: Vec<NodeId> = Vec::new();
    let mut i: usize = 0;
    while i < v.len()
        invariant
            i <= v@.len(),
            r@ == v@.subrange(0, i as int),
        decreases v@.len() - i,
    {
        r.push(v[i]);
        i = i + 1;
        assert(r@ =~= v@.subrange(0, i as int));
    }
    assert(r@ =~= v@);
    r
}

} // verus!
