use canopy::hashing::{decode_source, SourceError};
use canopy::model::{EdgeId, EdgeKind, EdgeSource, GraphEdge, GraphNode, Language, NodeId, NodeKind};
use canopy::paths::symbol_node;
use canopy::semantic::{InferredRelationship, SemanticRelationship};
use canopy::updater::{ExtractionResult, IncrementalUpdater};

fn function(path: &str, name: &str, line: u32) -> GraphNode {
    symbol_node(path, NodeKind::Function, name, None, line, line, Language::Rust, false)
}

fn extraction(nodes: Vec<GraphNode>) -> ExtractionResult {
    ExtractionResult { nodes, edges: Vec::new() }
}

#[test]
fn create_file_emits_first_diff() {
    let mut u = IncrementalUpdater::new(800);
    let d = u.apply_extraction("a.rs", extraction(vec![function("a.rs", "main", 1)])).unwrap();
    assert_eq!(d.sequence, 1);
    assert_eq!(d.added_nodes.len(), 1);
    let n = &d.added_nodes[0];
    assert_eq!(n.kind, NodeKind::Function);
    assert_eq!(n.name, "main");
    assert_eq!(n.qualified_name, "a.rs::main");
    assert_eq!(n.language, Some(Language::Rust));
    assert_eq!(n.line_start, Some(1));
    assert_eq!(n.line_end, Some(1));
    assert!(d.removed_nodes.is_empty());
    assert_eq!(u.sequence(), 1);
    assert_eq!(u.graph().node_count(), 1);
}

#[test]
fn modify_file_replaces_its_nodes() {
    let mut u = IncrementalUpdater::new(800);
    let d1 = u.apply_extraction("a.rs", extraction(vec![function("a.rs", "main", 1)])).unwrap();
    let main_prev = d1.added_nodes[0].id;
    let d2 = u
        .apply_extraction("a.rs", extraction(vec![function("a.rs", "main", 1), function("a.rs", "helper", 2)]))
        .unwrap();
    assert_eq!(d2.sequence, 2);
    assert_eq!(d2.removed_nodes, vec![main_prev]);
    assert_eq!(d2.added_nodes.len(), 2);
    assert_eq!(d2.added_nodes[0].name, "main");
    assert_eq!((d2.added_nodes[0].line_start, d2.added_nodes[0].line_end), (Some(1), Some(1)));
    assert_eq!(d2.added_nodes[1].name, "helper");
    assert_eq!((d2.added_nodes[1].line_start, d2.added_nodes[1].line_end), (Some(2), Some(2)));
    assert_eq!(u.graph().node_count(), 2);
    assert!(u.graph().node(main_prev).is_none());
    let ids: Vec<NodeId> = d2.added_nodes.iter().map(|n| n.id).collect();
    assert_eq!(u.file_nodes("a.rs"), ids);
}

#[test]
fn delete_file_removes_everything_of_it() {
    let mut u = IncrementalUpdater::new(800);
    u.apply_extraction("a.rs", extraction(vec![function("a.rs", "main", 1)])).unwrap();
    let d2 = u
        .apply_extraction("a.rs", extraction(vec![function("a.rs", "main", 1), function("a.rs", "helper", 2)]))
        .unwrap();
    let ids: Vec<NodeId> = d2.added_nodes.iter().map(|n| n.id).collect();
    let d3 = u.remove_file("a.rs");
    assert_eq!(d3.sequence, 3);
    assert_eq!(d3.removed_nodes, ids);
    assert!(d3.added_nodes.is_empty());
    assert_eq!(u.graph().node_count(), 0);
    assert!(u.file_nodes("a.rs").is_empty());
    assert_eq!(u.symbols().lookup("a.rs::main"), None);
    // removing it again changes nothing but still emits an empty removal diff
    let d4 = u.remove_file("a.rs");
    assert_eq!(d4.sequence, 4);
    assert!(d4.is_empty());
    assert_eq!(u.sequence(), 4);
    assert_eq!(u.graph().node_count(), 0);
}

#[test]
fn parse_error_then_fix() {
    let mut u = IncrementalUpdater::new(800);
    // `fn x() {` does not parse: the extractor fails, nothing reaches the updater.
    assert_eq!(u.sequence(), 0);
    assert_eq!(u.graph().node_count(), 0);
    let d = u.apply_extraction("b.rs", extraction(vec![function("b.rs", "x", 1)])).unwrap();
    assert_eq!(d.sequence, 1);
    assert_eq!(d.added_nodes.len(), 1);
    assert_eq!(d.added_nodes[0].name, "x");
}

#[test]
fn empty_file_emits_no_diff() {
    let mut u = IncrementalUpdater::new(800);
    assert!(u.apply_extraction("empty.rs", extraction(Vec::new())).is_none());
    assert!(u.apply_extraction("empty.rs", extraction(Vec::new())).is_none());
    assert_eq!(u.sequence(), 0);
}

#[test]
fn invalid_utf8_is_rejected() {
    assert_eq!(decode_source(&vec![0xff, 0xfe, 0x00]), Err(SourceError::InvalidUtf8));
    assert_eq!(decode_source(&b"fn main() {}".to_vec()), Ok("fn main() {}".to_string()));
    assert_eq!(decode_source(&Vec::new()), Ok(String::new()));
}

#[test]
fn disjoint_files_get_distinct_sequences() {
    let mut u = IncrementalUpdater::new(800);
    let d1 = u.apply_extraction("a.rs", extraction(vec![function("a.rs", "f", 1)])).unwrap();
    let d2 = u.apply_extraction("b.rs", extraction(vec![function("b.rs", "g", 1)])).unwrap();
    assert!(d1.sequence < d2.sequence);
    assert_eq!(u.graph().node_count(), 2);
    assert_eq!(u.symbols().lookup("a.rs::f"), Some(d1.added_nodes[0].id));
    assert_eq!(u.symbols().lookup("b.rs::g"), Some(d2.added_nodes[0].id));
    assert_eq!(u.symbols().symbols_in_file("b.rs"), vec![d2.added_nodes[0].id]);
}

#[test]
fn extracted_edges_are_placed_or_dropped() {
    let mut u = IncrementalUpdater::new(800);
    let edge = |s: u64, t: u64, src: EdgeSource, c: u32| GraphEdge {
        id: EdgeId(0),
        source: NodeId(s),
        target: NodeId(t),
        kind: EdgeKind::Imports,
        edge_source: src,
        confidence: c,
        label: None,
        file_path: None,
        line: Some(1),
    };
    u.apply_extraction("z.rs", extraction(vec![function("z.rs", "zero", 1)])).unwrap();
    let r = ExtractionResult {
        nodes: vec![function("a.rs", "f", 1), function("a.rs", "g", 2)],
        edges: vec![
            edge(0, 1, EdgeSource::Heuristic, 1000),
            edge(0, 5, EdgeSource::Heuristic, 900),
            edge(1, 0, EdgeSource::Structure, 500),
            edge(1, 0, EdgeSource::Heuristic, 600),
        ],
    };
    let d = u.apply_extraction("a.rs", r).unwrap();
    assert_eq!(d.added_edges.len(), 2);
    let f = d.added_nodes[0].id;
    let g = d.added_nodes[1].id;
    assert_eq!((d.added_edges[0].source, d.added_edges[0].target), (f, g));
    assert_eq!((d.added_edges[1].source, d.added_edges[1].target), (g, f));
    assert_eq!(d.added_edges[1].confidence, 600);
    assert_eq!(d.added_edges[0].file_path, Some("a.rs".to_string()));
    assert!(u.graph().has_edge_between(f, g, EdgeKind::Imports));
    // removing the file takes its edges with it
    let rm = u.remove_file("a.rs");
    assert_eq!(rm.removed_edges.len(), 2);
    assert_eq!(u.graph().edge_count(), 0);
}

#[test]
fn inferred_edges_follow_the_structural_diff() {
    let mut u = IncrementalUpdater::new(700);
    let dg = u.apply_extraction("g.rs", extraction(vec![function("g.rs", "g", 1)])).unwrap();
    let dn = u.apply_extraction("f.rs", extraction(vec![function("f.rs", "f", 1)])).unwrap();
    let f = dn.added_nodes[0].id;
    let g = dg.added_nodes[0].id;
    let rels = vec![
        InferredRelationship {
            source_id: f,
            target_id: g,
            relationship: SemanticRelationship::Calls,
            confidence: 900,
            explanation: "f calls g".to_string(),
            line_reference: Some(1),
        },
        InferredRelationship {
            source_id: f,
            target_id: g,
            relationship: SemanticRelationship::Uses,
            confidence: 650,
            explanation: "weak".to_string(),
            line_reference: None,
        },
    ];
    let d = u.add_inferred_edges("f.rs", &rels).unwrap();
    assert_eq!(d.sequence, dn.sequence + 1);
    assert_eq!(d.added_edges.len(), 1);
    let e = &d.added_edges[0];
    assert_eq!((e.source, e.target, e.kind, e.edge_source, e.confidence), (f, g, EdgeKind::Calls, EdgeSource::AI, 900));
    assert_eq!(e.label, Some("f calls g".to_string()));
    assert!(d.added_nodes.is_empty() && d.removed_nodes.is_empty());
    // nothing accepted: no diff
    assert!(u.add_inferred_edges("f.rs", &vec![rels[1].clone()]).is_none());
    // the inferred edge belongs to f.rs and leaves with it
    let rm = u.remove_file("f.rs");
    assert_eq!(rm.removed_edges, vec![e.id]);
    assert_eq!(u.graph().edge_count(), 0);
}
