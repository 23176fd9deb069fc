use canopy::cache::{AnalysisCache, CacheStats};
use canopy::hashing::compute_content_hash;
use canopy::local::LocalProvider;
use canopy::model::{GraphNode, Language, NodeId, NodeKind};
use canopy::prompt::{decimal, node_kind_name, node_summary_prompt, semantic_analysis_prompt};
use canopy::protocol::{HealthResponse, ServerConfig};
use canopy::semantic::{AnalysisContext, InferredRelationship, SemanticAnalysisRequest, SemanticRelationship};
use canopy::text::{contains, starts_with};
use canopy::workspace::{cache_dir, detect_workspace, graph_cache_path, WorkspaceType};

fn node(id: u64, name: &str, qualified_name: &str, kind: NodeKind) -> GraphNode {
    GraphNode {
        id: NodeId(id),
        kind,
        name: name.to_string(),
        qualified_name: qualified_name.to_string(),
        file_path: "src/lib.rs".to_string(),
        line_start: Some(10),
        line_end: Some(20),
        language: Some(Language::Rust),
        is_container: false,
        child_count: 0,
        loc: Some(10),
        metadata: Vec::new(),
    }
}

fn context(enclosing: Vec<String>) -> AnalysisContext {
    AnalysisContext {
        file_path: "src/lib.rs".to_string(),
        language: "Rust".to_string(),
        enclosing_context: enclosing,
        imports: vec![],
        project_context: Vec::new(),
    }
}

#[test]
fn cache_paths_under_the_root() {
    assert_eq!(cache_dir("/repo"), "/repo/.canopy");
    assert_eq!(cache_dir("/repo/"), "/repo/.canopy");
    assert_eq!(graph_cache_path("/repo"), "/repo/.canopy/cache.json");
}

#[test]
fn workspace_markers_by_precedence() {
    assert_eq!(detect_workspace(true, true, true), Some(WorkspaceType::Cargo));
    assert_eq!(detect_workspace(false, true, true), Some(WorkspaceType::Npm));
    assert_eq!(detect_workspace(false, false, true), Some(WorkspaceType::GoModules));
    assert_eq!(detect_workspace(false, false, false), None);
}

#[test]
fn content_hash_is_deterministic() {
    assert_eq!(compute_content_hash("fn main() {}"), compute_content_hash("fn main() {}"));
    assert_ne!(compute_content_hash("fn main() {}"), compute_content_hash("fn main() { }"));
}

#[test]
fn decimals_and_kind_names() {
    assert_eq!(decimal(0), "0");
    assert_eq!(decimal(42), "42");
    assert_eq!(decimal(1000), "1000");
    assert_eq!(decimal(u64::MAX), u64::MAX.to_string());
    assert_eq!(node_kind_name(NodeKind::CIJob), "CIJob");
}

#[test]
fn summary_prompt_text() {
    let n = node(1, "calculate_total", "src/math.rs::calculate_total", NodeKind::Function);
    let p = node_summary_prompt(&n, &context(vec!["mod math".to_string()]));
    assert!(p.starts_with("Summarize what this Function does in one concise sentence:\n\nFile: src/lib.rs\nName: calculate_total\nType: Function\nLines: 10-20\n"));
    assert!(p.contains("Qualified name: src/math.rs::calculate_total\n\nContext: [\"mod math\"]\n\n"));
}

#[test]
fn analysis_prompt_text() {
    let src = node(7, "f", "a.rs::f", NodeKind::Function);
    let cands = vec![node(8, "g", "b.rs::g", NodeKind::Function), node(9, "H", "b.rs::H", NodeKind::Struct)];
    let rels = vec![SemanticRelationship::Calls, SemanticRelationship::Uses];
    let p = semantic_analysis_prompt(&src, &cands, &context(vec![]), &rels);
    assert!(p.contains("Source element: f (ID: 7, kind: Function, lines: 10-20)"));
    assert!(p.contains("Surrounding context: []"));
    assert!(p.contains("Related elements to analyze:\n- g (ID: 8, kind: Function, lines: 10-20)\n- H (ID: 9, kind: Struct, lines: 10-20)\n\n"));
    assert!(p.contains("Look for these types of relationships: Calls, Uses\n"));
    assert!(p.contains("\"source_id\": 7,"));
}

#[test]
fn string_search() {
    assert!(starts_with("process_data_fast", "process_data"));
    assert!(!starts_with("process", "process_data"));
    assert!(contains("src/lib.rs::User::new", "User"));
    assert!(!contains("src/lib.rs::new", "User"));
    assert!(contains("abc", ""));
}

#[test]
fn test_local_provider_analysis() {
    let provider = LocalProvider::new();
    let request = SemanticAnalysisRequest {
        source_node: node(1, "process_data", "process_data", NodeKind::Function),
        candidate_nodes: vec![node(2, "validate_input", "validate_input", NodeKind::Function)],
        context: context(vec![]),
        relationship_types: vec![SemanticRelationship::Calls, SemanticRelationship::DependsOn],
    };
    let analysis = provider.analyze_semantic_relationships(&request);
    assert_eq!(analysis.tokens_used, 0);
    assert!(analysis.relationships.is_empty());
}

#[test]
fn local_provider_guesses_from_names() {
    let provider = LocalProvider::new();
    let request = SemanticAnalysisRequest {
        source_node: node(1, "load", "src/User.rs::load", NodeKind::Function),
        candidate_nodes: vec![
            node(2, "load_all", "x::load_all", NodeKind::Function),
            node(3, "User", "x::User", NodeKind::Struct),
        ],
        context: context(vec![]),
        relationship_types: vec![],
    };
    let r = provider.analyze_semantic_relationships(&request).relationships;
    assert_eq!(r.len(), 2);
    assert_eq!((r[0].target_id, r[0].relationship, r[0].confidence), (NodeId(2), SemanticRelationship::Calls, 600));
    assert_eq!(r[0].explanation, "Function name suggests it calls load_all");
    assert_eq!((r[1].target_id, r[1].relationship, r[1].confidence), (NodeId(3), SemanticRelationship::DependsOn, 500));
    assert_eq!(r[1].explanation, "Source references User in its qualified name");
}

#[test]
fn cache_hits_expire_and_clear() {
    let mut c = AnalysisCache::new(100);
    let n = node(5, "f", "a.rs::f", NodeKind::Function);
    let rel = InferredRelationship {
        source_id: NodeId(5),
        target_id: NodeId(6),
        relationship: SemanticRelationship::Calls,
        confidence: 900,
        explanation: "calls".to_string(),
        line_reference: None,
    };
    c.insert(&n, 11, vec![rel.clone()], 1000);
    assert_eq!(c.get(&n, 11, 1050).map(|e| e.relationships.len()), Some(1));
    assert!(c.get(&n, 12, 1050).is_none());
    assert!(c.get(&n, 11, 1101).is_none());
    c.insert(&n, 11, vec![rel.clone(), rel], 1200);
    assert_eq!(c.stats(1250), CacheStats { total_entries: 1, expired_entries: 0 });
    assert_eq!(c.get(&n, 11, 1250).map(|e| e.relationships.len()), Some(2));
    c.insert(&n, 12, vec![], 0);
    assert_eq!(c.stats(1250), CacheStats { total_entries: 2, expired_entries: 1 });
    c.cleanup_expired(1250);
    assert_eq!(c.stats(1250), CacheStats { total_entries: 1, expired_entries: 0 });
    c.clear();
    assert_eq!(c.stats(0).total_entries, 0);
}

#[test]
fn server_defaults_and_health() {
    let c = ServerConfig::default();
    assert_eq!((c.port, c.host.as_str()), (7890, "127.0.0.1"));
    let h = HealthResponse::ok("0.1.0".to_string());
    assert_eq!((h.status.as_str(), h.version.as_str()), ("ok", "0.1.0"));
}
