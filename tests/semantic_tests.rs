use canopy::budget::{AIBudget, Budget, BudgetWarning};
use canopy::model::{EdgeKind, GraphNode, Language, NodeId, NodeKind};
use canopy::semantic::{
    create_provider, default_relationship_types, enrichment_targets, AnalysisContext, ProviderKind,
    SemanticAnalysisRequest, SemanticConfig, SemanticRelationship,
};

fn node(name: &str, kind: NodeKind) -> GraphNode {
    GraphNode {
        id: NodeId(1),
        kind,
        name: name.to_string(),
        qualified_name: name.to_string(),
        file_path: "test.rs".to_string(),
        line_start: Some(10),
        line_end: Some(20),
        language: Some(Language::Rust),
        is_container: false,
        child_count: 0,
        loc: Some(10),
        metadata: Vec::new(),
    }
}

#[test]
fn test_semantic_analysis_request_creation() {
    let request = SemanticAnalysisRequest {
        source_node: node("test_function", NodeKind::Function),
        candidate_nodes: vec![],
        context: AnalysisContext {
            file_path: "test.rs".to_string(),
            language: "Rust".to_string(),
            enclosing_context: vec!["fn main()".to_string()],
            imports: vec!["std::collections::HashMap".to_string()],
            project_context: Vec::new(),
        },
        relationship_types: vec![SemanticRelationship::Calls],
    };

    assert_eq!(request.context.language, "Rust");
    assert_eq!(request.relationship_types.len(), 1);
}

#[test]
fn test_ai_budget() {
    let mut budget = AIBudget::new(1000);

    assert!(budget.has_budget(500));
    assert!(!budget.has_budget(1500));

    budget.use_tokens(300);
    assert_eq!(budget.tokens_used, 300);
    assert_eq!(budget.remaining_tokens(), 700);

    assert!(!budget.has_budget(800));
    assert!(budget.has_budget(600));
}

#[test]
fn test_semantic_relationships() {
    let relationships = vec![
        SemanticRelationship::Calls,
        SemanticRelationship::DependsOn,
        SemanticRelationship::Uses,
        SemanticRelationship::Configures,
    ];

    let mut set = std::collections::HashSet::new();
    for rel in relationships {
        set.insert(rel);
    }

    assert_eq!(set.len(), 4);
    assert!(set.contains(&SemanticRelationship::Calls));
}

#[test]
fn test_analysis_context() {
    let context = AnalysisContext {
        file_path: "src/main.rs".to_string(),
        language: "Rust".to_string(),
        enclosing_context: vec!["fn main()".to_string(), "struct User".to_string()],
        imports: vec!["std::fs::File".to_string(), "serde::{Serialize, Deserialize}".to_string()],
        project_context: vec![("version".to_string(), "1.0.0".to_string())],
    };

    assert_eq!(context.language, "Rust");
    assert_eq!(context.imports.len(), 2);
    assert!(context.project_context.iter().any(|(k, _)| k == "version"));
}

#[test]
fn test_provider_creation() {
    assert!(create_provider("openai", None).is_ok());
    assert!(create_provider("anthropic", None).is_ok());
    assert!(create_provider("local", None).is_ok());
    assert!(create_provider("unknown", None).is_err());
}

#[test]
fn test_ai_providers() {
    let openai = create_provider("openai", None);
    assert!(openai.is_ok());
    let anthropic = create_provider("anthropic", Some("SECRET-REDACTED".to_string()));
    assert!(anthropic.is_ok());
    assert_eq!(anthropic.unwrap().kind, ProviderKind::Anthropic);
    let local = create_provider("local", None);
    assert_eq!(local.unwrap().kind, ProviderKind::Local);
    let unknown = create_provider("unknown", None);
    assert!(unknown.is_err());
}

#[test]
fn relationships_map_to_edge_kinds() {
    assert_eq!(EdgeKind::from(SemanticRelationship::Calls), EdgeKind::Calls);
    assert_eq!(EdgeKind::from(SemanticRelationship::DependsOn), EdgeKind::TypeReference);
    assert_eq!(EdgeKind::from(SemanticRelationship::Extends), EdgeKind::Inherits);
    assert_eq!(EdgeKind::from(SemanticRelationship::Uses), EdgeKind::Imports);
    assert_eq!(EdgeKind::from(SemanticRelationship::TestedBy), EdgeKind::SemanticReference);
}

#[test]
fn budget_exhaustion_skips_requests() {
    let mut b = Budget::new(1000);
    b.use_tokens(990);
    // any request costs at least the fixed overhead
    assert!(!b.has_budget(Budget::estimate_tokens(0)));
    assert!(!b.has_budget(Budget::estimate_tokens(4000)));
    assert_eq!(b.remaining(), 10);
    assert!(!b.is_exhausted());
    assert_eq!(b.warning_level(), BudgetWarning::Exhausted);
}

#[test]
fn budget_estimates_and_levels() {
    assert_eq!(Budget::estimate_tokens(0), 500);
    assert_eq!(Budget::estimate_tokens(4000), 1500);
    assert_eq!(Budget::estimate_tokens(7), 501);
    let mut b = Budget::new(100);
    assert_eq!(b.warning_level(), BudgetWarning::Healthy);
    b.use_tokens(50);
    assert_eq!(b.warning_level(), BudgetWarning::Warning);
    b.use_tokens(25);
    assert_eq!(b.warning_level(), BudgetWarning::Critical);
    b.use_tokens(15);
    assert_eq!(b.warning_level(), BudgetWarning::Exhausted);
    b.use_tokens(20);
    assert!(b.is_exhausted());
    assert_eq!(b.remaining(), 0);
    assert!(b.should_auto_accept(800));
    assert!(!b.should_auto_accept(799));
    assert_eq!(Budget::new(0).warning_level(), BudgetWarning::Healthy);
    assert_eq!(Budget::default().total_tokens, 100_000);
}

#[test]
fn enrichment_targets_functions_and_methods() {
    let nodes = vec![
        node("a", NodeKind::Function),
        node("B", NodeKind::Struct),
        node("c", NodeKind::Method),
    ];
    assert_eq!(enrichment_targets(&nodes), vec![0, 2]);
    assert_eq!(
        default_relationship_types(),
        vec![SemanticRelationship::Calls, SemanticRelationship::DependsOn, SemanticRelationship::Uses]
    );
    let c = SemanticConfig::default();
    assert_eq!((c.provider.as_str(), c.batch_size, c.api_delay_ms), ("openai", 10, 1000));
}
