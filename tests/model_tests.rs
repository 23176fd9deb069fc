use canopy::graph::Graph;
use canopy::model::{EdgeId, EdgeKind, EdgeSource, GraphEdge, GraphNode, Language, NodeId, NodeKind};
use canopy::paths::FileType;

fn plain_node(name: &str, qualified_name: &str, file_path: &str) -> GraphNode {
    GraphNode {
        id: NodeId(0),
        kind: NodeKind::Function,
        name: name.to_string(),
        qualified_name: qualified_name.to_string(),
        file_path: file_path.to_string(),
        line_start: None,
        line_end: None,
        language: None,
        is_container: false,
        child_count: 0,
        loc: None,
        metadata: Vec::new(),
    }
}

#[test]
fn test_node_id_creation() {
    let path = "test.rs";
    let node_id = NodeId::new(path, NodeKind::Function, "test_function");

    // NodeId should be deterministic
    let same_id = NodeId::new(path, NodeKind::Function, "test_function");
    assert_eq!(node_id, same_id);

    // Different names should produce different IDs
    let different_id = NodeId::new(path, NodeKind::Function, "different_function");
    assert_ne!(node_id, different_id);
}

#[test]
fn test_graph_node_creation() {
    let node = GraphNode {
        id: NodeId(1),
        kind: NodeKind::Function,
        name: "test_function".to_string(),
        qualified_name: "module::test_function".to_string(),
        file_path: "src/lib.rs".to_string(),
        line_start: Some(10),
        line_end: Some(20),
        language: Some(Language::Rust),
        is_container: false,
        child_count: 0,
        loc: Some(10),
        metadata: Vec::new(),
    };

    assert_eq!(node.name, "test_function");
    assert_eq!(node.kind, NodeKind::Function);
    assert_eq!(node.line_start, Some(10));
}

#[test]
fn tests_test_graph_operations() {
    let mut graph = Graph::new();

    let id1 = graph.add_node(plain_node("func1", "func1", "test.rs"));
    let id2 = graph.add_node(plain_node("func2", "func2", "test.rs"));

    assert_eq!(graph.node_count(), 2);

    let edge = GraphEdge {
        id: EdgeId(0),
        source: id1,
        target: id2,
        kind: EdgeKind::Calls,
        edge_source: EdgeSource::Heuristic,
        confidence: 800,
        label: Some("calls".to_string()),
        file_path: Some("test.rs".to_string()),
        line: None,
    };

    graph.add_edge(edge);
    assert_eq!(graph.edge_count(), 1);

    assert!(graph.has_edge_between(id1, id2, EdgeKind::Calls));
}

#[test]
fn main_test_graph_operations() {
    let mut graph = Graph::new();

    let node = GraphNode {
        id: NodeId(0),
        kind: NodeKind::Function,
        name: "test_function".to_string(),
        qualified_name: "test::test_function".to_string(),
        file_path: "test.rs".to_string(),
        line_start: Some(1),
        line_end: Some(10),
        language: Some(Language::Rust),
        is_container: false,
        child_count: 0,
        loc: Some(10),
        metadata: Vec::new(),
    };

    let node_id = graph.add_node(node);
    assert_eq!(graph.node_count(), 1);

    let retrieved = graph.node(node_id);
    assert!(retrieved.is_some());
    assert_eq!(retrieved.unwrap().name, "test_function");

    graph.remove_node(node_id);
    assert_eq!(graph.node_count(), 0);
}

#[test]
fn test_node_kinds() {
    let function_kind = NodeKind::Function;
    let class_kind = NodeKind::Class;

    assert_ne!(function_kind, class_kind);

    match function_kind {
        NodeKind::Function => assert!(true),
        _ => panic!("Expected Function kind"),
    }
}

#[test]
fn test_language_detection() {
    let test_cases = vec![
        ("test.rs", Language::Rust),
        ("main.ts", Language::TypeScript),
        ("app.js", Language::JavaScript),
        ("lib.py", Language::Python),
        ("main.go", Language::Go),
        ("Main.java", Language::Java),
        ("main.c", Language::C),
        ("main.cpp", Language::Cpp),
        ("config.yml", Language::Yaml),
        ("config.toml", Language::Toml),
        ("package.json", Language::Json),
        ("unknown.xyz", Language::Other),
    ];

    for (filename, expected) in test_cases {
        let detected = Language::from_path(filename);
        assert_eq!(detected, expected, "Failed for {}", filename);
    }
}

#[test]
fn language_of_dockerfiles_and_dotfiles() {
    assert_eq!(Language::from_path("deploy/Dockerfile"), Language::Dockerfile);
    assert_eq!(Language::from_path("Dockerfile.dev"), Language::Dockerfile);
    assert_eq!(Language::from_path(".bashrc"), Language::Other);
    assert_eq!(Language::from_path("src/schema.graphql"), Language::GraphQL);
    assert_eq!(Language::from_path("dir.rs/notes"), Language::Other);
}

#[test]
fn file_type_by_extension() {
    assert_eq!(FileType::from_path("main.rs"), Some(FileType::Rust));
    assert_eq!(FileType::from_path("app.tsx"), Some(FileType::TypeScript));
    assert_eq!(FileType::from_path("x.h"), Some(FileType::Cpp));
    assert_eq!(FileType::from_path("notes.txt"), Some(FileType::Generic));
    assert_eq!(FileType::from_path("Makefile"), None);
}

#[test]
fn remove_node_cascades_to_edges() {
    let mut graph = Graph::new();
    let a = graph.add_node(plain_node("a", "t.rs::a", "t.rs"));
    let b = graph.add_node(plain_node("b", "t.rs::b", "t.rs"));
    let c = graph.add_node(plain_node("c", "t.rs::c", "t.rs"));
    let mk = |s: NodeId, t: NodeId| GraphEdge {
        id: EdgeId(0),
        source: s,
        target: t,
        kind: EdgeKind::Calls,
        edge_source: EdgeSource::Structure,
        confidence: 1000,
        label: None,
        file_path: None,
        line: None,
    };
    let e1 = graph.add_edge(mk(a, b));
    let e2 = graph.add_edge(mk(b, c));
    let e3 = graph.add_edge(mk(a, c));
    assert_eq!(graph.edges_from(a), vec![e1, e3]);
    assert_eq!(graph.edges_to(c), vec![e2, e3]);
    let removed = graph.remove_node(b);
    assert_eq!(removed.map(|n| n.name), Some("b".to_string()));
    assert_eq!(graph.node_count(), 2);
    assert_eq!(graph.edge_count(), 1);
    assert!(graph.edge(e1).is_none());
    assert!(graph.edge(e2).is_none());
    assert!(graph.edge(e3).is_some());
    // ids are never reused
    let d = graph.add_node(plain_node("d", "t.rs::d", "t.rs"));
    assert_eq!(d, NodeId(3));
    assert!(graph.remove_node(b).is_none());
}

#[test]
fn graph_lookups_by_name_and_kind() {
    let mut graph = Graph::new();
    let a = graph.add_node(plain_node("run", "x.rs::run", "x.rs"));
    let mut s = plain_node("Config", "x.rs::Config", "x.rs");
    s.kind = NodeKind::Struct;
    let b = graph.add_node(s);
    let _c = graph.add_node(plain_node("run", "y.rs::run", "y.rs"));
    assert_eq!(graph.find_node_by_name("run"), Some(a));
    assert_eq!(graph.find_node_by_qualified("x.rs::Config"), Some(b));
    assert_eq!(graph.find_node_by_qualified("z.rs::nothing"), None);
    assert_eq!(graph.nodes_of_kind(NodeKind::Struct), vec![b]);
    assert_eq!(graph.node_ids(), vec![NodeId(0), NodeId(1), NodeId(2)]);
    assert_eq!(graph.node(NodeId(7)).map(|n| n.id), None);
}

#[test]
fn test_graph_ancestors() {
    let mut graph = Graph::new();

    let mut root = plain_node("src", "src", "src");
    root.kind = NodeKind::Directory;
    root.is_container = true;
    let mut child = plain_node("lib.rs", "lib.rs", "src/lib.rs");
    child.kind = NodeKind::File;

    let root_id = graph.add_node(root);
    let child_id = graph.add_node(child);

    let edge = GraphEdge {
        id: EdgeId(0),
        source: root_id,
        target: child_id,
        kind: EdgeKind::Contains,
        edge_source: EdgeSource::Structure,
        confidence: 1000,
        label: None,
        file_path: None,
        line: None,
    };

    graph.add_edge(edge);

    let ancestors = graph.ancestors(child_id);
    assert!(ancestors.contains(&root_id));
}

#[test]
fn ancestors_follow_contains_chains_only() {
    let mut graph = Graph::new();
    let a = graph.add_node(plain_node("a", "a", "a"));
    let b = graph.add_node(plain_node("b", "b", "a/b"));
    let c = graph.add_node(plain_node("c", "c", "a/b/c.rs"));
    let d = graph.add_node(plain_node("d", "d", "d.rs"));
    let mk = |s: NodeId, t: NodeId, k: EdgeKind| GraphEdge {
        id: EdgeId(0),
        source: s,
        target: t,
        kind: k,
        edge_source: EdgeSource::Structure,
        confidence: 1000,
        label: None,
        file_path: None,
        line: None,
    };
    graph.add_edge(mk(b, c, EdgeKind::Contains));
    graph.add_edge(mk(a, b, EdgeKind::Contains));
    graph.add_edge(mk(d, c, EdgeKind::Calls));
    assert_eq!(graph.ancestors(c), vec![a, b]);
    assert_eq!(graph.ancestors(a), Vec::<NodeId>::new());
}
