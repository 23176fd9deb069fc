use canopy::extract::{extract, extract_source, ExtractError, SourceLanguage, SyntaxNode};
use canopy::model::{EdgeKind, EdgeSource, NodeId, NodeKind};
use canopy::updater::IncrementalUpdater;

fn leaf(kind: &str, text: &str, row: u32) -> SyntaxNode {
    SyntaxNode { kind: kind.to_string(), text: text.to_string(), start_row: row, end_row: row, is_error: false, children: Vec::new() }
}

fn node(kind: &str, text: &str, start_row: u32, end_row: u32, children: Vec<SyntaxNode>) -> SyntaxNode {
    SyntaxNode { kind: kind.to_string(), text: text.to_string(), start_row, end_row, is_error: false, children }
}

// The tree a Rust parser gives for the test program of `test_rust_extraction`.
fn rust_program() -> SyntaxNode {
    node("source_file", "", 0, 15, vec![
        node("function_item", "", 1, 3, vec![leaf("fn", "fn", 1), leaf("identifier", "main", 1), leaf("parameters", "()", 1), node("block", "", 1, 3, vec![])]),
        node("function_item", "", 5, 7, vec![leaf("fn", "fn", 5), leaf("identifier", "helper", 5), leaf("parameters", "()", 5), leaf("primitive_type", "i32", 5), node("block", "", 5, 7, vec![])]),
        node("struct_item", "", 9, 11, vec![leaf("struct", "struct", 9), leaf("type_identifier", "User", 9), node("field_declaration_list", "", 9, 11, vec![])]),
        node("impl_item", "", 13, 17, vec![
            leaf("impl", "impl", 13),
            leaf("type_identifier", "User", 13),
            node("declaration_list", "", 13, 17, vec![
                node("function_item", "", 14, 16, vec![leaf("fn", "fn", 14), leaf("identifier", "new", 14), node("block", "", 14, 16, vec![])]),
            ]),
        ]),
    ])
}

#[test]
fn test_rust_extraction() {
    let result = extract(SourceLanguage::Rust, "test.rs", &rust_program()).unwrap();

    assert!(result.nodes.len() >= 2, "Should extract at least 2 nodes");

    let functions: Vec<_> = result.nodes.iter().filter(|n| n.kind == NodeKind::Function).collect();
    assert!(functions.len() >= 2, "Should extract at least 2 functions");
    assert!(functions.iter().any(|f| f.name == "main"));
    assert!(functions.iter().any(|f| f.name == "helper"));

    let structs: Vec<_> = result.nodes.iter().filter(|n| n.kind == NodeKind::Struct).collect();
    assert!(structs.len() >= 1, "Should extract at least 1 struct");
    assert!(structs.iter().any(|s| s.name == "User"));

    let method = result.nodes.iter().find(|n| n.name == "new").unwrap();
    assert_eq!((method.kind, method.qualified_name.as_str()), (NodeKind::Method, "test.rs::User::new"));
}

#[test]
fn test_javascript_extraction() {
    let root = node("program", "", 0, 17, vec![
        node("function_declaration", "", 1, 3, vec![leaf("function", "function", 1), leaf("identifier", "greet", 1), node("statement_block", "", 1, 3, vec![])]),
        node("class_declaration", "", 5, 13, vec![
            leaf("class", "class", 5),
            leaf("identifier", "Person", 5),
            node("class_body", "", 5, 13, vec![
                node("method_definition", "", 6, 8, vec![leaf("property_identifier", "constructor", 6)]),
                node("method_definition", "", 10, 12, vec![leaf("property_identifier", "greet", 10)]),
            ]),
        ]),
        node("lexical_declaration", "", 15, 17, vec![node("variable_declarator", "", 15, 17, vec![leaf("identifier", "arrowFunc", 15), node("arrow_function", "", 15, 17, vec![])])]),
    ]);
    let result = extract(SourceLanguage::JavaScript, "test.js", &root).unwrap();

    let functions: Vec<_> = result.nodes.iter().filter(|n| n.kind == NodeKind::Function).collect();
    assert!(functions.len() >= 1, "Should extract at least 1 function");
    assert!(functions.iter().any(|f| f.name == "greet"));

    let classes: Vec<_> = result.nodes.iter().filter(|n| n.kind == NodeKind::Class).collect();
    assert!(classes.len() >= 1, "Should extract at least 1 class");
    assert!(classes.iter().any(|c| c.name == "Person"));
}

#[test]
fn test_python_extraction() {
    let root = node("module", "", 0, 8, vec![
        node("function_definition", "", 1, 2, vec![leaf("def", "def", 1), leaf("identifier", "greet", 1), node("block", "", 2, 2, vec![])]),
        node("class_definition", "", 4, 8, vec![
            leaf("class", "class", 4),
            leaf("identifier", "Person", 4),
            node("block", "", 5, 8, vec![
                node("function_definition", "", 5, 6, vec![leaf("identifier", "__init__", 5)]),
                node("function_definition", "", 7, 8, vec![leaf("identifier", "greet", 7)]),
            ]),
        ]),
    ]);
    let result = extract(SourceLanguage::Python, "test.py", &root).unwrap();

    // Functions inside a class are methods (`{path}::{class}::{name}`).
    let functions: Vec<_> = result.nodes.iter().filter(|n| n.kind == NodeKind::Function || n.kind == NodeKind::Method).collect();
    assert!(functions.len() >= 2, "Should extract at least 2 functions");

    let classes: Vec<_> = result.nodes.iter().filter(|n| n.kind == NodeKind::Class).collect();
    assert!(classes.len() >= 1, "Should extract at least 1 class");
    assert!(classes.iter().any(|c| c.name == "Person"));
}

#[test]
fn test_edge_creation() {
    let root = node("module", "", 0, 5, vec![
        node("import_statement", "import os", 1, 1, vec![leaf("dotted_name", "os", 1)]),
        node("import_from_statement", "from pathlib import Path", 2, 2, vec![leaf("dotted_name", "pathlib", 2), leaf("dotted_name", "Path", 2)]),
        node("function_definition", "", 4, 5, vec![leaf("identifier", "process_file", 4)]),
    ]);
    let result = extract(SourceLanguage::Python, "test.py", &root).unwrap();

    assert!(result.edges.len() > 0, "Should extract some edges");

    let imports: Vec<_> = result.edges.iter().filter(|e| e.kind == EdgeKind::Imports).collect();
    assert!(!imports.is_empty(), "Should extract import relationships");

    // Both imports name other files: their endpoints are left unresolved.
    let e = &result.edges[0];
    assert_eq!((e.source, e.target, e.edge_source, e.confidence), (NodeId(1), NodeId(1), EdgeSource::Heuristic, 500));
    assert_eq!((e.label.as_deref(), e.line), (Some("uses import os"), Some(2)));
}

#[test]
fn import_of_a_local_definition_resolves() {
    // fn run() { use helper; }  fn helper() {}
    let run = node("function_item", "", 0, 2, vec![
        leaf("identifier", "run", 0),
        node("block", "", 0, 2, vec![node("use_declaration", "use self::helper;", 1, 1, vec![])]),
    ]);
    let helper = node("function_item", "", 3, 3, vec![leaf("identifier", "helper", 3)]);
    let root = node("source_file", "", 0, 3, vec![run, helper]);
    let r = extract(SourceLanguage::Rust, "r.rs", &root).unwrap();
    assert_eq!(r.edges.len(), 1);
    let e = &r.edges[0];
    assert_eq!((e.source, e.target, e.kind, e.confidence), (NodeId(0), NodeId(1), EdgeKind::Imports, 1000));
    // the updater places it between the new nodes
    let mut u = IncrementalUpdater::new(800);
    let d = u.apply_extraction("r.rs", r).unwrap();
    assert_eq!(d.added_edges.len(), 1);
    assert_eq!((d.added_edges[0].source, d.added_edges[0].target), (d.added_nodes[0].id, d.added_nodes[1].id));
}

#[test]
fn test_empty_extraction() {
    let result = extract_source(SourceLanguage::Rust, "empty.rs", &Vec::new(), &node("source_file", "", 0, 0, vec![])).unwrap();
    assert_eq!(result.nodes.len(), 0);
    assert_eq!(result.edges.len(), 0);
}

#[test]
fn test_invalid_utf8_handling() {
    let invalid_utf8 = vec![0xFF, 0xFE, 0xFD];
    let result = extract_source(SourceLanguage::Rust, "binary.rs", &invalid_utf8, &node("source_file", "", 0, 0, vec![]));
    assert!(result.is_err() || result.unwrap().nodes.is_empty());
    let again = extract_source(SourceLanguage::Rust, "binary.rs", &invalid_utf8, &node("source_file", "", 0, 0, vec![]));
    assert_eq!(again.err(), Some(ExtractError::InvalidUtf8));
}

#[test]
fn test_edge_kinds() {
    let kinds = vec![EdgeKind::Calls, EdgeKind::TypeReference, EdgeKind::Imports, EdgeKind::Inherits];

    let mut set = std::collections::HashSet::new();
    for kind in kinds {
        set.insert(kind);
    }

    assert_eq!(set.len(), 4);
    assert!(set.contains(&EdgeKind::Calls));
}
