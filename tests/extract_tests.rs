use canopy::diff::DiffEngine;
use canopy::graph::Graph;
use canopy::paths::symbol_node;
use canopy::budget::Budget;
use canopy::extract::{extract, extract_source, ExtractError, SourceLanguage, SyntaxNode};
use canopy::model::{Language, NodeId, NodeKind};
use canopy::symbols::SymbolTable;
use canopy::updater::IncrementalUpdater;

fn leaf(kind: &str, text: &str, row: u32) -> SyntaxNode {
    SyntaxNode { kind: kind.to_string(), text: text.to_string(), start_row: row, end_row: row, is_error: false, children: Vec::new() }
}

fn node(kind: &str, start_row: u32, end_row: u32, children: Vec<SyntaxNode>) -> SyntaxNode {
    SyntaxNode { kind: kind.to_string(), text: String::new(), start_row, end_row, is_error: false, children }
}

fn rust_fn(name: &str, row: u32) -> SyntaxNode {
    node("function_item", row, row, vec![leaf("fn", "fn", row), leaf("identifier", name, row), leaf("parameters", "()", row), leaf("block", "{}", row)])
}

#[test]
fn rust_functions_from_a_tree() {
    let root = node("source_file", 0, 1, vec![rust_fn("main", 0), rust_fn("helper", 1)]);
    let r = extract(SourceLanguage::Rust, "a.rs", &root).unwrap();
    assert_eq!(r.nodes.len(), 2);
    assert!(r.edges.is_empty());
    let m = &r.nodes[0];
    assert_eq!((m.kind, m.name.as_str(), m.qualified_name.as_str()), (NodeKind::Function, "main", "a.rs::main"));
    assert_eq!((m.line_start, m.line_end, m.loc), (Some(1), Some(1), Some(0)));
    assert_eq!(m.language, Some(Language::Rust));
    assert_eq!(m.id, NodeId(0));
    assert_eq!((r.nodes[1].name.as_str(), r.nodes[1].line_start), ("helper", Some(2)));
    // the extraction feeds the updater: scenario of a new file
    let mut u = IncrementalUpdater::new(800);
    let d = u.apply_extraction("a.rs", r).unwrap();
    assert_eq!(d.sequence, 1);
    assert_eq!(d.added_nodes[0].qualified_name, "a.rs::main");
}

#[test]
fn rust_impl_methods_and_types() {
    let imp = node("impl_item", 2, 4, vec![
        leaf("impl", "impl", 2),
        leaf("type_identifier", "User", 2),
        node("declaration_list", 2, 4, vec![rust_fn("new", 3)]),
    ]);
    let st = node("struct_item", 0, 1, vec![leaf("struct", "struct", 0), leaf("type_identifier", "User", 0)]);
    let root = node("source_file", 0, 4, vec![st, imp]);
    let r = extract(SourceLanguage::Rust, "u.rs", &root).unwrap();
    assert_eq!(r.nodes.len(), 2);
    assert_eq!((r.nodes[0].kind, r.nodes[0].is_container, r.nodes[0].loc), (NodeKind::Struct, true, Some(1)));
    assert_eq!((r.nodes[1].kind, r.nodes[1].qualified_name.as_str()), (NodeKind::Method, "u.rs::User::new"));
}

#[test]
fn python_class_methods() {
    let method = node("function_definition", 1, 2, vec![leaf("def", "def", 1), leaf("identifier", "greet", 1)]);
    let class = node("class_definition", 0, 2, vec![leaf("class", "class", 0), leaf("identifier", "Person", 0), node("block", 1, 2, vec![method])]);
    let func = node("function_definition", 3, 4, vec![leaf("identifier", "main", 3)]);
    let root = node("module", 0, 4, vec![class, func]);
    let r = extract(SourceLanguage::Python, "p.py", &root).unwrap();
    let names: Vec<(NodeKind, String)> = r.nodes.iter().map(|n| (n.kind, n.qualified_name.clone())).collect();
    assert_eq!(names, vec![
        (NodeKind::Class, "p.py::Person".to_string()),
        (NodeKind::Method, "p.py::Person::greet".to_string()),
        (NodeKind::Function, "p.py::main".to_string()),
    ]);
    assert_eq!(r.nodes[0].language, Some(Language::Python));
}

#[test]
fn c_names_through_declarators() {
    let decl = node("function_declarator", 0, 0, vec![leaf("identifier", "add", 0), leaf("parameter_list", "(int a)", 0)]);
    let f = node("function_definition", 0, 2, vec![leaf("primitive_type", "int", 0), decl, node("compound_statement", 0, 2, vec![])]);
    let use_only = node("struct_specifier", 3, 3, vec![leaf("type_identifier", "point", 3)]);
    let def = node("struct_specifier", 4, 6, vec![leaf("type_identifier", "point", 4), node("field_declaration_list", 4, 6, vec![])]);
    let root = node("translation_unit", 0, 6, vec![f, use_only, def]);
    let r = extract(SourceLanguage::C, "m.c", &root).unwrap();
    assert_eq!(r.nodes.len(), 2);
    assert_eq!((r.nodes[0].kind, r.nodes[0].name.as_str(), r.nodes[0].loc), (NodeKind::Function, "add", Some(2)));
    assert_eq!((r.nodes[1].kind, r.nodes[1].line_start), (NodeKind::Struct, Some(5)));
}

#[test]
fn go_type_specs() {
    let s = node("type_spec", 0, 2, vec![leaf("type_identifier", "Server", 0), node("struct_type", 0, 2, vec![])]);
    let i = node("type_spec", 3, 5, vec![leaf("type_identifier", "Store", 3), node("interface_type", 3, 5, vec![])]);
    let a = node("type_spec", 6, 6, vec![leaf("type_identifier", "ID", 6), leaf("type_identifier", "string", 6)]);
    let m = node("method_declaration", 7, 9, vec![leaf("field_identifier", "Run", 7)]);
    let root = node("source_file", 0, 9, vec![s, i, a, m]);
    let r = extract(SourceLanguage::Go, "s.go", &root).unwrap();
    let kinds: Vec<NodeKind> = r.nodes.iter().map(|n| n.kind).collect();
    assert_eq!(kinds, vec![NodeKind::Struct, NodeKind::Interface, NodeKind::TypeAlias, NodeKind::Method]);
}

#[test]
fn typescript_and_java_definitions() {
    let method = node("method_definition", 1, 1, vec![leaf("property_identifier", "load", 1)]);
    let class = node("class_declaration", 0, 2, vec![leaf("type_identifier", "Service", 0), node("class_body", 0, 2, vec![method])]);
    let r = extract(SourceLanguage::TypeScript, "s.ts", &node("program", 0, 2, vec![class])).unwrap();
    assert_eq!(r.nodes.len(), 2);
    assert_eq!(r.nodes[1].qualified_name, "s.ts::Service::load");
    let jm = node("method_declaration", 1, 1, vec![leaf("identifier", "run", 1)]);
    let jc = node("class_declaration", 0, 2, vec![leaf("identifier", "Main", 0), node("class_body", 0, 2, vec![jm])]);
    let r = extract(SourceLanguage::Java, "Main.java", &node("program", 0, 2, vec![jc])).unwrap();
    assert_eq!((r.nodes[1].kind, r.nodes[1].qualified_name.as_str()), (NodeKind::Method, "Main.java::Main::run"));
}

#[test]
fn parse_errors_and_bad_bytes() {
    let mut broken = rust_fn("x", 0);
    broken.children[3].is_error = true;
    let root = node("source_file", 0, 0, vec![broken]);
    assert_eq!(extract(SourceLanguage::Rust, "b.rs", &root).err(), Some(ExtractError::Parse));
    assert_eq!(extract_source(SourceLanguage::Rust, "b.rs", &b"fn x() {".to_vec(), &root).err(), Some(ExtractError::Parse));
    let ok = node("source_file", 0, 0, vec![rust_fn("x", 0)]);
    assert_eq!(extract_source(SourceLanguage::Rust, "b.rs", &vec![0xff, 0xfe], &ok).err(), Some(ExtractError::InvalidUtf8));
    let fixed = extract_source(SourceLanguage::Rust, "b.rs", &b"fn x() {}".to_vec(), &ok).unwrap();
    assert_eq!(fixed.nodes[0].name, "x");
    let empty = extract_source(SourceLanguage::Rust, "e.rs", &Vec::new(), &node("source_file", 0, 0, vec![])).unwrap();
    assert!(empty.nodes.is_empty() && empty.edges.is_empty());
}

#[test]
fn removing_a_file_unbinds_every_name_it_defined() {
    let mut t = SymbolTable::new();
    t.insert("q".to_string(), NodeId(1), "f".to_string());
    t.insert("q".to_string(), NodeId(2), "g".to_string());
    t.insert("r".to_string(), NodeId(3), "g".to_string());
    // a name f defined is now bound to g's later definition
    assert_eq!(t.symbols_in_file("f"), vec![NodeId(2)]);
    assert_eq!(t.symbols_in_file("g"), vec![NodeId(2), NodeId(3)]);
    t.remove_file("f");
    assert_eq!(t.lookup("q"), None);
    assert_eq!(t.lookup("r"), Some(NodeId(3)));
    assert!(t.symbols_in_file("f").is_empty());
}

#[test]
fn budget_gates_requests() {
    let mut b = Budget::new(1000);
    assert!(b.reserve(0));
    assert_eq!(b.tokens_used, 500);
    assert!(!b.reserve(400));
    assert_eq!(b.tokens_used, 500);
    assert!(b.reserve(3));
    assert_eq!(b.tokens_used, 1000);
    assert!(!b.reserve(0));
    assert_eq!(b.tokens_used, 1000);
    let mut c = Budget::new(1000);
    c.use_tokens(990);
    assert!(!c.reserve(10));
    assert_eq!(c.tokens_used, 990);
}

#[test]
fn diff_between_two_graphs() {
    let mk = |name: &str| symbol_node("a.rs", NodeKind::Function, name, None, 1, 1, Language::Rust, false);
    let mut old = Graph::new();
    let a = old.add_node(mk("a"));
    let mut new = Graph::new();
    new.add_node(mk("a"));
    let b = new.add_node(mk("b"));
    new.remove_node(a);
    let mut engine = DiffEngine::new();
    let d = engine.compute_diff(&old, &new);
    assert_eq!(d.sequence, 1);
    assert_eq!(engine.sequence(), 1);
    assert_eq!(d.removed_nodes, vec![a]);
    assert_eq!(d.added_nodes.len(), 1);
    assert_eq!((d.added_nodes[0].id, d.added_nodes[0].name.as_str()), (b, "b"));
    assert!(d.added_edges.is_empty() && d.removed_edges.is_empty());
}
