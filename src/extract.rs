//! Turning a parsed file into graph nodes. A parser outside the library
//! produces a plain syntax tree; the walk here decides which syntax becomes which
//! node, under which qualified name and on which lines.
use vstd::prelude::*;
use vstd::utf8::{decode_utf8, valid_utf8};
use crate::hashing::{decode_source, SourceError};
use crate::model::{EdgeId, EdgeKind, EdgeSource, GraphEdge, GraphNode, Language, NodeId, NodeKind, CONFIDENCE_ONE};
use crate::paths::{qualified_name_of, symbol_node};
use crate::text::{contains, has_infix, str_eq};
use crate::updater::ExtractionResult;

verus! {

/// A node of a concrete syntax tree: its grammar kind, its source text, its
/// 0-based first and last rows, whether the parser marked it as an error, and
/// its children in source order.
pub struct SyntaxNode {
    pub kind: String,
    pub text: String,
    pub start_row: u32,
    pub end_row: u32,
    pub is_error: bool,
    pub children: Vec<SyntaxNode>,
}

/// The grammars a syntax tree can come from.
#[derive(Clone, Copy, Debug, PartialEq, Eq, Structural)]
pub enum SourceLanguage {
    Rust,
    Python,
    Java,
    C,
    Cpp,
    Go,
    TypeScript,
    JavaScript,
}

/// Why a file yields no extraction.
#[derive(Clone, Copy, Debug, PartialEq, Eq, Structural)]
pub enum ExtractError {
    /// The bytes are not UTF-8.
    InvalidUtf8,
    /// The parser reported an error in the tree.
    Parse,
}

/// The language tag nodes of a grammar carry.
pub open spec fn language_tag(l: SourceLanguage) -> Language {
    match l {
        SourceLanguage::Rust => Language::Rust,
        SourceLanguage::Python => Language::Python,
        SourceLanguage::Java => Language::Java,
        SourceLanguage::C => Language::C,
        SourceLanguage::Cpp => Language::Cpp,
        SourceLanguage::Go => Language::Go,
        SourceLanguage::TypeScript => Language::TypeScript,
        SourceLanguage::JavaScript => Language::JavaScript,
    }
}

fn language_of_source(l: SourceLanguage) -> (r: Language)
    ensures
        r == language_tag(l),
{
    match l {
        SourceLanguage::Rust => Language::Rust,
        SourceLanguage::Python => Language::Python,
        SourceLanguage::Java => Language::Java,
        SourceLanguage::C => Language::C,
        SourceLanguage::Cpp => Language::Cpp,
        SourceLanguage::Go => Language::Go,
        SourceLanguage::TypeScript => Language::TypeScript,
        SourceLanguage::JavaScript => Language::JavaScript,
    }
}

/// Whether the parser marked this node or one below it as an error.
pub open spec fn has_error(n: SyntaxNode) -> bool
    decreases n, n.children@.len() + 1,
{
    n.is_error || errors_upto(n, n.children@.len() as int)
}

/// Whether one of the first `i` children holds an error.
pub open spec fn errors_upto(n: SyntaxNode, i: int) -> bool
    decreases n, i,
{
    if i <= 0 || i > n.children@.len() {
        false
    } else {
        errors_upto(n, i - 1) || has_error(n.children@[i - 1])
    }
}

proof fn lemma_errors_mono(n: SyntaxNode, i: int, j: int)
    requires
        errors_upto(n, i),
        0 <= i <= j <= n.children@.len(),
    ensures
        errors_upto(n, j),
    decreases j - i,
{
    if i < j {
        lemma_errors_mono(n, i, j - 1);
    }
}

/// Rows are ordered in every node, and the last row can be numbered from 1.
pub open spec fn rows_ok(n: SyntaxNode) -> bool
    decreases n, n.children@.len() + 1,
{
    n.start_row <= n.end_row && n.end_row < u32::MAX && rows_upto(n, n.children@.len() as int)
}

/// Rows are ordered in the first `i` children.
pub open spec fn rows_upto(n: SyntaxNode, i: int) -> bool
    decreases n, i,
{
    if i <= 0 || i > n.children@.len() {
        true
    } else {
        rows_upto(n, i - 1) && rows_ok(n.children@[i - 1])
    }
}

proof fn lemma_rows_child(n: SyntaxNode, j: int, i: int)
    requires
        rows_upto(n, j),
        0 <= i < j <= n.children@.len(),
    ensures
        rows_ok(n.children@[i]),
    decreases j,
{
    if i < j - 1 {
        lemma_rows_child(n, j - 1, i);
    }
}

/// Grammar kinds whose text is a definition's name.
pub open spec fn is_name_kind(l: SourceLanguage, k: Seq<char>) -> bool {
    match l {
        SourceLanguage::Rust => k == "identifier"@ || k == "type_identifier"@,
        SourceLanguage::Python => k == "identifier"@,
        SourceLanguage::Java => k == "identifier"@,
        SourceLanguage::C => k == "identifier"@ || k == "type_identifier"@ || k == "field_identifier"@,
        SourceLanguage::Cpp => k == "identifier"@ || k == "type_identifier"@ || k == "field_identifier"@,
        SourceLanguage::Go => k == "identifier"@ || k == "field_identifier"@ || k == "type_identifier"@,
        SourceLanguage::TypeScript => k == "identifier"@ || k == "type_identifier"@ || k == "property_identifier"@,
        SourceLanguage::JavaScript => k == "identifier"@ || k == "property_identifier"@,
    }
}

fn name_kind(l: SourceLanguage, k: &str) -> (r: bool)
    ensures
        r == is_name_kind(l, k@),
{
    match l {
        SourceLanguage::Rust => str_eq(k, "identifier") || str_eq(k, "type_identifier"),
        SourceLanguage::Python => str_eq(k, "identifier"),
        SourceLanguage::Java => str_eq(k, "identifier"),
        SourceLanguage::C => str_eq(k, "identifier") || str_eq(k, "type_identifier") || str_eq(k, "field_identifier"),
        SourceLanguage::Cpp => str_eq(k, "identifier") || str_eq(k, "type_identifier") || str_eq(k, "field_identifier"),
        SourceLanguage::Go => str_eq(k, "identifier") || str_eq(k, "field_identifier") || str_eq(k, "type_identifier"),
        SourceLanguage::TypeScript => str_eq(k, "identifier") || str_eq(k, "type_identifier") || str_eq(k, "property_identifier"),
        SourceLanguage::JavaScript => str_eq(k, "identifier") || str_eq(k, "property_identifier"),
    }
}

/// Grammar kinds that wrap the name of a C or C++ declaration.
pub open spec fn is_declarator_kind(k: Seq<char>) -> bool {
    k == "function_declarator"@ || k == "pointer_declarator"@
}

/// Grammar kinds whose name qualifies the definitions inside them.
pub open spec fn is_container_kind(l: SourceLanguage, k: Seq<char>) -> bool {
    match l {
        SourceLanguage::Rust => k == "impl_item"@ || k == "trait_item"@,
        SourceLanguage::Python => k == "class_definition"@,
        SourceLanguage::Java => k == "class_declaration"@ || k == "interface_declaration"@ || k == "enum_declaration"@,
        SourceLanguage::C => false,
        SourceLanguage::Cpp => k == "class_specifier"@ || k == "struct_specifier"@,
        SourceLanguage::Go => false,
        SourceLanguage::TypeScript => k == "class_declaration"@ || k == "interface_declaration"@,
        SourceLanguage::JavaScript => k == "class_declaration"@,
    }
}

fn container_kind(l: SourceLanguage, k: &str) -> (r: bool)
    ensures
        r == is_container_kind(l, k@),
{
    match l {
        SourceLanguage::Rust => str_eq(k, "impl_item") || str_eq(k, "trait_item"),
        SourceLanguage::Python => str_eq(k, "class_definition"),
        SourceLanguage::Java => str_eq(k, "class_declaration") || str_eq(k, "interface_declaration") || str_eq(k, "enum_declaration"),
        SourceLanguage::C => false,
        SourceLanguage::Cpp => str_eq(k, "class_specifier") || str_eq(k, "struct_specifier"),
        SourceLanguage::Go => false,
        SourceLanguage::TypeScript => str_eq(k, "class_declaration") || str_eq(k, "interface_declaration"),
        SourceLanguage::JavaScript => str_eq(k, "class_declaration"),
    }
}

/// Some child of `n` has grammar kind `k`.
pub open spec fn has_child_kind(n: SyntaxNode, k: Seq<char>) -> bool {
    exists|i: int| 0 <= i < n.children@.len() && (#[trigger] n.children@[i]).kind@ == k
}

fn child_kind_present(n: &SyntaxNode, k: &str) -> (r: bool)
    ensures
        r == has_child_kind(*n, k@),
{
    let mut i: usize = 0;
    while i < n.children.len()
        invariant
            i <= n.children@.len(),
            forall|j: int| 0 <= j < i ==> (#[trigger] n.children@[j]).kind@ != k@,
        decreases n.children@.len() - i,
    {
        if str_eq(n.children[i].kind.as_str(), k) {
            return true;
        }
        i = i + 1;
    }
    false
}

/// The name of a definition node: the text of its first child of a name kind,
/// looking through a declarator child that comes before any such child.
pub open spec fn name_of(l: SourceLanguage, n: SyntaxNode) -> Option<Seq<char>>
    decreases n, n.children@.len() + 1,
{
    name_scan(l, n, 0)
}

/// The name found among the children of `n` from position `i` on.
pub open spec fn name_scan(l: SourceLanguage, n: SyntaxNode, i: int) -> Option<Seq<char>>
    decreases n, n.children@.len() - i,
{
    if i < 0 || i >= n.children@.len() {
        None
    } else if is_name_kind(l, n.children@[i].kind@) {
        Some(n.children@[i].text@)
    } else if is_declarator_kind(n.children@[i].kind@) {
        name_of(l, n.children@[i])
    } else {
        name_scan(l, n, i + 1)
    }
}

fn find_name<'a>(l: SourceLanguage, n: &'a SyntaxNode) -> (r: Option<&'a str>)
    ensures
        r is Some == name_of(l, *n) is Some,
        r is Some ==> r.unwrap()@ == name_of(l, *n).unwrap(),
    decreases n,
{
    let mut i: usize = 0;
    while i < n.children.len()
        invariant
            i <= n.children@.len(),
            name_of(l, *n) == name_scan(l, *n, i as int),
        decreases n.children@.len() - i,
    {
        let c = &n.children[i];
        if name_kind(l, c.kind.as_str()) {
            return Some(c.text.as_str());
        }
        if str_eq(c.kind.as_str(), "function_declarator") || str_eq(c.kind.as_str(), "pointer_declarator") {
            return find_name(l, c);
        }
        i = i + 1;
    }
    None
}

/// What a syntax node defines, if anything: the node kind and whether it is a
/// container. Functions inside a container are methods.
pub open spec fn def_of(l: SourceLanguage, n: SyntaxNode, in_container: bool) -> Option<(NodeKind, bool)> {
    match l {
        SourceLanguage::Rust => {
            if n.kind@ == "function_item"@ {
                Some((if in_container { NodeKind::Method } else { NodeKind::Function }, false))
            } else if n.kind@ == "struct_item"@ {
                Some((NodeKind::Struct, true))
            } else if n.kind@ == "enum_item"@ {
                Some((NodeKind::Enum, true))
            } else if n.kind@ == "trait_item"@ {
                Some((NodeKind::Interface, true))
            } else if n.kind@ == "type_item"@ {
                Some((NodeKind::TypeAlias, false))
            } else {
                None
            }
        },
        SourceLanguage::Python => {
            if n.kind@ == "function_definition"@ {
                Some((if in_container { NodeKind::Method } else { NodeKind::Function }, false))
            } else if n.kind@ == "class_definition"@ {
                Some((NodeKind::Class, true))
            } else {
                None
            }
        },
        SourceLanguage::Java => {
            if n.kind@ == "method_declaration"@ {
                Some((NodeKind::Method, false))
            } else if n.kind@ == "constructor_declaration"@ {
                Some((NodeKind::Method, false))
            } else if n.kind@ == "class_declaration"@ {
                Some((NodeKind::Class, true))
            } else if n.kind@ == "interface_declaration"@ {
                Some((NodeKind::Interface, true))
            } else if n.kind@ == "enum_declaration"@ {
                Some((NodeKind::Enum, true))
            } else {
                None
            }
        },
        SourceLanguage::C => {
            if n.kind@ == "function_definition"@ {
                Some((if in_container { NodeKind::Method } else { NodeKind::Function }, false))
            } else if n.kind@ == "struct_specifier"@ && has_child_kind(n, "field_declaration_list"@) {
                Some((NodeKind::Struct, true))
            } else if n.kind@ == "enum_specifier"@ && has_child_kind(n, "enumerator_list"@) {
                Some((NodeKind::Enum, true))
            } else if n.kind@ == "type_definition"@ {
                Some((NodeKind::TypeAlias, false))
            } else {
                None
            }
        },
        SourceLanguage::Cpp => {
            if n.kind@ == "function_definition"@ {
                Some((if in_container { NodeKind::Method } else { NodeKind::Function }, false))
            } else if n.kind@ == "class_specifier"@ && has_child_kind(n, "field_declaration_list"@) {
                Some((NodeKind::Class, true))
            } else if n.kind@ == "struct_specifier"@ && has_child_kind(n, "field_declaration_list"@) {
                Some((NodeKind::Struct, true))
            } else if n.kind@ == "enum_specifier"@ && has_child_kind(n, "enumerator_list"@) {
                Some((NodeKind::Enum, true))
            } else if n.kind@ == "type_definition"@ {
                Some((NodeKind::TypeAlias, false))
            } else {
                None
            }
        },
        SourceLanguage::Go => {
            if n.kind@ == "function_declaration"@ {
                Some((if in_container { NodeKind::Method } else { NodeKind::Function }, false))
            } else if n.kind@ == "method_declaration"@ {
                Some((NodeKind::Method, false))
            } else if n.kind@ == "type_spec"@ && has_child_kind(n, "struct_type"@) {
                Some((NodeKind::Struct, true))
            } else if n.kind@ == "type_spec"@ && has_child_kind(n, "interface_type"@) {
                Some((NodeKind::Interface, true))
            } else if n.kind@ == "type_spec"@ {
                Some((NodeKind::TypeAlias, false))
            } else {
                None
            }
        },
        SourceLanguage::TypeScript => {
            if n.kind@ == "function_declaration"@ {
                Some((if in_container { NodeKind::Method } else { NodeKind::Function }, false))
            } else if n.kind@ == "method_definition"@ {
                Some((NodeKind::Method, false))
            } else if n.kind@ == "class_declaration"@ {
                Some((NodeKind::Class, true))
            } else if n.kind@ == "interface_declaration"@ {
                Some((NodeKind::Interface, true))
            } else if n.kind@ == "type_alias_declaration"@ {
                Some((NodeKind::TypeAlias, false))
            } else if n.kind@ == "enum_declaration"@ {
                Some((NodeKind::Enum, true))
            } else {
                None
            }
        },
        SourceLanguage::JavaScript => {
            if n.kind@ == "function_declaration"@ {
                Some((if in_container { NodeKind::Method } else { NodeKind::Function }, false))
            } else if n.kind@ == "method_definition"@ {
                Some((NodeKind::Method, false))
            } else if n.kind@ == "class_declaration"@ {
                Some((NodeKind::Class, true))
            } else {
                None
            }
        },
    }
}

fn definition_kind(l: SourceLanguage, n: &SyntaxNode, in_container: bool) -> (r: Option<(NodeKind, bool)>)
    ensures
        r == def_of(l, *n, in_container),
{
    let k = n.kind.as_str();
    match l {
        SourceLanguage::Rust => {
            if str_eq(k, "function_item") {
                Some((if in_container { NodeKind::Method } else { NodeKind::Function }, false))
            } else if str_eq(k, "struct_item") {
                Some((NodeKind::Struct, true))
            } else if str_eq(k, "enum_item") {
                Some((NodeKind::Enum, true))
            } else if str_eq(k, "trait_item") {
                Some((NodeKind::Interface, true))
            } else if str_eq(k, "type_item") {
                Some((NodeKind::TypeAlias, false))
            } else {
                None
            }
        },
        SourceLanguage::Python => {
            if str_eq(k, "function_definition") {
                Some((if in_container { NodeKind::Method } else { NodeKind::Function }, false))
            } else if str_eq(k, "class_definition") {
                Some((NodeKind::Class, true))
            } else {
                None
            }
        },
        SourceLanguage::Java => {
            if str_eq(k, "method_declaration") {
                Some((NodeKind::Method, false))
            } else if str_eq(k, "constructor_declaration") {
                Some((NodeKind::Method, false))
            } else if str_eq(k, "class_declaration") {
                Some((NodeKind::Class, true))
            } else if str_eq(k, "interface_declaration") {
                Some((NodeKind::Interface, true))
            } else if str_eq(k, "enum_declaration") {
                Some((NodeKind::Enum, true))
            } else {
                None
            }
        },
        SourceLanguage::C => {
            if str_eq(k, "function_definition") {
                Some((if in_container { NodeKind::Method } else { NodeKind::Function }, false))
            } else if str_eq(k, "struct_specifier") && child_kind_present(n, "field_declaration_list") {
                Some((NodeKind::Struct, true))
            } else if str_eq(k, "enum_specifier") && child_kind_present(n, "enumerator_list") {
                Some((NodeKind::Enum, true))
            } else if str_eq(k, "type_definition") {
                Some((NodeKind::TypeAlias, false))
            } else {
                None
            }
        },
        SourceLanguage::Cpp => {
            if str_eq(k, "function_definition") {
                Some((if in_container { NodeKind::Method } else { NodeKind::Function }, false))
            } else if str_eq(k, "class_specifier") && child_kind_present(n, "field_declaration_list") {
                Some((NodeKind::Class, true))
            } else if str_eq(k, "struct_specifier") && child_kind_present(n, "field_declaration_list") {
                Some((NodeKind::Struct, true))
            } else if str_eq(k, "enum_specifier") && child_kind_present(n, "enumerator_list") {
                Some((NodeKind::Enum, true))
            } else if str_eq(k, "type_definition") {
                Some((NodeKind::TypeAlias, false))
            } else {
                None
            }
        },
        SourceLanguage::Go => {
            if str_eq(k, "function_declaration") {
                Some((if in_container { NodeKind::Method } else { NodeKind::Function }, false))
            } else if str_eq(k, "method_declaration") {
                Some((NodeKind::Method, false))
            } else if str_eq(k, "type_spec") && child_kind_present(n, "struct_type") {
                Some((NodeKind::Struct, true))
            } else if str_eq(k, "type_spec") && child_kind_present(n, "interface_type") {
                Some((NodeKind::Interface, true))
            } else if str_eq(k, "type_spec") {
                Some((NodeKind::TypeAlias, false))
            } else {
                None
            }
        },
        SourceLanguage::TypeScript => {
            if str_eq(k, "function_declaration") {
                Some((if in_container { NodeKind::Method } else { NodeKind::Function }, false))
            } else if str_eq(k, "method_definition") {
                Some((NodeKind::Method, false))
            } else if str_eq(k, "class_declaration") {
                Some((NodeKind::Class, true))
            } else if str_eq(k, "interface_declaration") {
                Some((NodeKind::Interface, true))
            } else if str_eq(k, "type_alias_declaration") {
                Some((NodeKind::TypeAlias, false))
            } else if str_eq(k, "enum_declaration") {
                Some((NodeKind::Enum, true))
            } else {
                None
            }
        },
        SourceLanguage::JavaScript => {
            if str_eq(k, "function_declaration") {
                Some((if in_container { NodeKind::Method } else { NodeKind::Function }, false))
            } else if str_eq(k, "method_definition") {
                Some((NodeKind::Method, false))
            } else if str_eq(k, "class_declaration") {
                Some((NodeKind::Class, true))
            } else {
                None
            }
        },
    }
}

/// A definition: kind, name, enclosing container, 0-based rows, container flag.
pub type Definition = (NodeKind, Seq<char>, Option<Seq<char>>, u32, u32, bool);

/// The container under which the children of `n` are defined.
pub open spec fn inner_container(l: SourceLanguage, n: SyntaxNode, c: Option<Seq<char>>) -> Option<Seq<char>> {
    if is_container_kind(l, n.kind@) && name_of(l, n) is Some {
        name_of(l, n)
    } else {
        c
    }
}

/// The definitions in the tree under `n`, in pre-order, `c` being the
/// container `n` stands in.
pub open spec fn definitions(l: SourceLanguage, n: SyntaxNode, c: Option<Seq<char>>) -> Seq<Definition>
    decreases n, n.children@.len() + 1,
{
    let here: Seq<Definition> = match (def_of(l, n, c is Some), name_of(l, n)) {
        (Some(d), Some(nm)) => seq![(d.0, nm, c, n.start_row, n.end_row, d.1)],
        _ => Seq::empty(),
    };
    here + definitions_upto(l, n, n.children@.len() as int, inner_container(l, n, c))
}

/// The definitions under the first `i` children of `n`, in order.
pub open spec fn definitions_upto(l: SourceLanguage, n: SyntaxNode, i: int, c: Option<Seq<char>>) -> Seq<Definition>
    decreases n, i,
{
    if i <= 0 || i > n.children@.len() {
        Seq::empty()
    } else {
        definitions_upto(l, n, i - 1, c) + definitions(l, n.children@[i - 1], c)
    }
}

/// `x` is the graph node for definition `d` of file `path`: placeholder id,
/// qualified name from path, container and name, 1-based lines, `loc`.
pub open spec fn definition_node(x: GraphNode, d: Definition, path: Seq<char>, l: SourceLanguage) -> bool {
    &&& x.id == NodeId(0)
    &&& x.kind == d.0
    &&& x.name@ == d.1
    &&& x.qualified_name@ == qualified_name_of(path, d.2, d.1)
    &&& x.file_path@ == path
    &&& x.line_start == Some((d.3 + 1) as u32)
    &&& x.line_end == Some((d.4 + 1) as u32)
    &&& x.language == Some(language_tag(l))
    &&& x.is_container == d.5
    &&& x.child_count == 0
    &&& x.loc == Some((d.4 - d.3) as u32)
    &&& x.metadata@.len() == 0
}

/// The view of an optional borrowed string.
pub open spec fn opt_view(o: Option<&str>) -> Option<Seq<char>> {
    match o {
        Some(s) => Some(s@),
        None => None,
    }
}

fn has_errors(n: &SyntaxNode) -> (r: bool)
    ensures
        r == has_error(*n),
    decreases n,
{
    if n.is_error {
        return true;
    }
    let mut i: usize = 0;
    while i < n.children.len()
        invariant
            i <= n.children@.len(),
            !n.is_error,
            !errors_upto(*n, i as int),
        decreases n.children@.len() - i,
    {
        if has_errors(&n.children[i]) {
            proof {
                assert(errors_upto(*n, i + 1));
                lemma_errors_mono(*n, i + 1, n.children@.len() as int);
            }
            return true;
        }
        i = i + 1;
    }
    false
}

fn walk(l: SourceLanguage, path: &str, n: &SyntaxNode, container: Option<&str>, out: &mut Vec<GraphNode>)
    requires
        rows_ok(*n),
    ensures
        final(out)@.len() == old(out)@.len() + definitions(l, *n, opt_view(container)).len(),
        forall|k: int| 0 <= k < old(out)@.len() ==> final(out)@[k] == old(out)@[k],
        forall|k: int|
            0 <= k < definitions(l, *n, opt_view(container)).len() ==> definition_node(
                #[trigger] final(out)@[old(out)@.len() + k],
                definitions(l, *n, opt_view(container))[k],
                path@,
                l,
            ),
    decreases n,
{
    let ghost c = opt_view(container);
    let ghost base = out@.len();
    let name = find_name(l, n);
    let def = definition_kind(l, n, container.is_some());
    match (def, name) {
        (Some((kind, is_container)), Some(nm)) => {
            let x = symbol_node(
                path,
                kind,
                nm,
                container,
                n.start_row + 1,
                n.end_row + 1,
                language_of_source(l),
                is_container,
            );
            out.push(x);
        },
        _ => {},
    }
    let ghost here_len = (out@.len() - base) as int;
    let inner: Option<&str> = if container_kind(l, n.kind.as_str()) && name.is_some() {
        name
    } else {
        container
    };
    assert(opt_view(inner) == inner_container(l, *n, c));
    let ghost mid = out@;
    assert forall|k: int| 0 <= k < base implies mid[k] == old(out)@[k] by {}
    let mut i: usize = 0;
    while i < n.children.len()
        invariant
            rows_ok(*n),
            i <= n.children@.len(),
            mid.len() == base + here_len,
            out@.len() == mid.len() + definitions_upto(l, *n, i as int, opt_view(inner)).len(),
            forall|k: int| 0 <= k < mid.len() ==> out@[k] == mid[k],
            forall|k: int|
                0 <= k < definitions_upto(l, *n, i as int, opt_view(inner)).len() ==> definition_node(
                    #[trigger] out@[mid.len() + k],
                    definitions_upto(l, *n, i as int, opt_view(inner))[k],
                    path@,
                    l,
                ),
        decreases n.children@.len() - i,
    {
        proof {
            lemma_rows_child(*n, n.children@.len() as int, i as int);
        }
        let ghost before = out@;
        let ghost prev = definitions_upto(l, *n, i as int, opt_view(inner));
        walk(l, path, &n.children[i], inner, out);
        proof {
            let sub = definitions(l, n.children@[i as int], opt_view(inner));
            let now = definitions_upto(l, *n, i + 1, opt_view(inner));
            assert(now == prev + sub);
            assert forall|k: int| 0 <= k < now.len() implies definition_node(
                #[trigger] out@[mid.len() + k],
                now[k],
                path@,
                l,
            ) by {
                if k < prev.len() {
                    assert(out@[mid.len() + k] == before[mid.len() + k]);
                } else {
                    assert(out@[before.len() + (k - prev.len())] == out@[mid.len() + k]);
                }
            }
        }
        i = i + 1;
    }
    proof {
        assert forall|k: int| 0 <= k < base implies out@[k] == old(out)@[k] by {
            assert(out@[k] == mid[k]);
        }
        let all = definitions(l, *n, c);
        assert forall|k: int| 0 <= k < all.len() implies definition_node(
            #[trigger] out@[base + k],
            all[k],
            path@,
            l,
        ) by {
            if k >= here_len {
                assert(out@[base + k] == out@[mid.len() + (k - here_len)]);
            } else {
                assert(out@[base + k] == mid[base + k]);
            }
        }
    }
}

/// Grammar kinds of import statements.
pub open spec fn is_import_kind(l: SourceLanguage, k: Seq<char>) -> bool {
    match l {
        SourceLanguage::Rust => k == "use_declaration"@,
        SourceLanguage::Python => k == "import_statement"@ || k == "import_from_statement"@,
        SourceLanguage::Java => k == "import_declaration"@,
        SourceLanguage::C => k == "preproc_include"@,
        SourceLanguage::Cpp => k == "preproc_include"@,
        SourceLanguage::Go => k == "import_spec"@,
        SourceLanguage::TypeScript => k == "import_statement"@,
        SourceLanguage::JavaScript => k == "import_statement"@,
    }
}

fn import_kind(l: SourceLanguage, k: &str) -> (r: bool)
    ensures
        r == is_import_kind(l, k@),
{
    match l {
        SourceLanguage::Rust => str_eq(k, "use_declaration"),
        SourceLanguage::Python => str_eq(k, "import_statement") || str_eq(k, "import_from_statement"),
        SourceLanguage::Java => str_eq(k, "import_declaration"),
        SourceLanguage::C => str_eq(k, "preproc_include"),
        SourceLanguage::Cpp => str_eq(k, "preproc_include"),
        SourceLanguage::Go => str_eq(k, "import_spec"),
        SourceLanguage::TypeScript => str_eq(k, "import_statement"),
        SourceLanguage::JavaScript => str_eq(k, "import_statement"),
    }
}

/// An import found in a file: its text and its 0-based row.
pub type ImportSite = (Seq<char>, u32);

/// The imports in the tree under `n`, in pre-order.
pub open spec fn imports_of(l: SourceLanguage, n: SyntaxNode) -> Seq<ImportSite>
    decreases n, n.children@.len() + 1,
{
    let here: Seq<ImportSite> = if is_import_kind(l, n.kind@) {
        seq![(n.text@, n.start_row)]
    } else {
        Seq::empty()
    };
    here + imports_upto(l, n, n.children@.len() as int)
}

/// The imports under the first `i` children of `n`, in order.
pub open spec fn imports_upto(l: SourceLanguage, n: SyntaxNode, i: int) -> Seq<ImportSite>
    decreases n, i,
{
    if i <= 0 || i > n.children@.len() {
        Seq::empty()
    } else {
        imports_upto(l, n, i - 1) + imports_of(l, n.children@[i - 1])
    }
}

/// Position of the innermost (latest in pre-order) definition whose rows span `row`.
pub open spec fn enclosing_definition(ds: Seq<Definition>, row: u32) -> Option<int>
    decreases ds.len(),
{
    if ds.len() == 0 {
        None
    } else if ds.last().3 <= row && row <= ds.last().4 {
        Some(ds.len() - 1)
    } else {
        enclosing_definition(ds.drop_last(), row)
    }
}

/// Position of the latest definition whose name occurs in an import's text.
pub open spec fn imported_definition(ds: Seq<Definition>, text: Seq<char>) -> Option<int>
    decreases ds.len(),
{
    if ds.len() == 0 {
        None
    } else if has_infix(text, ds.last().1) {
        Some(ds.len() - 1)
    } else {
        imported_definition(ds.drop_last(), text)
    }
}

/// Confidence of an import edge, in thousandths: certain when its target is a
/// definition of this file, half otherwise.
pub open spec fn import_confidence(resolved: bool) -> u32 {
    if resolved {
        CONFIDENCE_ONE
    } else {
        500
    }
}

/// `x` is the edge for import `s` among definitions `ds`. Endpoints are positions
/// in the extracted nodes: the enclosing definition and the imported one; position
/// `ds.len()` stands for an endpoint outside this file, which leaves the edge
/// unresolved.
pub open spec fn import_edge(x: GraphEdge, s: ImportSite, ds: Seq<Definition>) -> bool {
    let outside = ds.len() as u64;
    &&& x.id == EdgeId(0)
    &&& x.source == NodeId(
        match enclosing_definition(ds, s.1) {
            Some(k) => k as u64,
            None => outside,
        },
    )
    &&& x.target == NodeId(
        match imported_definition(ds, s.0) {
            Some(k) => k as u64,
            None => outside,
        },
    )
    &&& x.kind == EdgeKind::Imports
    &&& x.edge_source == EdgeSource::Heuristic
    &&& x.confidence == import_confidence(imported_definition(ds, s.0) is Some)
    &&& x.label is Some && x.label.unwrap()@ == "uses "@ + s.0
    &&& x.file_path is None
    &&& x.line == Some((s.1 + 1) as u32)
}

struct Site {
    text: String,
    row: u32,
}

spec fn sites_view(v: Seq<Site>) -> Seq<ImportSite> {
    v.map_values(|s: Site| (s.text@, s.row))
}

fn collect_imports(l: SourceLanguage, n: &SyntaxNode, out: &mut Vec<Site>)
    requires
        rows_ok(*n),
    ensures
        sites_view(final(out)@) == sites_view(old(out)@) + imports_of(l, *n),
    decreases n,
{
    let ghost start = sites_view(out@);
    if import_kind(l, n.kind.as_str()) {
        out.push(Site { text: n.text.clone(), row: n.start_row });
    }
    assert(sites_view(out@) =~= start + (if is_import_kind(l, n.kind@) {
        seq![(n.text@, n.start_row)]
    } else {
        Seq::<ImportSite>::empty()
    }));
    let ghost mid = sites_view(out@);
    let mut i: usize = 0;
    while i < n.children.len()
        invariant
            rows_ok(*n),
            i <= n.children@.len(),
            sites_view(out@) == mid + imports_upto(l, *n, i as int),
        decreases n.children@.len() - i,
    {
        proof {
            lemma_rows_child(*n, n.children@.len() as int, i as int);
        }
        let ghost before = sites_view(out@);
        collect_imports(l, &n.children[i], out);
        assert(sites_view(out@) =~= mid + imports_upto(l, *n, i + 1));
        i = i + 1;
    }
    assert(sites_view(out@) =~= start + imports_of(l, *n));
}

/// Every import site has a row below the largest, so its line can be numbered.
proof fn lemma_import_rows(l: SourceLanguage, n: SyntaxNode)
    requires
        rows_ok(n),
    ensures
        forall|k: int| 0 <= k < imports_of(l, n).len() ==> (#[trigger] imports_of(l, n)[k]).1 < u32::MAX,
    decreases n, n.children@.len() + 1,
{
    lemma_import_rows_upto(l, n, n.children@.len() as int);
    let here: Seq<ImportSite> = if is_import_kind(l, n.kind@) {
        seq![(n.text@, n.start_row)]
    } else {
        Seq::empty()
    };
    assert forall|k: int| 0 <= k < imports_of(l, n).len() implies (#[trigger] imports_of(l, n)[k]).1 < u32::MAX by {
        if k >= here.len() {
            assert(imports_of(l, n)[k] == imports_upto(l, n, n.children@.len() as int)[k - here.len()]);
        }
    }
}

proof fn lemma_import_rows_upto(l: SourceLanguage, n: SyntaxNode, i: int)
    requires
        rows_ok(n),
        0 <= i <= n.children@.len(),
    ensures
        forall|k: int| 0 <= k < imports_upto(l, n, i).len() ==> (#[trigger] imports_upto(l, n, i)[k]).1 < u32::MAX,
    decreases n, i,
{
    if i > 0 {
        lemma_import_rows_upto(l, n, i - 1);
        lemma_rows_child(n, n.children@.len() as int, i - 1);
        lemma_import_rows(l, n.children@[i - 1]);
        let a = imports_upto(l, n, i - 1);
        assert forall|k: int| 0 <= k < imports_upto(l, n, i).len() implies (#[trigger] imports_upto(l, n, i)[k]).1 < u32::MAX by {
            if k >= a.len() {
                assert(imports_upto(l, n, i)[k] == imports_of(l, n.children@[i - 1])[k - a.len()]);
            } else {
                assert(imports_upto(l, n, i)[k] == a[k]);
            }
        }
    }
}

fn find_enclosing(nodes: &Vec<GraphNode>, row: u32, ghost_ds: Ghost<Seq<Definition>>, path: Ghost<Seq<char>>, l: Ghost<SourceLanguage>) -> (r: Option<usize>)
    requires
        nodes@.len() == ghost_ds@.len(),
        row < u32::MAX,
        forall|k: int| 0 <= k < ghost_ds@.len() ==> definition_node(#[trigger] nodes@[k], ghost_ds@[k], path@, l@),
        forall|k: int| 0 <= k < ghost_ds@.len() ==> (#[trigger] ghost_ds@[k]).3 <= ghost_ds@[k].4 < u32::MAX,
    ensures
        r is Some == enclosing_definition(ghost_ds@, row) is Some,
        r is Some ==> r.unwrap() as int == enclosing_definition(ghost_ds@, row).unwrap(),
{
    let ghost ds = ghost_ds@;
    let mut i: usize = nodes.len();
    assert(ds.subrange(0, i as int) =~= ds);
    while i > 0
        invariant
            ds == ghost_ds@,
            i <= ds.len(),
            nodes@.len() == ds.len(),
            forall|k: int| 0 <= k < ds.len() ==> definition_node(#[trigger] nodes@[k], ds[k], path@, l@),
            row < u32::MAX,
            forall|k: int| 0 <= k < ds.len() ==> (#[trigger] ds[k]).3 <= ds[k].4 < u32::MAX,
            enclosing_definition(ds, row) == enclosing_definition(ds.subrange(0, i as int), row),
        decreases i,
    {
        let ghost sub = ds.subrange(0, i as int);
        assert(sub.drop_last() =~= ds.subrange(0, i - 1));
        assert(sub.last() == ds[i - 1]);
        let x = &nodes[i - 1];
        assert(definition_node(nodes@[i - 1], ds[i - 1], path@, l@));
        let inside = match (x.line_start, x.line_end) {
            (Some(a), Some(b)) => a <= row + 1 && row + 1 <= b,
            _ => false,
        };
        assert(inside == (ds[i - 1].3 <= row && row <= ds[i - 1].4));
        if inside {
            assert(enclosing_definition(sub, row) == Some(i - 1));
            return Some(i - 1);
        }
        i = i - 1;
    }
    None
}

fn find_imported(nodes: &Vec<GraphNode>, text: &str, ghost_ds: Ghost<Seq<Definition>>, path: Ghost<Seq<char>>, l: Ghost<SourceLanguage>) -> (r: Option<usize>)
    requires
        nodes@.len() == ghost_ds@.len(),
        forall|k: int| 0 <= k < ghost_ds@.len() ==> definition_node(#[trigger] nodes@[k], ghost_ds@[k], path@, l@),
    ensures
        r is Some == imported_definition(ghost_ds@, text@) is Some,
        r is Some ==> r.unwrap() as int == imported_definition(ghost_ds@, text@).unwrap(),
{
    let ghost ds = ghost_ds@;
    let mut i: usize = nodes.len();
    assert(ds.subrange(0, i as int) =~= ds);
    while i > 0
        invariant
            ds == ghost_ds@,
            i <= ds.len(),
            nodes@.len() == ds.len(),
            forall|k: int| 0 <= k < ds.len() ==> definition_node(#[trigger] nodes@[k], ds[k], path@, l@),
            imported_definition(ds, text@) == imported_definition(ds.subrange(0, i as int), text@),
        decreases i,
    {
        let ghost sub = ds.subrange(0, i as int);
        assert(sub.drop_last() =~= ds.subrange(0, i - 1));
        assert(sub.last() == ds[i - 1]);
        assert(definition_node(nodes@[i - 1], ds[i - 1], path@, l@));
        assert(nodes@[i - 1].name@ == ds[i - 1].1);
        if contains(text, nodes[i - 1].name.as_str()) {
            assert(imported_definition(sub, text@) == Some(i - 1));
            return Some(i - 1);
        }
        i = i - 1;
    }
    None
}

/// Every definition found under a tree with ordered rows has ordered rows.
proof fn lemma_definition_rows(l: SourceLanguage, n: SyntaxNode, c: Option<Seq<char>>)
    requires
        rows_ok(n),
    ensures
        forall|k: int|
            0 <= k < definitions(l, n, c).len() ==> (#[trigger] definitions(l, n, c)[k]).3 <= definitions(l, n, c)[k].4
                < u32::MAX,
    decreases n, n.children@.len() + 1,
{
    let inner = inner_container(l, n, c);
    lemma_definition_rows_upto(l, n, n.children@.len() as int, inner);
    let here: Seq<Definition> = match (def_of(l, n, c is Some), name_of(l, n)) {
        (Some(d), Some(nm)) => seq![(d.0, nm, c, n.start_row, n.end_row, d.1)],
        _ => Seq::empty(),
    };
    let all = definitions(l, n, c);
    assert(all == here + definitions_upto(l, n, n.children@.len() as int, inner));
    assert forall|k: int| 0 <= k < all.len() implies (#[trigger] all[k]).3 <= all[k].4 < u32::MAX by {
        if k >= here.len() {
            assert(all[k] == definitions_upto(l, n, n.children@.len() as int, inner)[k - here.len()]);
        }
    }
}

proof fn lemma_definition_rows_upto(l: SourceLanguage, n: SyntaxNode, i: int, c: Option<Seq<char>>)
    requires
        rows_ok(n),
        0 <= i <= n.children@.len(),
    ensures
        forall|k: int|
            0 <= k < definitions_upto(l, n, i, c).len() ==> (#[trigger] definitions_upto(l, n, i, c)[k]).3
                <= definitions_upto(l, n, i, c)[k].4 < u32::MAX,
    decreases n, i,
{
    if i > 0 {
        lemma_definition_rows_upto(l, n, i - 1, c);
        lemma_rows_child(n, n.children@.len() as int, i - 1);
        lemma_definition_rows(l, n.children@[i - 1], c);
        let a = definitions_upto(l, n, i - 1, c);
        let all = definitions_upto(l, n, i, c);
        assert forall|k: int| 0 <= k < all.len() implies (#[trigger] all[k]).3 <= all[k].4 < u32::MAX by {
            if k >= a.len() {
                assert(all[k] == definitions(l, n.children@[i - 1], c)[k - a.len()]);
            } else {
                assert(all[k] == a[k]);
            }
        }
    }
}

/// The definitions of a parsed file and one import edge per import statement,
/// or an error when the parser reported one.
pub fn extract(l: SourceLanguage, path: &str, root: &SyntaxNode) -> (r: Result<ExtractionResult, ExtractError>)
    requires
        rows_ok(*root),
    ensures
        r is Err <==> has_error(*root),
        r is Err ==> r == Err::<ExtractionResult, ExtractError>(ExtractError::Parse),
        r is Ok ==> ({
            let e = r.unwrap();
            let ds = definitions(l, *root, None);
            let ims = imports_of(l, *root);
            &&& e.nodes@.len() == ds.len()
            &&& forall|k: int| 0 <= k < ds.len() ==> definition_node(#[trigger] e.nodes@[k], ds[k], path@, l)
            &&& e.edges@.len() == ims.len()
            &&& forall|q: int| 0 <= q < ims.len() ==> import_edge(#[trigger] e.edges@[q], ims[q], ds)
        }),
{
    if has_errors(root) {
        return Err(ExtractError::Parse);
    }
    let mut nodes: Vec<GraphNode> = Vec::new();
    walk(l, path, root, None, &mut nodes);
    let ghost ds = definitions(l, *root, None);
    assert forall|k: int| 0 <= k < ds.len() implies definition_node(#[trigger] nodes@[k], ds[k], path@, l) by {
        assert(nodes@[0 + k] == nodes@[k]);
    }
    let mut sites: Vec<Site> = Vec::new();
    collect_imports(l, root, &mut sites);
    let ghost ims = imports_of(l, *root);
    assert(sites_view(sites@) =~= ims);
    proof {
        lemma_import_rows(l, *root);
        lemma_definition_rows(l, *root, None);
    }
    let outside = nodes.len() as u64;
    let mut edges: Vec<GraphEdge> = Vec::new();
    let mut q: usize = 0;
    while q < sites.len()
        invariant
            q <= sites@.len(),
            sites_view(sites@) == ims,
            ims == imports_of(l, *root),
            ds == definitions(l, *root, None),
            nodes@.len() == ds.len(),
            outside == ds.len() as u64,
            forall|k: int| 0 <= k < ds.len() ==> definition_node(#[trigger] nodes@[k], ds[k], path@, l),
            forall|k: int| 0 <= k < ds.len() ==> (#[trigger] ds[k]).3 <= ds[k].4 < u32::MAX,
            forall|k: int| 0 <= k < ims.len() ==> (#[trigger] ims[k]).1 < u32::MAX,
            edges@.len() == q,
            forall|j: int| 0 <= j < q ==> import_edge(#[trigger] edges@[j], ims[j], ds),
        decreases sites@.len() - q,
    {
        let site = &sites[q];
        assert(ims[q as int] == (site.text@, site.row));
        let source = match find_enclosing(&nodes, site.row, Ghost(ds), Ghost(path@), Ghost(l)) {
            Some(k) => k as u64,
            None => outside,
        };
        let (target, confidence) = match find_imported(&nodes, site.text.as_str(), Ghost(ds), Ghost(path@), Ghost(l)) {
            Some(k) => (k as u64, CONFIDENCE_ONE),
            None => (outside, 500u32),
        };
        let mut label = "uses ".to_owned();
        label.append(site.text.as_str());
        edges.push(GraphEdge {
            id: EdgeId(0),
            source: NodeId(source),
            target: NodeId(target),
            kind: EdgeKind::Imports,
            edge_source: EdgeSource::Heuristic,
            confidence,
            label: Some(label),
            file_path: None,
            line: Some(site.row + 1),
        });
        q = q + 1;
    }
    Ok(ExtractionResult { nodes, edges })
}

/// A file's extraction from its bytes and its parse: an error on bytes that are
/// not UTF-8, nothing for an empty file, otherwise as `extract`.
pub fn extract_source(l: SourceLanguage, path: &str, bytes: &Vec<u8>, root: &SyntaxNode) -> (r: Result<ExtractionResult, ExtractError>)
    requires
        rows_ok(*root),
    ensures
        !valid_utf8(bytes@) ==> r == Err::<ExtractionResult, ExtractError>(ExtractError::InvalidUtf8),
        valid_utf8(bytes@) && bytes@.len() == 0 ==> r is Ok && r.unwrap().nodes@.len() == 0
            && r.unwrap().edges@.len() == 0,
        valid_utf8(bytes@) && bytes@.len() > 0 ==> (r is Err <==> has_error(*root)) && (r is Err ==> r
            == Err::<ExtractionResult, ExtractError>(ExtractError::Parse)) && (r is Ok ==> ({
            let e = r.unwrap();
            let ds = definitions(l, *root, None);
            let ims = imports_of(l, *root);
            &&& e.nodes@.len() == ds.len()
            &&& forall|k: int| 0 <= k < ds.len() ==> definition_node(#[trigger] e.nodes@[k], ds[k], path@, l)
            &&& e.edges@.len() == ims.len()
            &&& forall|q: int| 0 <= q < ims.len() ==> import_edge(#[trigger] e.edges@[q], ims[q], ds)
        })),
{
    match decode_source(bytes) {
        Err(SourceError::InvalidUtf8) => Err(ExtractError::InvalidUtf8),
        Ok(_) => {
            if bytes.len() == 0 {
                Ok(ExtractionResult { nodes: Vec::new(), edges: Vec::new() })
            } else {
                extract(l, path, root)
            }
        },
    }
}

} // verus!
