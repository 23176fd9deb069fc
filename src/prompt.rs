//! Prompts sent to a model for the enrichment pass.
use vstd::prelude::*;
use vstd::string::*;
use crate::model::{GraphNode, NodeKind};
use crate::semantic::{AnalysisContext, SemanticRelationship};

verus! {

/// The name of a node kind, as it appears in prompts.
pub open spec fn kind_name(k: NodeKind) -> Seq<char> {
    match k {
        NodeKind::Directory => "Directory"@,
        NodeKind::File => "File"@,
        NodeKind::Module => "Module"@,
        NodeKind::Class => "Class"@,
        NodeKind::Struct => "Struct"@,
        NodeKind::Enum => "Enum"@,
        NodeKind::Interface => "Interface"@,
        NodeKind::Function => "Function"@,
        NodeKind::Method => "Method"@,
        NodeKind::Constant => "Constant"@,
        NodeKind::TypeAlias => "TypeAlias"@,
        NodeKind::ConfigBlock => "ConfigBlock"@,
        NodeKind::ConfigKey => "ConfigKey"@,
        NodeKind::EnvVariable => "EnvVariable"@,
        NodeKind::Route => "Route"@,
        NodeKind::Migration => "Migration"@,
        NodeKind::CIJob => "CIJob"@,
        NodeKind::DockerService => "DockerService"@,
        NodeKind::WorkspaceRoot => "WorkspaceRoot"@,
        NodeKind::Package => "Package"@,
        NodeKind::Unknown => "Unknown"@,
    }
}

/// The name of a node kind, as it appears in prompts.
pub fn node_kind_name(k: NodeKind) -> (r: &'static str)
    ensures
        r@ == kind_name(k),
{
    match k {
        NodeKind::Directory => "Directory",
        NodeKind::File => "File",
        NodeKind::Module => "Module",
        NodeKind::Class => "Class",
        NodeKind::Struct => "Struct",
        NodeKind::Enum => "Enum",
        NodeKind::Interface => "Interface",
        NodeKind::Function => "Function",
        NodeKind::Method => "Method",
        NodeKind::Constant => "Constant",
        NodeKind::TypeAlias => "TypeAlias",
        NodeKind::ConfigBlock => "ConfigBlock",
        NodeKind::ConfigKey => "ConfigKey",
        NodeKind::EnvVariable => "EnvVariable",
        NodeKind::Route => "Route",
        NodeKind::Migration => "Migration",
        NodeKind::CIJob => "CIJob",
        NodeKind::DockerService => "DockerService",
        NodeKind::WorkspaceRoot => "WorkspaceRoot",
        NodeKind::Package => "Package",
        NodeKind::Unknown => "Unknown",
    }
}

/// The name of a relationship kind, as it appears in prompts.
pub open spec fn relationship_name(r: SemanticRelationship) -> Seq<char> {
    match r {
        SemanticRelationship::Calls => "Calls"@,
        SemanticRelationship::DependsOn => "DependsOn"@,
        SemanticRelationship::Implements => "Implements"@,
        SemanticRelationship::Extends => "Extends"@,
        SemanticRelationship::TestedBy => "TestedBy"@,
        SemanticRelationship::Uses => "Uses"@,
        SemanticRelationship::Configures => "Configures"@,
        SemanticRelationship::HandlesRoute => "HandlesRoute"@,
        SemanticRelationship::MigrationDepends => "MigrationDepends"@,
        SemanticRelationship::SemanticReference => "SemanticReference"@,
    }
}

fn relationship_text(r: SemanticRelationship) -> (s: &'static str)
    ensures
        s@ == relationship_name(r),
{
    match r {
        SemanticRelationship::Calls => "Calls",
        SemanticRelationship::DependsOn => "DependsOn",
        SemanticRelationship::Implements => "Implements",
        SemanticRelationship::Extends => "Extends",
        SemanticRelationship::TestedBy => "TestedBy",
        SemanticRelationship::Uses => "Uses",
        SemanticRelationship::Configures => "Configures",
        SemanticRelationship::HandlesRoute => "HandlesRoute",
        SemanticRelationship::MigrationDepends => "MigrationDepends",
        SemanticRelationship::SemanticReference => "SemanticReference",
    }
}

/// The decimal digit for `d` (meaningful for `d < 10`).
pub open spec fn digit(d: nat) -> Seq<char> {
    if d == 0 { "0"@ } else if d == 1 { "1"@ } else if d == 2 { "2"@ } else if d == 3 { "3"@ }
    else if d == 4 { "4"@ } else if d == 5 { "5"@ } else if d == 6 { "6"@ } else if d == 7 { "7"@ }
    else if d == 8 { "8"@ } else { "9"@ }
}

/// The decimal writing of `n`, without leading zeros.
pub open spec fn decimal_of(n: nat) -> Seq<char>
    decreases n,
{
    if n < 10 {
        digit(n)
    } else {
        decimal_of(n / 10) + digit(n % 10)
    }
}

fn digit_text(d: u64) -> (r: &'static str)
    requires
        d < 10,
    ensures
        r@ == digit(d as nat),
{
    if d == 0 { "0" } else if d == 1 { "1" } else if d == 2 { "2" } else if d == 3 { "3" }
    else if d == 4 { "4" } else if d == 5 { "5" } else if d == 6 { "6" } else if d == 7 { "7" }
    else if d == 8 { "8" } else { "9" }
}

/// The decimal writing of `n`.
pub fn decimal(n: u64) -> (r: String)
    ensures
        r@ == decimal_of(n as nat),
    decreases n,
{
    if n < 10 {
        digit_text(n).to_owned()
    } else {
        let mut s = decimal(n / 10);
        s.append(digit_text(n % 10));
        s
    }
}

/// A line number, or 0 when unknown.
pub open spec fn line_or_zero(l: Option<u32>) -> nat {
    match l {
        Some(v) => v as nat,
        None => 0,
    }
}

fn line_number(l: Option<u32>) -> (r: u64)
    ensures
        r == line_or_zero(l),
{
    match l {
        Some(v) => v as u64,
        None => 0,
    }
}

/// The parts joined with `sep` between consecutive ones.
pub open spec fn join_with(s: Seq<Seq<char>>, sep: Seq<char>) -> Seq<char>
    decreases s.len(),
{
    if s.len() == 0 {
        Seq::empty()
    } else if s.len() == 1 {
        s[0]
    } else {
        join_with(s.drop_last(), sep) + sep + s.last()
    }
}

fn join_strings(parts: &Vec<String>, sep: &str) -> (r: String)
    ensures
        r@ == join_with(parts@.map_values(|p: String| p@), sep@),
{
    let ghost ps = parts@.map_values(|p: String| p@);
    let mut s = String::new();
    let mut i: usize = 0;
    while i < parts.len()
        invariant
            i <= parts@.len(),
            ps == parts@.map_values(|p: String| p@),
            s@ == join_with(ps.subrange(0, i as int), sep@),
        decreases parts@.len() - i,
    {
        let ghost sub = ps.subrange(0, i + 1);
        assert(sub.drop_last() =~= ps.subrange(0, i as int));
        assert(sub.last() == parts@[i as int]@);
        if i > 0 {
            s.append(sep);
        }
        s.append(parts[i].as_str());
        proof {
            if i == 0 {
                assert(s@ =~= sub[0]);
            } else {
                assert(s@ =~= join_with(ps.subrange(0, i as int), sep@) + sep@ + sub.last());
            }
        }
        i = i + 1;
    }
    assert(ps.subrange(0, i as int) =~= ps);
    s
}

/// A list of strings written as `["a", "b"]`.
pub open spec fn quoted_list(s: Seq<Seq<char>>) -> Seq<char> {
    "["@ + join_with(s.map_values(|e: Seq<char>| "\""@ + e + "\""@), ", "@) + "]"@
}

fn render_quoted_list(items: &Vec<String>) -> (r: String)
    ensures
        r@ == quoted_list(items@.map_values(|e: String| e@)),
{
    let mut quoted: Vec<String> = Vec::new();
    let mut i: usize = 0;
    while i < items.len()
        invariant
            i <= items@.len(),
            quoted@.len() == i,
            forall|k: int| 0 <= k < i ==> (#[trigger] quoted@[k])@ == "\""@ + items@[k]@ + "\""@,
        decreases items@.len() - i,
    {
        let mut q = "\"".to_owned();
        q.append(items[i].as_str());
        q.append("\"");
        quoted.push(q);
        i = i + 1;
    }
    let j = join_strings(&quoted, ", ");
    assert(quoted@.map_values(|p: String| p@) =~= items@.map_values(|e: String| e@).map_values(
        |e: Seq<char>| "\""@ + e + "\""@,
    ));
    let mut s = "[".to_owned();
    s.append(j.as_str());
    s.append("]");
    s
}

/// How a candidate node is described in a prompt.
pub open spec fn candidate_line(n: GraphNode) -> Seq<char> {
    "- "@ + n.name@ + " (ID: "@ + decimal_of(n.id.0 as nat) + ", kind: "@ + kind_name(n.kind) + ", lines: "@ + decimal_of(line_or_zero(n.line_start)) + "-"@ + decimal_of(line_or_zero(n.line_end)) + ")"@
}

fn candidate_text(n: &GraphNode) -> (r: String)
    ensures
        r@ == candidate_line(*n),
{
    let mut s = String::new();
    s.append("- ");
    assert(s@ =~= "- "@);
    let v0 = n.name.clone();
    s.append(v0.as_str());
    assert(s@ =~= "- "@ + n.name@);
    s.append(" (ID: ");
    assert(s@ =~= "- "@ + n.name@ + " (ID: "@);
    let v1 = decimal(n.id.0);
    s.append(v1.as_str());
    assert(s@ =~= "- "@ + n.name@ + " (ID: "@ + decimal_of(n.id.0 as nat));
    s.append(", kind: ");
    assert(s@ =~= "- "@ + n.name@ + " (ID: "@ + decimal_of(n.id.0 as nat) + ", kind: "@);
    let v2 = node_kind_name(n.kind).to_owned();
    s.append(v2.as_str());
    assert(s@ =~= "- "@ + n.name@ + " (ID: "@ + decimal_of(n.id.0 as nat) + ", kind: "@ + kind_name(n.kind));
    s.append(", lines: ");
    assert(s@ =~= "- "@ + n.name@ + " (ID: "@ + decimal_of(n.id.0 as nat) + ", kind: "@ + kind_name(n.kind) + ", lines: "@);
    let v3 = decimal(line_number(n.line_start));
    s.append(v3.as_str());
    assert(s@ =~= "- "@ + n.name@ + " (ID: "@ + decimal_of(n.id.0 as nat) + ", kind: "@ + kind_name(n.kind) + ", lines: "@ + decimal_of(line_or_zero(n.line_start)));
    s.append("-");
    assert(s@ =~= "- "@ + n.name@ + " (ID: "@ + decimal_of(n.id.0 as nat) + ", kind: "@ + kind_name(n.kind) + ", lines: "@ + decimal_of(line_or_zero(n.line_start)) + "-"@);
    let v4 = decimal(line_number(n.line_end));
    s.append(v4.as_str());
    assert(s@ =~= "- "@ + n.name@ + " (ID: "@ + decimal_of(n.id.0 as nat) + ", kind: "@ + kind_name(n.kind) + ", lines: "@ + decimal_of(line_or_zero(n.line_start)) + "-"@ + decimal_of(line_or_zero(n.line_end)));
    s.append(")");
    assert(s@ =~= "- "@ + n.name@ + " (ID: "@ + decimal_of(n.id.0 as nat) + ", kind: "@ + kind_name(n.kind) + ", lines: "@ + decimal_of(line_or_zero(n.line_start)) + "-"@ + decimal_of(line_or_zero(n.line_end)) + ")"@);
    s
}

fn render_candidates(cands: &Vec<GraphNode>) -> (r: String)
    ensures
        r@ == join_with(cands@.map_values(|n: GraphNode| candidate_line(n)), "\n"@),
{
    let mut lines: Vec<String> = Vec::new();
    let mut i: usize = 0;
    while i < cands.len()
        invariant
            i <= cands@.len(),
            lines@.len() == i,
            forall|k: int| 0 <= k < i ==> (#[trigger] lines@[k])@ == candidate_line(cands@[k]),
        decreases cands@.len() - i,
    {
        lines.push(candidate_text(&cands[i]));
        i = i + 1;
    }
    assert(lines@.map_values(|p: String| p@) =~= cands@.map_values(|n: GraphNode| candidate_line(n)));
    join_strings(&lines, "\n")
}

fn render_relationships(rels: &Vec<SemanticRelationship>) -> (r: String)
    ensures
        r@ == join_with(rels@.map_values(|r: SemanticRelationship| relationship_name(r)), ", "@),
{
    let mut names: Vec<String> = Vec::new();
    let mut i: usize = 0;
    while i < rels.len()
        invariant
            i <= rels@.len(),
            names@.len() == i,
            forall|k: int| 0 <= k < i ==> (#[trigger] names@[k])@ == relationship_name(rels@[k]),
        decreases rels@.len() - i,
    {
        names.push(relationship_text(rels[i]).to_owned());
        i = i + 1;
    }
    assert(names@.map_values(|p: String| p@) =~= rels@.map_values(|r: SemanticRelationship| relationship_name(r)));
    join_strings(&names, ", ")
}

/// The prompt asking which of the candidates the source node relates to.
pub open spec fn analysis_prompt(
    src: GraphNode,
    cands: Seq<GraphNode>,
    ctx: AnalysisContext,
    rels: Seq<SemanticRelationship>,
) -> Seq<char> {
    "You are analyzing code relationships in a software project. \n\nFile: "@ + ctx.file_path@ + "\nLanguage: "@ + ctx.language@ + "\nSource element: "@ + src.name@ + " (ID: "@ + decimal_of(src.id.0 as nat) + ", kind: "@ + kind_name(src.kind) + ", lines: "@ + decimal_of(line_or_zero(src.line_start)) + "-"@ + decimal_of(line_or_zero(src.line_end)) + ")\n\nSource code context:\n```\n"@ + src.qualified_name@ + "\n```\n\nSurrounding context: "@ + quoted_list(ctx.enclosing_context@.map_values(|e: String| e@)) + "\n\nRelated elements to analyze:\n"@ + join_with(cands.map_values(|n: GraphNode| candidate_line(n)), "\n"@) + "\n\nLook for these types of relationships: "@ + join_with(rels.map_values(|r: SemanticRelationship| relationship_name(r)), ", "@) + "\n\nInstructions:\n1. Analyze if the source element has any semantic relationships with the related elements\n2. Consider imports, function calls, type usage, configuration, etc.\n3. Provide confidence scores (0.0-1.0) based on evidence in the code\n4. Include line numbers where relationships are evident\n5. Return only relationships with confidence > 0.5\n\nReturn a JSON object with:\n{\n  \"relationships\": [\n    {\n      \"source_id\": "@ + decimal_of(src.id.0 as nat) + ",\n      \"target_id\": <target_id>,\n      \"relationship\": \"<relationship_type>\",\n      \"confidence\": 0.85,\n      \"explanation\": \"Brief explanation of the relationship\",\n      \"line_reference\": 42\n    }\n  ],\n  \"explanation\": \"Overall analysis summary\"\n}"@
}

/// Builds the prompt asking which of `candidate_nodes` the source node relates
/// to, through which of `relationships` (see `analysis_prompt`).
pub fn semantic_analysis_prompt(
    source_node: &GraphNode,
    candidate_nodes: &Vec<GraphNode>,
    context: &AnalysisContext,
    relationships: &Vec<SemanticRelationship>,
) -> (r: String)
    ensures
        r@ == analysis_prompt(*source_node, candidate_nodes@, *context, relationships@),
{
    let src = source_node;
    let cands = candidate_nodes;
    let ctx = context;
    let rels = relationships;
    let ghost cs = candidate_nodes@;
    let ghost rs = relationships@;
    let mut s = String::new();
    s.append("You are analyzing code relationships in a software project. \n\nFile: ");
    assert(s@ =~= "You are analyzing code relationships in a software project. \n\nFile: "@);
    let v0 = ctx.file_path.clone();
    s.append(v0.as_str());
    assert(s@ =~= "You are analyzing code relationships in a software project. \n\nFile: "@ + ctx.file_path@);
    s.append("\nLanguage: ");
    assert(s@ =~= "You are analyzing code relationships in a software project. \n\nFile: "@ + ctx.file_path@ + "\nLanguage: "@);
    let v1 = ctx.language.clone();
    s.append(v1.as_str());
    assert(s@ =~= "You are analyzing code relationships in a software project. \n\nFile: "@ + ctx.file_path@ + "\nLanguage: "@ + ctx.language@);
    s.append("\nSource element: ");
    assert(s@ =~= "You are analyzing code relationships in a software project. \n\nFile: "@ + ctx.file_path@ + "\nLanguage: "@ + ctx.language@ + "\nSource element: "@);
    let v2 = src.name.clone();
    s.append(v2.as_str());
    assert(s@ =~= "You are analyzing code relationships in a software project. \n\nFile: "@ + ctx.file_path@ + "\nLanguage: "@ + ctx.language@ + "\nSource element: "@ + src.name@);
    s.append(" (ID: ");
    assert(s@ =~= "You are analyzing code relationships in a software project. \n\nFile: "@ + ctx.file_path@ + "\nLanguage: "@ + ctx.language@ + "\nSource element: "@ + src.name@ + " (ID: "@);
    let v3 = decimal(src.id.0);
    s.append(v3.as_str());
    assert(s@ =~= "You are analyzing code relationships in a software project. \n\nFile: "@ + ctx.file_path@ + "\nLanguage: "@ + ctx.language@ + "\nSource element: "@ + src.name@ + " (ID: "@ + decimal_of(src.id.0 as nat));
    s.append(", kind: ");
    assert(s@ =~= "You are analyzing code relationships in a software project. \n\nFile: "@ + ctx.file_path@ + "\nLanguage: "@ + ctx.language@ + "\nSource element: "@ + src.name@ + " (ID: "@ + decimal_of(src.id.0 as nat) + ", kind: "@);
    let v4 = node_kind_name(src.kind).to_owned();
    s.append(v4.as_str());
    assert(s@ =~= "You are analyzing code relationships in a software project. \n\nFile: "@ + ctx.file_path@ + "\nLanguage: "@ + ctx.language@ + "\nSource element: "@ + src.name@ + " (ID: "@ + decimal_of(src.id.0 as nat) + ", kind: "@ + kind_name(src.kind));
    s.append(", lines: ");
    assert(s@ =~= "You are analyzing code relationships in a software project. \n\nFile: "@ + ctx.file_path@ + "\nLanguage: "@ + ctx.language@ + "\nSource element: "@ + src.name@ + " (ID: "@ + decimal_of(src.id.0 as nat) + ", kind: "@ + kind_name(src.kind) + ", lines: "@);
    let v5 = decimal(line_number(src.line_start));
    s.append(v5.as_str());
    assert(s@ =~= "You are analyzing code relationships in a software project. \n\nFile: "@ + ctx.file_path@ + "\nLanguage: "@ + ctx.language@ + "\nSource element: "@ + src.name@ + " (ID: "@ + decimal_of(src.id.0 as nat) + ", kind: "@ + kind_name(src.kind) + ", lines: "@ + decimal_of(line_or_zero(src.line_start)));
    s.append("-");
    assert(s@ =~= "You are analyzing code relationships in a software project. \n\nFile: "@ + ctx.file_path@ + "\nLanguage: "@ + ctx.language@ + "\nSource element: "@ + src.name@ + " (ID: "@ + decimal_of(src.id.0 as nat) + ", kind: "@ + kind_name(src.kind) + ", lines: "@ + decimal_of(line_or_zero(src.line_start)) + "-"@);
    let v6 = decimal(line_number(src.line_end));
    s.append(v6.as_str());
    assert(s@ =~= "You are analyzing code relationships in a software project. \n\nFile: "@ + ctx.file_path@ + "\nLanguage: "@ + ctx.language@ + "\nSource element: "@ + src.name@ + " (ID: "@ + decimal_of(src.id.0 as nat) + ", kind: "@ + kind_name(src.kind) + ", lines: "@ + decimal_of(line_or_zero(src.line_start)) + "-"@ + decimal_of(line_or_zero(src.line_end)));
    s.append(")\n\nSource code context:\n```\n");
    assert(s@ =~= "You are analyzing code relationships in a software project. \n\nFile: "@ + ctx.file_path@ + "\nLanguage: "@ + ctx.language@ + "\nSource element: "@ + src.name@ + " (ID: "@ + decimal_of(src.id.0 as nat) + ", kind: "@ + kind_name(src.kind) + ", lines: "@ + decimal_of(line_or_zero(src.line_start)) + "-"@ + decimal_of(line_or_zero(src.line_end)) + ")\n\nSource code context:\n```\n"@);
    let v7 = src.qualified_name.clone();
    s.append(v7.as_str());
    assert(s@ =~= "You are analyzing code relationships in a software project. \n\nFile: "@ + ctx.file_path@ + "\nLanguage: "@ + ctx.language@ + "\nSource element: "@ + src.name@ + " (ID: "@ + decimal_of(src.id.0 as nat) + ", kind: "@ + kind_name(src.kind) + ", lines: "@ + decimal_of(line_or_zero(src.line_start)) + "-"@ + decimal_of(line_or_zero(src.line_end)) + ")\n\nSource code context:\n```\n"@ + src.qualified_name@);
    s.append("\n```\n\nSurrounding context: ");
    assert(s@ =~= "You are analyzing code relationships in a software project. \n\nFile: "@ + ctx.file_path@ + "\nLanguage: "@ + ctx.language@ + "\nSource element: "@ + src.name@ + " (ID: "@ + decimal_of(src.id.0 as nat) + ", kind: "@ + kind_name(src.kind) + ", lines: "@ + decimal_of(line_or_zero(src.line_start)) + "-"@ + decimal_of(line_or_zero(src.line_end)) + ")\n\nSource code context:\n```\n"@ + src.qualified_name@ + "\n```\n\nSurrounding context: "@);
    let v8 = render_quoted_list(&ctx.enclosing_context);
    s.append(v8.as_str());
    assert(s@ =~= "You are analyzing code relationships in a software project. \n\nFile: "@ + ctx.file_path@ + "\nLanguage: "@ + ctx.language@ + "\nSource element: "@ + src.name@ + " (ID: "@ + decimal_of(src.id.0 as nat) + ", kind: "@ + kind_name(src.kind) + ", lines: "@ + decimal_of(line_or_zero(src.line_start)) + "-"@ + decimal_of(line_or_zero(src.line_end)) + ")\n\nSource code context:\n```\n"@ + src.qualified_name@ + "\n```\n\nSurrounding context: "@ + quoted_list(ctx.enclosing_context@.map_values(|e: String| e@)));
    s.append("\n\nRelated elements to analyze:\n");
    assert(s@ =~= "You are analyzing code relationships in a software project. \n\nFile: "@ + ctx.file_path@ + "\nLanguage: "@ + ctx.language@ + "\nSource element: "@ + src.name@ + " (ID: "@ + decimal_of(src.id.0 as nat) + ", kind: "@ + kind_name(src.kind) + ", lines: "@ + decimal_of(line_or_zero(src.line_start)) + "-"@ + decimal_of(line_or_zero(src.line_end)) + ")\n\nSource code context:\n```\n"@ + src.qualified_name@ + "\n```\n\nSurrounding context: "@ + quoted_list(ctx.enclosing_context@.map_values(|e: String| e@)) + "\n\nRelated elements to analyze:\n"@);
    let v9 = render_candidates(cands);
    s.append(v9.as_str());
    assert(s@ =~= "You are analyzing code relationships in a software project. \n\nFile: "@ + ctx.file_path@ + "\nLanguage: "@ + ctx.language@ + "\nSource element: "@ + src.name@ + " (ID: "@ + decimal_of(src.id.0 as nat) + ", kind: "@ + kind_name(src.kind) + ", lines: "@ + decimal_of(line_or_zero(src.line_start)) + "-"@ + decimal_of(line_or_zero(src.line_end)) + ")\n\nSource code context:\n```\n"@ + src.qualified_name@ + "\n```\n\nSurrounding context: "@ + quoted_list(ctx.enclosing_context@.map_values(|e: String| e@)) + "\n\nRelated elements to analyze:\n"@ + join_with(cs.map_values(|n: GraphNode| candidate_line(n)), "\n"@));
    s.append("\n\nLook for these types of relationships: ");
    assert(s@ =~= "You are analyzing code relationships in a software project. \n\nFile: "@ + ctx.file_path@ + "\nLanguage: "@ + ctx.language@ + "\nSource element: "@ + src.name@ + " (ID: "@ + decimal_of(src.id.0 as nat) + ", kind: "@ + kind_name(src.kind) + ", lines: "@ + decimal_of(line_or_zero(src.line_start)) + "-"@ + decimal_of(line_or_zero(src.line_end)) + ")\n\nSource code context:\n```\n"@ + src.qualified_name@ + "\n```\n\nSurrounding context: "@ + quoted_list(ctx.enclosing_context@.map_values(|e: String| e@)) + "\n\nRelated elements to analyze:\n"@ + join_with(cs.map_values(|n: GraphNode| candidate_line(n)), "\n"@) + "\n\nLook for these types of relationships: "@);
    let v10 = render_relationships(rels);
    s.append(v10.as_str());
    assert(s@ =~= "You are analyzing code relationships in a software project. \n\nFile: "@ + ctx.file_path@ + "\nLanguage: "@ + ctx.language@ + "\nSource element: "@ + src.name@ + " (ID: "@ + decimal_of(src.id.0 as nat) + ", kind: "@ + kind_name(src.kind) + ", lines: "@ + decimal_of(line_or_zero(src.line_start)) + "-"@ + decimal_of(line_or_zero(src.line_end)) + ")\n\nSource code context:\n```\n"@ + src.qualified_name@ + "\n```\n\nSurrounding context: "@ + quoted_list(ctx.enclosing_context@.map_values(|e: String| e@)) + "\n\nRelated elements to analyze:\n"@ + join_with(cs.map_values(|n: GraphNode| candidate_line(n)), "\n"@) + "\n\nLook for these types of relationships: "@ + join_with(rs.map_values(|r: SemanticRelationship| relationship_name(r)), ", "@));
    s.append("\n\nInstructions:\n1. Analyze if the source element has any semantic relationships with the related elements\n2. Consider imports, function calls, type usage, configuration, etc.\n3. Provide confidence scores (0.0-1.0) based on evidence in the code\n4. Include line numbers where relationships are evident\n5. Return only relationships with confidence > 0.5\n\nReturn a JSON object with:\n{\n  \"relationships\": [\n    {\n      \"source_id\": ");
    assert(s@ =~= "You are analyzing code relationships in a software project. \n\nFile: "@ + ctx.file_path@ + "\nLanguage: "@ + ctx.language@ + "\nSource element: "@ + src.name@ + " (ID: "@ + decimal_of(src.id.0 as nat) + ", kind: "@ + kind_name(src.kind) + ", lines: "@ + decimal_of(line_or_zero(src.line_start)) + "-"@ + decimal_of(line_or_zero(src.line_end)) + ")\n\nSource code context:\n```\n"@ + src.qualified_name@ + "\n```\n\nSurrounding context: "@ + quoted_list(ctx.enclosing_context@.map_values(|e: String| e@)) + "\n\nRelated elements to analyze:\n"@ + join_with(cs.map_values(|n: GraphNode| candidate_line(n)), "\n"@) + "\n\nLook for these types of relationships: "@ + join_with(rs.map_values(|r: SemanticRelationship| relationship_name(r)), ", "@) + "\n\nInstructions:\n1. Analyze if the source element has any semantic relationships with the related elements\n2. Consider imports, function calls, type usage, configuration, etc.\n3. Provide confidence scores (0.0-1.0) based on evidence in the code\n4. Include line numbers where relationships are evident\n5. Return only relationships with confidence > 0.5\n\nReturn a JSON object with:\n{\n  \"relationships\": [\n    {\n      \"source_id\": "@);
    let v11 = decimal(src.id.0);
    s.append(v11.as_str());
    assert(s@ =~= "You are analyzing code relationships in a software project. \n\nFile: "@ + ctx.file_path@ + "\nLanguage: "@ + ctx.language@ + "\nSource element: "@ + src.name@ + " (ID: "@ + decimal_of(src.id.0 as nat) + ", kind: "@ + kind_name(src.kind) + ", lines: "@ + decimal_of(line_or_zero(src.line_start)) + "-"@ + decimal_of(line_or_zero(src.line_end)) + ")\n\nSource code context:\n```\n"@ + src.qualified_name@ + "\n```\n\nSurrounding context: "@ + quoted_list(ctx.enclosing_context@.map_values(|e: String| e@)) + "\n\nRelated elements to analyze:\n"@ + join_with(cs.map_values(|n: GraphNode| candidate_line(n)), "\n"@) + "\n\nLook for these types of relationships: "@ + join_with(rs.map_values(|r: SemanticRelationship| relationship_name(r)), ", "@) + "\n\nInstructions:\n1. Analyze if the source element has any semantic relationships with the related elements\n2. Consider imports, function calls, type usage, configuration, etc.\n3. Provide confidence scores (0.0-1.0) based on evidence in the code\n4. Include line numbers where relationships are evident\n5. Return only relationships with confidence > 0.5\n\nReturn a JSON object with:\n{\n  \"relationships\": [\n    {\n      \"source_id\": "@ + decimal_of(src.id.0 as nat));
    s.append(",\n      \"target_id\": <target_id>,\n      \"relationship\": \"<relationship_type>\",\n      \"confidence\": 0.85,\n      \"explanation\": \"Brief explanation of the relationship\",\n      \"line_reference\": 42\n    }\n  ],\n  \"explanation\": \"Overall analysis summary\"\n}");
    assert(s@ =~= "You are analyzing code relationships in a software project. \n\nFile: "@ + ctx.file_path@ + "\nLanguage: "@ + ctx.language@ + "\nSource element: "@ + src.name@ + " (ID: "@ + decimal_of(src.id.0 as nat) + ", kind: "@ + kind_name(src.kind) + ", lines: "@ + decimal_of(line_or_zero(src.line_start)) + "-"@ + decimal_of(line_or_zero(src.line_end)) + ")\n\nSource code context:\n```\n"@ + src.qualified_name@ + "\n```\n\nSurrounding context: "@ + quoted_list(ctx.enclosing_context@.map_values(|e: String| e@)) + "\n\nRelated elements to analyze:\n"@ + join_with(cs.map_values(|n: GraphNode| candidate_line(n)), "\n"@) + "\n\nLook for these types of relationships: "@ + join_with(rs.map_values(|r: SemanticRelationship| relationship_name(r)), ", "@) + "\n\nInstructions:\n1. Analyze if the source element has any semantic relationships with the related elements\n2. Consider imports, function calls, type usage, configuration, etc.\n3. Provide confidence scores (0.0-1.0) based on evidence in the code\n4. Include line numbers where relationships are evident\n5. Return only relationships with confidence > 0.5\n\nReturn a JSON object with:\n{\n  \"relationships\": [\n    {\n      \"source_id\": "@ + decimal_of(src.id.0 as nat) + ",\n      \"target_id\": <target_id>,\n      \"relationship\": \"<relationship_type>\",\n      \"confidence\": 0.85,\n      \"explanation\": \"Brief explanation of the relationship\",\n      \"line_reference\": 42\n    }\n  ],\n  \"explanation\": \"Overall analysis summary\"\n}"@);
    s
}

/// The prompt asking for a one-sentence summary of a node.
pub open spec fn summary_prompt(node: GraphNode, ctx: AnalysisContext) -> Seq<char> {
    "Summarize what this "@ + kind_name(node.kind) + " does in one concise sentence:\n\nFile: "@ + ctx.file_path@ + "\nName: "@ + node.name@ + "\nType: "@ + kind_name(node.kind) + "\nLines: "@ + decimal_of(line_or_zero(node.line_start)) + "-"@ + decimal_of(line_or_zero(node.line_end)) + "\nQualified name: "@ + node.qualified_name@ + "\n\nContext: "@ + quoted_list(ctx.enclosing_context@.map_values(|e: String| e@)) + "\n\nProvide a clear, technical summary of its purpose and functionality."@
}

/// Builds the prompt asking for a one-sentence summary of `node` (see
/// `summary_prompt`).
pub fn node_summary_prompt(node: &GraphNode, context: &AnalysisContext) -> (r: String)
    ensures
        r@ == summary_prompt(*node, *context),
{
    let ctx = context;
    let mut s = String::new();
    s.append("Summarize what this ");
    assert(s@ =~= "Summarize what this "@);
    let v0 = node_kind_name(node.kind).to_owned();
    s.append(v0.as_str());
    assert(s@ =~= "Summarize what this "@ + kind_name(node.kind));
    s.append(" does in one concise sentence:\n\nFile: ");
    assert(s@ =~= "Summarize what this "@ + kind_name(node.kind) + " does in one concise sentence:\n\nFile: "@);
    let v1 = ctx.file_path.clone();
    s.append(v1.as_str());
    assert(s@ =~= "Summarize what this "@ + kind_name(node.kind) + " does in one concise sentence:\n\nFile: "@ + ctx.file_path@);
    s.append("\nName: ");
    assert(s@ =~= "Summarize what this "@ + kind_name(node.kind) + " does in one concise sentence:\n\nFile: "@ + ctx.file_path@ + "\nName: "@);
    let v2 = node.name.clone();
    s.append(v2.as_str());
    assert(s@ =~= "Summarize what this "@ + kind_name(node.kind) + " does in one concise sentence:\n\nFile: "@ + ctx.file_path@ + "\nName: "@ + node.name@);
    s.append("\nType: ");
    assert(s@ =~= "Summarize what this "@ + kind_name(node.kind) + " does in one concise sentence:\n\nFile: "@ + ctx.file_path@ + "\nName: "@ + node.name@ + "\nType: "@);
    let v3 = node_kind_name(node.kind).to_owned();
    s.append(v3.as_str());
    assert(s@ =~= "Summarize what this "@ + kind_name(node.kind) + " does in one concise sentence:\n\nFile: "@ + ctx.file_path@ + "\nName: "@ + node.name@ + "\nType: "@ + kind_name(node.kind));
    s.append("\nLines: ");
    assert(s@ =~= "Summarize what this "@ + kind_name(node.kind) + " does in one concise sentence:\n\nFile: "@ + ctx.file_path@ + "\nName: "@ + node.name@ + "\nType: "@ + kind_name(node.kind) + "\nLines: "@);
    let v4 = decimal(line_number(node.line_start));
    s.append(v4.as_str());
    assert(s@ =~= "Summarize what this "@ + kind_name(node.kind) + " does in one concise sentence:\n\nFile: "@ + ctx.file_path@ + "\nName: "@ + node.name@ + "\nType: "@ + kind_name(node.kind) + "\nLines: "@ + decimal_of(line_or_zero(node.line_start)));
    s.append("-");
    assert(s@ =~= "Summarize what this "@ + kind_name(node.kind) + " does in one concise sentence:\n\nFile: "@ + ctx.file_path@ + "\nName: "@ + node.name@ + "\nType: "@ + kind_name(node.kind) + "\nLines: "@ + decimal_of(line_or_zero(node.line_start)) + "-"@);
    let v5 = decimal(line_number(node.line_end));
    s.append(v5.as_str());
    assert(s@ =~= "Summarize what this "@ + kind_name(node.kind) + " does in one concise sentence:\n\nFile: "@ + ctx.file_path@ + "\nName: "@ + node.name@ + "\nType: "@ + kind_name(node.kind) + "\nLines: "@ + decimal_of(line_or_zero(node.line_start)) + "-"@ + decimal_of(line_or_zero(node.line_end)));
    s.append("\nQualified name: ");
    assert(s@ =~= "Summarize what this "@ + kind_name(node.kind) + " does in one concise sentence:\n\nFile: "@ + ctx.file_path@ + "\nName: "@ + node.name@ + "\nType: "@ + kind_name(node.kind) + "\nLines: "@ + decimal_of(line_or_zero(node.line_start)) + "-"@ + decimal_of(line_or_zero(node.line_end)) + "\nQualified name: "@);
    let v6 = node.qualified_name.clone();
    s.append(v6.as_str());
    assert(s@ =~= "Summarize what this "@ + kind_name(node.kind) + " does in one concise sentence:\n\nFile: "@ + ctx.file_path@ + "\nName: "@ + node.name@ + "\nType: "@ + kind_name(node.kind) + "\nLines: "@ + decimal_of(line_or_zero(node.line_start)) + "-"@ + decimal_of(line_or_zero(node.line_end)) + "\nQualified name: "@ + node.qualified_name@);
    s.append("\n\nContext: ");
    assert(s@ =~= "Summarize what this "@ + kind_name(node.kind) + " does in one concise sentence:\n\nFile: "@ + ctx.file_path@ + "\nName: "@ + node.name@ + "\nType: "@ + kind_name(node.kind) + "\nLines: "@ + decimal_of(line_or_zero(node.line_start)) + "-"@ + decimal_of(line_or_zero(node.line_end)) + "\nQualified name: "@ + node.qualified_name@ + "\n\nContext: "@);
    let v7 = render_quoted_list(&ctx.enclosing_context);
    s.append(v7.as_str());
    assert(s@ =~= "Summarize what this "@ + kind_name(node.kind) + " does in one concise sentence:\n\nFile: "@ + ctx.file_path@ + "\nName: "@ + node.name@ + "\nType: "@ + kind_name(node.kind) + "\nLines: "@ + decimal_of(line_or_zero(node.line_start)) + "-"@ + decimal_of(line_or_zero(node.line_end)) + "\nQualified name: "@ + node.qualified_name@ + "\n\nContext: "@ + quoted_list(ctx.enclosing_context@.map_values(|e: String| e@)));
    s.append("\n\nProvide a clear, technical summary of its purpose and functionality.");
    assert(s@ =~= "Summarize what this "@ + kind_name(node.kind) + " does in one concise sentence:\n\nFile: "@ + ctx.file_path@ + "\nName: "@ + node.name@ + "\nType: "@ + kind_name(node.kind) + "\nLines: "@ + decimal_of(line_or_zero(node.line_start)) + "-"@ + decimal_of(line_or_zero(node.line_end)) + "\nQualified name: "@ + node.qualified_name@ + "\n\nContext: "@ + quoted_list(ctx.enclosing_context@.map_values(|e: String| e@)) + "\n\nProvide a clear, technical summary of its purpose and functionality."@);
    s
}

} // verus!
