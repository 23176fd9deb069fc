//! Core data model of the code graph: ids, node and edge kinds, nodes and edges.
use vstd::prelude::*;

verus! {

/// Unique, stable identifier of a node (its index in the graph store).
#[derive(Clone, Copy, Debug, PartialEq, Eq, Hash, Structural, Default)]
pub struct NodeId(pub u64);

/// Unique, stable identifier of an edge (its index in the graph store).
#[derive(Clone, Copy, Debug, PartialEq, Eq, Hash, Structural, Default)]
pub struct EdgeId(pub u64);

/// What kind of code entity a node represents.
#[derive(Clone, Copy, Debug, PartialEq, Eq, Hash, Structural)]
pub enum NodeKind {
    Directory,
    File,
    Module,
    Class,
    Struct,
    Enum,
    Interface,
    Function,
    Method,
    Constant,
    TypeAlias,
    ConfigBlock,
    ConfigKey,
    EnvVariable,
    Route,
    Migration,
    CIJob,
    DockerService,
    WorkspaceRoot,
    Package,
    Unknown,
}

/// Languages known to the indexer.
#[derive(Clone, Copy, Debug, PartialEq, Eq, Hash, Structural)]
pub enum Language {
    Rust,
    TypeScript,
    JavaScript,
    Python,
    Go,
    Java,
    C,
    Cpp,
    Yaml,
    Toml,
    Json,
    Sql,
    Dockerfile,
    Markdown,
    Protobuf,
    GraphQL,
    Other,
}

/// The relationship an edge stands for.
#[derive(Clone, Copy, Debug, PartialEq, Eq, Hash, Structural)]
pub enum EdgeKind {
    Contains,
    Imports,
    Calls,
    Inherits,
    Implements,
    TypeReference,
    Instantiates,
    Exports,
    ConfiguresArgument,
    EnvironmentBinding,
    RouteHandler,
    MigrationTarget,
    CITrigger,
    DockerMount,
    SemanticReference,
}

/// How an edge was derived.
#[derive(Clone, Copy, Debug, PartialEq, Eq, Hash, Structural)]
pub enum EdgeSource {
    /// From the syntax tree; always certain.
    Structure,
    /// From pattern matching; high confidence.
    Heuristic,
    /// Inferred by a model; carries its own confidence.
    AI,
}

/// Confidence is held in thousandths: 0 stands for 0.0 and 1000 for 1.0.
pub const CONFIDENCE_ONE: u32 = 1000;

/// A node of the code graph.
#[derive(Clone, Debug)]
pub struct GraphNode {
    pub id: NodeId,
    pub kind: NodeKind,
    pub name: String,
    pub qualified_name: String,
    pub file_path: String,
    pub line_start: Option<u32>,
    pub line_end: Option<u32>,
    pub language: Option<Language>,
    pub is_container: bool,
    pub child_count: u32,
    pub loc: Option<u32>,
    pub metadata: Vec<(String, String)>,
}

/// A directed edge of the code graph.
#[derive(Clone, Debug)]
pub struct GraphEdge {
    pub id: EdgeId,
    pub source: NodeId,
    pub target: NodeId,
    pub kind: EdgeKind,
    pub edge_source: EdgeSource,
    /// In thousandths (see `CONFIDENCE_ONE`).
    pub confidence: u32,
    pub label: Option<String>,
    pub file_path: Option<String>,
    pub line: Option<u32>,
}

/// An edge respects the confidence bounds: within [0, 1], and exactly 1 when structural.
pub open spec fn confidence_ok(e: GraphEdge) -> bool {
    &&& e.confidence <= CONFIDENCE_ONE
    &&& (e.edge_source == EdgeSource::Structure ==> e.confidence == CONFIDENCE_ONE)
}

/// Executable form of `confidence_ok`.
pub fn has_valid_confidence(e: &GraphEdge) -> (r: bool)
    ensures
        r == confidence_ok(*e),
{
    e.confidence <= CONFIDENCE_ONE && (!(e.edge_source == EdgeSource::Structure)
        || e.confidence == CONFIDENCE_ONE)
}

/// Copies a string option.
pub fn copy_opt_string(s: &Option<String>) -> (r: Option<String>)
    ensures
        r == *s,
{
    match s {
        Some(x) => Some(x.clone()),
        None => None,
    }
}

/// Copies a list of key/value pairs.
pub fn copy_pairs(v: &Vec<(String, String)>) -> (r: Vec<(String, String)>)
    ensures
        r@ == v@,
{
    let mut r: Vec<(String, String)> = Vec::new();
    let mut i: usize = 0;
    while i < v.len()
        invariant
            i <= v@.len(),
            r@ == v@.subrange(0, i as int),
        decreases v@.len() - i,
    {
        let (a, b) = &v[i];
        r.push((a.clone(), b.clone()));
        i = i + 1;
        assert(r@ =~= v@.subrange(0, i as int));
    }
    assert(r@ =~= v@);
    r
}

/// Two nodes hold the same values, field by field (the metadata by its contents).
pub open spec fn same_node(a: GraphNode, b: GraphNode) -> bool {
    &&& a.id == b.id
    &&& a.kind == b.kind
    &&& a.name@ == b.name@
    &&& a.qualified_name@ == b.qualified_name@
    &&& a.file_path@ == b.file_path@
    &&& a.line_start == b.line_start
    &&& a.line_end == b.line_end
    &&& a.language == b.language
    &&& a.is_container == b.is_container
    &&& a.child_count == b.child_count
    &&& a.loc == b.loc
    &&& a.metadata@ == b.metadata@
}

impl GraphNode {
    /// A field-by-field copy.
    pub fn duplicate(&self) -> (r: GraphNode)
        ensures
            same_node(r, *self),
    {
        GraphNode {
            id: self.id,
            kind: self.kind,
            name: self.name.clone(),
            qualified_name: self.qualified_name.clone(),
            file_path: self.file_path.clone(),
            line_start: self.line_start,
            line_end: self.line_end,
            language: self.language,
            is_container: self.is_container,
            child_count: self.child_count,
            loc: self.loc,
            metadata: copy_pairs(&self.metadata),
        }
    }
}

impl GraphEdge {
    /// A field-by-field copy.
    pub fn duplicate(&self) -> (r: GraphEdge)
        ensures
            r == *self,
    {
        GraphEdge {
            id: self.id,
            source: self.source,
            target: self.target,
            kind: self.kind,
            edge_source: self.edge_source,
            confidence: self.confidence,
            label: copy_opt_string(&self.label),
            file_path: copy_opt_string(&self.file_path),
            line: self.line,
        }
    }
}

} // verus!
