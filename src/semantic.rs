//! Types of the model-based enrichment pass: relationships a model may infer,
//! the requests sent for them and the answers that come back.
use vstd::prelude::*;
use crate::budget::AIBudget;
use crate::model::{EdgeKind, GraphNode, NodeId, NodeKind};
use crate::text::str_eq;

verus! {

/// Relationships a model may infer between two code entities.
#[derive(Clone, Copy, Debug, PartialEq, Eq, Hash, Structural)]
pub enum SemanticRelationship {
    Calls,
    DependsOn,
    Implements,
    Extends,
    TestedBy,
    Uses,
    Configures,
    HandlesRoute,
    MigrationDepends,
    SemanticReference,
}

/// The edge kind an inferred relationship becomes.
pub open spec fn relationship_kind(r: SemanticRelationship) -> EdgeKind {
    match r {
        SemanticRelationship::Calls => EdgeKind::Calls,
        SemanticRelationship::DependsOn => EdgeKind::TypeReference,
        SemanticRelationship::Implements => EdgeKind::Implements,
        SemanticRelationship::Extends => EdgeKind::Inherits,
        SemanticRelationship::TestedBy => EdgeKind::SemanticReference,
        SemanticRelationship::Uses => EdgeKind::Imports,
        SemanticRelationship::Configures => EdgeKind::ConfiguresArgument,
        SemanticRelationship::HandlesRoute => EdgeKind::RouteHandler,
        SemanticRelationship::MigrationDepends => EdgeKind::MigrationTarget,
        SemanticRelationship::SemanticReference => EdgeKind::SemanticReference,
    }
}

impl From<SemanticRelationship> for EdgeKind {
    fn from(rel: SemanticRelationship) -> (k: EdgeKind) {
        match rel {
            SemanticRelationship::Calls => EdgeKind::Calls,
            SemanticRelationship::DependsOn => EdgeKind::TypeReference,
            SemanticRelationship::Implements => EdgeKind::Implements,
            SemanticRelationship::Extends => EdgeKind::Inherits,
            SemanticRelationship::TestedBy => EdgeKind::SemanticReference,
            SemanticRelationship::Uses => EdgeKind::Imports,
            SemanticRelationship::Configures => EdgeKind::ConfiguresArgument,
            SemanticRelationship::HandlesRoute => EdgeKind::RouteHandler,
            SemanticRelationship::MigrationDepends => EdgeKind::MigrationTarget,
            SemanticRelationship::SemanticReference => EdgeKind::SemanticReference,
        }
    }
}

impl vstd::std_specs::convert::FromSpecImpl<SemanticRelationship> for EdgeKind {
    open spec fn obeys_from_spec() -> bool {
        true
    }

    open spec fn from_spec(rel: SemanticRelationship) -> EdgeKind {
        relationship_kind(rel)
    }
}

/// One relationship inferred by a model.
#[derive(Clone, Debug)]
pub struct InferredRelationship {
    pub source_id: NodeId,
    pub target_id: NodeId,
    pub relationship: SemanticRelationship,
    /// In thousandths.
    pub confidence: u32,
    pub explanation: String,
    pub line_reference: Option<u32>,
}

/// Surroundings of the code under analysis.
#[derive(Clone, Debug)]
pub struct AnalysisContext {
    pub file_path: String,
    pub language: String,
    pub enclosing_context: Vec<String>,
    pub imports: Vec<String>,
    pub project_context: Vec<(String, String)>,
}

/// A request for the relationships of one node.
#[derive(Clone, Debug)]
pub struct SemanticAnalysisRequest {
    pub source_node: GraphNode,
    pub candidate_nodes: Vec<GraphNode>,
    pub context: AnalysisContext,
    pub relationship_types: Vec<SemanticRelationship>,
}

/// What a model answered.
#[derive(Clone, Debug)]
pub struct SemanticAnalysisResult {
    pub relationships: Vec<InferredRelationship>,
    pub explanation: String,
    pub tokens_used: u32,
}

/// Settings of the enrichment pass.
#[derive(Clone, Debug)]
pub struct SemanticConfig {
    pub enabled: bool,
    pub provider: String,
    pub api_key: Option<String>,
    pub budget: AIBudget,
    pub batch_size: usize,
    pub api_delay_ms: u64,
}

impl Default for SemanticConfig {
    fn default() -> (r: SemanticConfig)
        ensures
            r.enabled,
            r.provider@ == "openai"@,
            r.api_key is None,
            r.budget.total_tokens == 100_000,
            r.budget.tokens_used == 0,
            r.batch_size == 10,
            r.api_delay_ms == 1000,
    {
        SemanticConfig {
            enabled: true,
            provider: "openai".to_owned(),
            api_key: None,
            budget: AIBudget::new(100_000),
            batch_size: 10,
            api_delay_ms: 1000,
        }
    }
}

/// Nodes the enrichment pass asks about: functions and methods.
pub open spec fn is_enrichment_target(k: NodeKind) -> bool {
    k == NodeKind::Function || k == NodeKind::Method
}

/// Positions of the nodes that the enrichment pass asks about, in order.
pub fn enrichment_targets(nodes: &Vec<GraphNode>) -> (r: Vec<usize>)
    ensures
        forall|k: int| 0 <= k < r@.len() ==> (#[trigger] r@[k]) < nodes@.len() && is_enrichment_target(
            nodes@[r@[k] as int].kind,
        ),
        forall|i: int|
            0 <= i < nodes@.len() && is_enrichment_target(#[trigger] nodes@[i].kind) ==> r@.contains(
                i as usize,
            ),
        forall|a: int, b: int| 0 <= a < b < r@.len() ==> r@[a] < r@[b],
{
    let mut r: Vec<usize> = Vec::new();
    let mut i: usize = 0;
    while i < nodes.len()
        invariant
            i <= nodes@.len(),
            forall|k: int| 0 <= k < r@.len() ==> (#[trigger] r@[k]) < i && is_enrichment_target(
                nodes@[r@[k] as int].kind,
            ),
            forall|j: int|
                0 <= j < i && is_enrichment_target(#[trigger] nodes@[j].kind) ==> r@.contains(j as usize),
            forall|a: int, b: int| 0 <= a < b < r@.len() ==> r@[a] < r@[b],
        decreases nodes@.len() - i,
    {
        let k = nodes[i].kind;
        if k == NodeKind::Function || k == NodeKind::Method {
            let ghost before = r@;
            r.push(i);
            proof {
                assert forall|j: int|
                    0 <= j < i + 1 && is_enrichment_target(#[trigger] nodes@[j].kind) implies r@.contains(
                    j as usize,
                ) by {
                    if j < i {
                        let m = choose|m: int| 0 <= m < before.len() && before[m] == j as usize;
                        assert(r@[m] == j as usize);
                    } else {
                        assert(r@[r@.len() - 1] == i);
                    }
                }
            }
        }
        i = i + 1;
    }
    r
}

/// The relationship kinds asked for about each node.
pub fn default_relationship_types() -> (r: Vec<SemanticRelationship>)
    ensures
        r@ == seq![
            SemanticRelationship::Calls,
            SemanticRelationship::DependsOn,
            SemanticRelationship::Uses,
        ],
{
    let r = vec![SemanticRelationship::Calls, SemanticRelationship::DependsOn, SemanticRelationship::Uses];
    assert(r@ =~= seq![SemanticRelationship::Calls, SemanticRelationship::DependsOn, SemanticRelationship::Uses]);
    r
}

/// The model backends the enrichment pass can use.
#[derive(Clone, Copy, Debug, PartialEq, Eq, Structural)]
pub enum ProviderKind {
    OpenAI,
    Anthropic,
    Local,
}

/// A chosen backend and the key it is to be called with.
#[derive(Clone, Debug)]
pub struct ProviderChoice {
    pub kind: ProviderKind,
    pub api_key: Option<String>,
}

/// Why no backend could be chosen.
#[derive(Clone, Debug)]
pub enum ProviderError {
    /// The name matches no backend.
    Unknown(String),
}

/// The backend a provider name selects, if any.
pub open spec fn provider_named(name: Seq<char>) -> Option<ProviderKind> {
    if name == "openai"@ {
        Some(ProviderKind::OpenAI)
    } else if name == "anthropic"@ {
        Some(ProviderKind::Anthropic)
    } else if name == "local"@ {
        Some(ProviderKind::Local)
    } else {
        None
    }
}

/// Chooses the backend named `provider_name` ("openai", "anthropic" or "local").
pub fn create_provider(provider_name: &str, api_key: Option<String>) -> (r: Result<ProviderChoice, ProviderError>)
    ensures
        r is Ok <==> provider_named(provider_name@) is Some,
        r is Ok ==> r.unwrap().kind == provider_named(provider_name@).unwrap() && r.unwrap().api_key
            == api_key,
        r is Err ==> r->Err_0->Unknown_0@ == provider_name@,
{
    if str_eq(provider_name, "openai") {
        Ok(ProviderChoice { kind: ProviderKind::OpenAI, api_key })
    } else if str_eq(provider_name, "anthropic") {
        Ok(ProviderChoice { kind: ProviderKind::Anthropic, api_key })
    } else if str_eq(provider_name, "local") {
        Ok(ProviderChoice { kind: ProviderKind::Local, api_key })
    } else {
        Err(ProviderError::Unknown(provider_name.to_owned()))
    }
}

} // verus!
