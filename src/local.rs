//! An offline enrichment backend: relationships guessed from names alone.
use vstd::prelude::*;
use vstd::string::*;
use crate::model::{GraphNode, NodeId, NodeKind};
use crate::semantic::{InferredRelationship, SemanticAnalysisRequest, SemanticAnalysisResult, SemanticRelationship};
use crate::text::{contains, has_infix, has_prefix, starts_with};

verus! {

/// Confidence, in thousandths, of a call guessed from a name prefix.
pub const NAME_PREFIX_CONFIDENCE: u32 = 600;

/// Confidence, in thousandths, of a dependency guessed from a qualified name.
pub const QUALIFIED_NAME_CONFIDENCE: u32 = 500;

/// One guess: target, relationship, confidence and explanation.
pub type Finding = (NodeId, SemanticRelationship, u32, Seq<char>);

/// The guesses about one candidate: a call when both are functions and the
/// candidate's name starts with the source's name; a dependency when the source's
/// qualified name mentions the candidate's name.
pub open spec fn findings_for(src: GraphNode, c: GraphNode) -> Seq<Finding> {
    let calls: Seq<Finding> = if src.kind == NodeKind::Function && c.kind == NodeKind::Function
        && has_prefix(c.name@, src.name@) {
        seq![(c.id, SemanticRelationship::Calls, NAME_PREFIX_CONFIDENCE, "Function name suggests it calls "@ + c.name@)]
    } else {
        Seq::empty()
    };
    let uses: Seq<Finding> = if has_infix(src.qualified_name@, c.name@) {
        seq![(c.id, SemanticRelationship::DependsOn, QUALIFIED_NAME_CONFIDENCE, "Source references "@ + c.name@ + " in its qualified name"@)]
    } else {
        Seq::empty()
    };
    calls + uses
}

/// The guesses about all candidates, in order.
pub open spec fn local_findings(src: GraphNode, cands: Seq<GraphNode>) -> Seq<Finding>
    decreases cands.len(),
{
    if cands.len() == 0 {
        Seq::empty()
    } else {
        local_findings(src, cands.drop_last()) + findings_for(src, cands.last())
    }
}

/// A relationship states a finding about the source node `src`.
pub open spec fn states(r: InferredRelationship, src: NodeId, f: Finding) -> bool {
    &&& r.source_id == src
    &&& r.target_id == f.0
    &&& r.relationship == f.1
    &&& r.confidence == f.2
    &&& r.explanation@ == f.3
    &&& r.line_reference is None
}

/// The offline backend.
pub struct LocalProvider;

impl LocalProvider {
    /// The offline backend needs no settings.
    pub fn new() -> (r: LocalProvider) {
        LocalProvider
    }

    /// Guesses relationships from names (see `local_findings`); uses no tokens.
    pub fn analyze_semantic_relationships(&self, request: &SemanticAnalysisRequest) -> (r: SemanticAnalysisResult)
        ensures
            r.tokens_used == 0,
            r.explanation@ == "Heuristic-based analysis without AI"@,
            r.relationships@.len() == local_findings(request.source_node, request.candidate_nodes@).len(),
            forall|k: int|
                0 <= k < r.relationships@.len() ==> states(
                    #[trigger] r.relationships@[k],
                    request.source_node.id,
                    local_findings(request.source_node, request.candidate_nodes@)[k],
                ),
    {
        let src = &request.source_node;
        let cands = &request.candidate_nodes;
        let mut out: Vec<InferredRelationship> = Vec::new();
        let mut i: usize = 0;
        while i < cands.len()
            invariant
                i <= cands@.len(),
                src == &request.source_node,
                cands == &request.candidate_nodes,
                out@.len() == local_findings(*src, cands@.subrange(0, i as int)).len(),
                forall|k: int|
                    0 <= k < out@.len() ==> states(
                        #[trigger] out@[k],
                        src.id,
                        local_findings(*src, cands@.subrange(0, i as int))[k],
                    ),
            decreases cands@.len() - i,
        {
            let ghost sub = cands@.subrange(0, i + 1);
            assert(sub.drop_last() =~= cands@.subrange(0, i as int));
            assert(sub.last() == cands@[i as int]);
            let ghost before = local_findings(*src, cands@.subrange(0, i as int));
            let ghost out0 = out@;
            let c = &cands[i];
            if src.kind == NodeKind::Function && c.kind == NodeKind::Function && starts_with(
                c.name.as_str(),
                src.name.as_str(),
            ) {
                let mut e = "Function name suggests it calls ".to_owned();
                e.append(c.name.as_str());
                out.push(
                    InferredRelationship {
                        source_id: src.id,
                        target_id: c.id,
                        relationship: SemanticRelationship::Calls,
                        confidence: NAME_PREFIX_CONFIDENCE,
                        explanation: e,
                        line_reference: None,
                    },
                );
            }
            if contains(src.qualified_name.as_str(), c.name.as_str()) {
                let mut e = "Source references ".to_owned();
                e.append(c.name.as_str());
                e.append(" in its qualified name");
                out.push(
                    InferredRelationship {
                        source_id: src.id,
                        target_id: c.id,
                        relationship: SemanticRelationship::DependsOn,
                        confidence: QUALIFIED_NAME_CONFIDENCE,
                        explanation: e,
                        line_reference: None,
                    },
                );
            }
            proof {
                let f = findings_for(*src, *c);
                let now = local_findings(*src, cands@.subrange(0, i + 1));
                assert(now =~= before + f);
                assert(out@.len() == before.len() + f.len());
                assert forall|k: int| 0 <= k < out@.len() implies states(#[trigger] out@[k], src.id, now[k]) by {
                    if k < before.len() {
                        assert(out@[k] == out0[k]);
                    }
                }
            }
            i = i + 1;
        }
        assert(cands@.subrange(0, i as int) =~= cands@);
        SemanticAnalysisResult {
            relationships: out,
            explanation: "Heuristic-based analysis without AI".to_owned(),
            tokens_used: 0,
        }
    }
}

} // verus!
