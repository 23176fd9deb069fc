//! Reading a model's answer: cutting out the JSON object it holds, and turning
//! the relationships it lists into inferred relationships.
use vstd::prelude::*;
use vstd::string::*;
use crate::model::NodeId;
use crate::paths::{last_index_of, lemma_last_index_bounds};
use crate::semantic::{InferredRelationship, SemanticRelationship};
use crate::text::str_eq;

verus! {

/// Index of the first occurrence of `c` in `s`, or -1.
pub open spec fn first_index_of(s: Seq<char>, c: char) -> int
    decreases s.len(),
{
    if s.len() == 0 {
        -1
    } else if s[0] == c {
        0
    } else {
        let r = first_index_of(s.subrange(1, s.len() as int), c);
        if r < 0 {
            -1
        } else {
            r + 1
        }
    }
}

/// The part of an answer that holds its JSON object: from the first '{' (or the
/// start) through the last '}' (or the end); empty when the last '}' comes
/// before the first '{'.
pub open spec fn json_part(s: Seq<char>) -> Seq<char> {
    let a = if first_index_of(s, '{') < 0 {
        0
    } else {
        first_index_of(s, '{')
    };
    let b = if last_index_of(s, '}') < 0 {
        s.len() as int
    } else {
        last_index_of(s, '}') + 1
    };
    if a <= b {
        s.subrange(a, b)
    } else {
        Seq::empty()
    }
}

proof fn lemma_first_index_bounds(s: Seq<char>, c: char)
    ensures
        -1 <= first_index_of(s, c) < s.len(),
    decreases s.len(),
{
    if s.len() > 0 && s[0] != c {
        lemma_first_index_bounds(s.subrange(1, s.len() as int), c);
    }
}

fn find_first(s: &str, c: char) -> (r: i64)
    requires
        s@.len() < i64::MAX,
    ensures
        r == first_index_of(s@, c),
{
    let n = s.unicode_len();
    let mut i: usize = 0;
    assert(s@.subrange(0, n as int) =~= s@);
    proof {
        lemma_first_index_bounds(s@, c);
    }
    while i < n
        invariant
            n == s@.len(),
            n < i64::MAX,
            i <= n,
            first_index_of(s@, c) == if first_index_of(s@.subrange(i as int, n as int), c) < 0 {
                -1
            } else {
                first_index_of(s@.subrange(i as int, n as int), c) + i
            },
        decreases n - i,
    {
        let ghost rest = s@.subrange(i as int, n as int);
        assert(rest.subrange(1, rest.len() as int) =~= s@.subrange(i + 1, n as int));
        if s.get_char(i) == c {
            assert(rest[0] == c);
            return i as i64;
        }
        i = i + 1;
    }
    assert(s@.subrange(n as int, n as int).len() == 0);
    -1
}

fn find_last_char(s: &str, c: char) -> (r: i64)
    requires
        s@.len() < i64::MAX,
    ensures
        r == last_index_of(s@, c),
{
    let n = s.unicode_len();
    let mut i: usize = n;
    assert(s@.subrange(0, n as int) =~= s@);
    while i > 0
        invariant
            i <= n,
            n == s@.len(),
            n < i64::MAX,
            last_index_of(s@, c) == last_index_of(s@.subrange(0, i as int), c),
        decreases i,
    {
        let ghost sub = s@.subrange(0, i as int);
        assert(sub.drop_last() =~= s@.subrange(0, i - 1));
        if s.get_char(i - 1) == c {
            return (i - 1) as i64;
        }
        i = i - 1;
    }
    -1
}

/// The part of an answer that holds its JSON object (see `json_part`).
pub fn json_object_text(content: &str) -> (r: &str)
    requires
        content@.len() < i64::MAX,
    ensures
        r@ == json_part(content@),
{
    proof {
        lemma_first_index_bounds(content@, '{');
        lemma_last_index_bounds(content@, '}');
    }
    let n = content.unicode_len();
    let f = find_first(content, '{');
    let l = find_last_char(content, '}');
    let a: usize = if f < 0 { 0 } else { f as usize };
    let b: usize = if l < 0 { n } else { (l + 1) as usize };
    if a <= b {
        content.substring_char(a, b)
    } else {
        content.substring_char(0, 0)
    }
}

/// The relationship a name in an answer stands for; unknown names become a
/// generic semantic reference.
pub open spec fn relationship_of_name(name: Seq<char>) -> SemanticRelationship {
    if name == "Calls"@ {
        SemanticRelationship::Calls
    } else if name == "DependsOn"@ {
        SemanticRelationship::DependsOn
    } else if name == "Uses"@ {
        SemanticRelationship::Uses
    } else if name == "Configures"@ {
        SemanticRelationship::Configures
    } else {
        SemanticRelationship::SemanticReference
    }
}

/// The relationship a name in an answer stands for (see `relationship_of_name`).
pub fn relationship_named(name: &str) -> (r: SemanticRelationship)
    ensures
        r == relationship_of_name(name@),
{
    if str_eq(name, "Calls") {
        SemanticRelationship::Calls
    } else if str_eq(name, "DependsOn") {
        SemanticRelationship::DependsOn
    } else if str_eq(name, "Uses") {
        SemanticRelationship::Uses
    } else if str_eq(name, "Configures") {
        SemanticRelationship::Configures
    } else {
        SemanticRelationship::SemanticReference
    }
}

/// One relationship as an answer lists it; the confidence is in thousandths.
pub struct AnsweredRelationship {
    pub source_id: u64,
    pub target_id: u64,
    pub relationship: String,
    pub confidence: u32,
    pub explanation: String,
    pub line_reference: Option<u32>,
}

/// `r` is the inferred relationship an answered one stands for.
pub open spec fn answered_as(r: InferredRelationship, a: AnsweredRelationship) -> bool {
    &&& r.source_id == NodeId(a.source_id)
    &&& r.target_id == NodeId(a.target_id)
    &&& r.relationship == relationship_of_name(a.relationship@)
    &&& r.confidence == a.confidence
    &&& r.explanation@ == a.explanation@
    &&& r.line_reference == a.line_reference
}

/// The inferred relationships an answer lists, in order.
pub fn relationships_from_answer(answer: &Vec<AnsweredRelationship>) -> (r: Vec<InferredRelationship>)
    ensures
        r@.len() == answer@.len(),
        forall|k: int| 0 <= k < r@.len() ==> answered_as(#[trigger] r@[k], answer@[k]),
{
    let mut r: Vec<InferredRelationship> = Vec::new();
    let mut i: usize = 0;
    while i < answer.len()
        invariant
            i <= answer@.len(),
            r@.len() == i,
            forall|k: int| 0 <= k < i ==> answered_as(#[trigger] r@[k], answer@[k]),
        decreases answer@.len() - i,
    {
        let a = &answer[i];
        r.push(InferredRelationship {
            source_id: NodeId(a.source_id),
            target_id: NodeId(a.target_id),
            relationship: relationship_named(a.relationship.as_str()),
            confidence: a.confidence,
            explanation: a.explanation.clone(),
            line_reference: a.line_reference,
        });
        i = i + 1;
    }
    r
}

} // verus!
