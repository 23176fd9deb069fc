use canopy::answer::{json_object_text, relationship_named, relationships_from_answer, AnsweredRelationship};
use canopy::model::NodeId;
use canopy::semantic::SemanticRelationship;

#[test]
fn json_object_is_cut_out_of_the_answer() {
    assert_eq!(json_object_text("Here you go: {\"a\": {\"b\": 1}} thanks"), "{\"a\": {\"b\": 1}}");
    assert_eq!(json_object_text("{\"x\": 1}"), "{\"x\": 1}");
    assert_eq!(json_object_text("no braces"), "no braces");
    assert_eq!(json_object_text("} then {"), "");
    assert_eq!(json_object_text(""), "");
}

#[test]
fn relationship_names() {
    assert_eq!(relationship_named("Calls"), SemanticRelationship::Calls);
    assert_eq!(relationship_named("DependsOn"), SemanticRelationship::DependsOn);
    assert_eq!(relationship_named("Uses"), SemanticRelationship::Uses);
    assert_eq!(relationship_named("Configures"), SemanticRelationship::Configures);
    assert_eq!(relationship_named("Frobs"), SemanticRelationship::SemanticReference);
}

#[test]
fn answered_relationships_convert_in_order() {
    let answer = vec![
        AnsweredRelationship {
            source_id: 3,
            target_id: 4,
            relationship: "Calls".to_string(),
            confidence: 900,
            explanation: "f calls g".to_string(),
            line_reference: Some(12),
        },
        AnsweredRelationship {
            source_id: 3,
            target_id: 5,
            relationship: "Mentions".to_string(),
            confidence: 400,
            explanation: "weak".to_string(),
            line_reference: None,
        },
    ];
    let r = relationships_from_answer(&answer);
    assert_eq!(r.len(), 2);
    assert_eq!((r[0].source_id, r[0].target_id, r[0].relationship, r[0].confidence), (NodeId(3), NodeId(4), SemanticRelationship::Calls, 900));
    assert_eq!((r[0].explanation.as_str(), r[0].line_reference), ("f calls g", Some(12)));
    assert_eq!(r[1].relationship, SemanticRelationship::SemanticReference);
}
