//! Tests for the shape model, the model container, the validation
//! framework, and the JSON writer.

use atelier::Version;
use atelier::action::{
    Action, Finding, ReferenceValidator, Severity, ShapeLegalityValidator,
    TraitApplicationValidator, run_actions, validate_model, validation_result,
};
use atelier::error::ModelError;
use atelier::identity::{Identifier, ShapeID};
use atelier::io::{ModelReader, ModelWriter, read_model_from_string, write_model_to_string};
use atelier::json::JsonWriter;
use atelier::model::Model;
use atelier::shapes::{
    AppliedTrait, HasTraits, ListOrSet, MemberShape, Operation, Resource, Service, ShapeKind,
    Simple, StructureOrUnion, TopLevelShape,
};
use atelier::values::{NodeValue, Number};

fn sid(s: &str) -> ShapeID {
    ShapeID::parse(s).unwrap()
}

fn ident(s: &str) -> Identifier {
    Identifier::parse(s).unwrap()
}

fn structure_with(member: &str, target: &str, owner: &str) -> TopLevelShape {
    let owner_id = sid(owner);
    let mut body = StructureOrUnion::new();
    body.add_member(owner_id.make_member(ident(member)), sid(target));
    TopLevelShape::new(owner_id, ShapeKind::Structure(body))
}

#[test]
fn shape_conflict_on_different_bodies() {
    let mut model = Model::new(Version::V10);
    let a = TopLevelShape::new(sid("ns#A"), ShapeKind::Simple(Simple::String));
    model.add_shape(a).unwrap();
    let b = TopLevelShape::new(sid("ns#A"), ShapeKind::Simple(Simple::Integer));
    match model.add_shape(b) {
        Err(ModelError::ShapeIDConflict(c)) => assert_eq!(c, sid("ns#A")),
        other => panic!("expected ShapeIDConflict, got {other:?}"),
    }
    // the model is unchanged by the failed add
    assert_eq!(model.shapes().len(), 1);
}

#[test]
fn shape_merge_unions_traits() {
    let mut model = Model::new(Version::V10);
    let mut a = TopLevelShape::new(sid("ns#A"), ShapeKind::Simple(Simple::String));
    a.apply_trait(AppliedTrait::new(sid("smithy.api#deprecated")));
    model.add_shape(a).unwrap();
    let mut b = TopLevelShape::new(sid("ns#A"), ShapeKind::Simple(Simple::String));
    b.apply_trait(AppliedTrait::with_value(
        sid("smithy.api#documentation"),
        NodeValue::String("docs".to_string()),
    ));
    model.add_shape(b).unwrap();
    let merged = model.shape(&sid("ns#A")).unwrap();
    assert_eq!(merged.traits.len(), 2);
    assert_eq!(merged.traits[0].id, sid("smithy.api#deprecated"));
    assert_eq!(merged.traits[1].id, sid("smithy.api#documentation"));
}

#[test]
fn trait_merge_last_write_wins() {
    let mut shape = TopLevelShape::new(sid("ns#A"), ShapeKind::Simple(Simple::String));
    shape.apply_trait(AppliedTrait::with_value(
        sid("ns#TraitA"),
        NodeValue::Number(Number::Integer(1)),
    ));
    shape.apply_trait(AppliedTrait::with_value(
        sid("ns#TraitA"),
        NodeValue::Number(Number::Integer(2)),
    ));
    assert_eq!(shape.traits.len(), 1);
    assert_eq!(shape.traits[0].id, sid("ns#TraitA"));
    assert_eq!(shape.traits[0].value, Some(NodeValue::Number(Number::Integer(2))));
}

#[test]
fn unresolved_shape_merges_into_structure() {
    let mut model = Model::new(Version::V10);
    let mut placeholder = TopLevelShape::new(sid("ns#W"), ShapeKind::Unresolved);
    placeholder.apply_trait(AppliedTrait::new(sid("smithy.api#deprecated")));
    model.add_shape(placeholder).unwrap();
    let full = structure_with("id", "smithy.api#String", "ns#W");
    model.add_shape(full).unwrap();
    let merged = model.shape(&sid("ns#W")).unwrap();
    assert!(matches!(merged.body, ShapeKind::Structure(_)));
    assert_eq!(merged.traits.len(), 1);
    assert_eq!(merged.traits[0].id, sid("smithy.api#deprecated"));
}

#[test]
fn end_to_end_scenario() {
    let mut model = Model::new(Version::V10);
    model.add_shape(structure_with("id", "ns#WidgetId", "ns#Widget")).unwrap();
    model
        .add_shape(TopLevelShape::new(sid("ns#WidgetId"), ShapeKind::Simple(Simple::String)))
        .unwrap();
    let mut svc = Service::new("2020-01-01");
    svc.add_operation(sid("ns#Missing"));
    model.add_shape(TopLevelShape::new(sid("ns#Catalog"), ShapeKind::Service(svc))).unwrap();
    let findings = validate_model(&model);
    assert_eq!(findings.len(), 1);
    assert_eq!(findings[0].severity, Severity::Error);
    assert_eq!(findings[0].shape, Some(sid("ns#Catalog")));
    assert_eq!(findings[0].code, "UnresolvedReference");
    assert!(findings[0].message.contains("ns#Missing"));
}

#[test]
fn reference_integrity_single_finding() {
    let mut model = Model::new(Version::V10);
    model.add_shape(structure_with("id", "ns#Nope", "ns#Widget")).unwrap();
    let findings = ReferenceValidator::findings(&model);
    assert_eq!(findings.len(), 1);
    assert_eq!(findings[0].severity, Severity::Error);
    assert_eq!(findings[0].shape, Some(sid("ns#Widget")));
    assert_eq!(findings[0].message, "unresolved shape reference: ns#Nope");
}

#[test]
fn prelude_references_resolve() {
    let mut model = Model::new(Version::V10);
    model.add_shape(structure_with("id", "smithy.api#String", "ns#Widget")).unwrap();
    assert_eq!(validate_model(&model).len(), 0);
}

#[test]
fn validation_is_idempotent() {
    let mut model = Model::new(Version::V10);
    model.add_shape(structure_with("id", "ns#Nope", "ns#Widget")).unwrap();
    let mut union_body = StructureOrUnion::new();
    let _ = &mut union_body;
    model.add_shape(TopLevelShape::new(sid("ns#U"), ShapeKind::Union(union_body))).unwrap();
    let first = validate_model(&model);
    let second = validate_model(&model);
    assert_eq!(first, second);
}

#[test]
fn empty_union_is_flagged() {
    let mut model = Model::new(Version::V10);
    let body = StructureOrUnion::new();
    model.add_shape(TopLevelShape::new(sid("ns#U"), ShapeKind::Union(body))).unwrap();
    let findings = ShapeLegalityValidator::findings(&model);
    assert_eq!(findings.len(), 1);
    assert_eq!(findings[0].code, "EmptyUnion");
    assert_eq!(findings[0].shape, Some(sid("ns#U")));
}

#[test]
fn operation_binding_must_be_structure() {
    let mut model = Model::new(Version::V10);
    let mut op = Operation::new();
    op.input = Some(sid("ns#NotAStructure"));
    model.add_shape(TopLevelShape::new(sid("ns#Op"), ShapeKind::Operation(op))).unwrap();
    model
        .add_shape(TopLevelShape::new(sid("ns#NotAStructure"), ShapeKind::Simple(Simple::String)))
        .unwrap();
    let findings = ShapeLegalityValidator::findings(&model);
    assert_eq!(findings.len(), 1);
    assert_eq!(findings[0].code, "OperationBinding");
    assert_eq!(findings[0].shape, Some(sid("ns#Op")));
}

#[test]
fn operation_binding_into_prelude_is_flagged() {
    let mut model = Model::new(Version::V10);
    let mut op = Operation::new();
    op.output = Some(sid("smithy.api#String"));
    model.add_shape(TopLevelShape::new(sid("ns#Op"), ShapeKind::Operation(op))).unwrap();
    let findings = ShapeLegalityValidator::findings(&model);
    assert_eq!(findings.len(), 1);
    assert_eq!(findings[0].code, "OperationBinding");
}

#[test]
fn resource_identifier_must_be_simple() {
    let mut model = Model::new(Version::V10);
    let mut res = Resource::new();
    res.add_identifier(ident("id"), sid("ns#Complex"));
    model.add_shape(TopLevelShape::new(sid("ns#R"), ShapeKind::Resource(res))).unwrap();
    model
        .add_shape(TopLevelShape::new(
            sid("ns#Complex"),
            ShapeKind::Structure(StructureOrUnion::new()),
        ))
        .unwrap();
    let findings = ShapeLegalityValidator::findings(&model);
    assert_eq!(findings.len(), 1);
    assert_eq!(findings[0].code, "ResourceIdentifierType");
    assert_eq!(findings[0].shape, Some(sid("ns#R")));
}

#[test]
fn forbidden_trait_application_is_flagged() {
    let mut model = Model::new(Version::V10);
    let mut svc = TopLevelShape::new(sid("ns#S"), ShapeKind::Service(Service::new("1")));
    svc.apply_trait(AppliedTrait::new(sid("smithy.api#error")));
    model.add_shape(svc).unwrap();
    let findings = TraitApplicationValidator::findings(&model);
    assert_eq!(findings.len(), 1);
    assert_eq!(findings[0].code, "TraitTarget");
    assert_eq!(findings[0].shape, Some(sid("ns#S")));

    let mut model2 = Model::new(Version::V10);
    let mut st = TopLevelShape::new(
        sid("ns#E"),
        ShapeKind::Structure(StructureOrUnion::new()),
    );
    st.apply_trait(AppliedTrait::new(sid("smithy.api#error")));
    model2.add_shape(st).unwrap();
    assert_eq!(TraitApplicationValidator::findings(&model2).len(), 0);
}

struct FailingAction;

impl Action for FailingAction {
    fn action_name(&self) -> String {
        "FailingAction".to_string()
    }

    fn check_model(&self, _model: &Model) -> Result<Vec<Finding>, ModelError> {
        Err(ModelError::ActionFailure("deliberate malfunction".to_string()))
    }
}

#[test]
fn failing_action_aborts_run() {
    let model = Model::new(Version::V10);
    let actions = vec![FailingAction];
    match run_actions(&actions, &model) {
        Err(ModelError::ActionFailure(msg)) => assert_eq!(msg, "deliberate malfunction"),
        other => panic!("expected ActionFailure, got {other:?}"),
    }
}

#[test]
fn run_actions_concatenates_findings() {
    let mut model = Model::new(Version::V10);
    model.add_shape(structure_with("id", "ns#Nope", "ns#Widget")).unwrap();
    let actions = vec![ReferenceValidator::new()];
    let findings = run_actions(&actions, &model).unwrap();
    assert_eq!(findings.len(), 1);
}

#[test]
fn validation_result_partitions_by_severity() {
    let mut model = Model::new(Version::V10);
    model.add_shape(structure_with("id", "ns#Nope", "ns#Widget")).unwrap();
    let findings = validate_model(&model);
    match validation_result(findings) {
        Err(e) => assert_eq!(e.findings.len(), 1),
        Ok(_) => panic!("expected an error-bearing validation result"),
    }
    match validation_result(Vec::new()) {
        Ok(fs) => assert_eq!(fs.len(), 0),
        Err(_) => panic!("expected an empty result to pass"),
    }
}

#[test]
fn metadata_last_write_wins() {
    let mut model = Model::new(Version::V10);
    assert!(!model.has_metadata());
    model.set_metadata("k".to_string(), NodeValue::String("a".to_string()));
    model.set_metadata("k".to_string(), NodeValue::String("b".to_string()));
    assert!(model.has_metadata());
    assert_eq!(model.metadata_value("k"), Some(&NodeValue::String("b".to_string())));
    assert_eq!(model.metadata_value("missing"), None);
}

#[test]
fn structure_member_replacement() {
    let owner = sid("ns#S");
    let mut body = StructureOrUnion::new();
    body.add_member(owner.make_member(ident("id")), sid("ns#A"));
    body.add_member(owner.make_member(ident("id")), sid("ns#B"));
    assert_eq!(body.members.len(), 1);
    assert_eq!(body.members[0].target, sid("ns#B"));
    assert!(body.has_members());
}

#[test]
fn service_operations_have_set_semantics() {
    let mut svc = Service::new("2020-01-01");
    svc.add_operation(sid("ns#Op"));
    svc.add_operation(sid("ns#Op"));
    svc.add_resource(sid("ns#R"));
    assert_eq!(svc.operations.len(), 1);
    assert_eq!(svc.resources.len(), 1);
}

#[test]
fn resource_identifier_replacement() {
    let mut res = Resource::new();
    res.add_identifier(ident("id"), sid("ns#A"));
    res.add_identifier(ident("id"), sid("ns#B"));
    res.add_operation(sid("ns#Op"));
    assert_eq!(res.identifiers.len(), 1);
    assert_eq!(res.identifiers[0].1, sid("ns#B"));
    assert_eq!(res.operations.len(), 1);
}

#[test]
fn members_bear_traits() {
    let owner = sid("ns#S");
    let mut member = MemberShape::new(owner.make_member(ident("id")), sid("ns#A"));
    assert!(!member.has_traits());
    member.apply_trait(AppliedTrait::new(sid("smithy.api#required")));
    assert!(member.has_traits());
    assert!(member.has_trait(&sid("smithy.api#required")));
    assert!(!member.has_trait(&sid("smithy.api#deprecated")));
    assert_eq!(member.traits().len(), 1);
}

#[test]
fn list_and_set_bodies_hold_their_member() {
    let owner = sid("ns#L");
    let member = MemberShape::new(owner.make_member(ident("member")), sid("ns#E"));
    let body = ListOrSet::new(member);
    assert_eq!(body.member.target, sid("ns#E"));
}

#[test]
fn json_writer_renders_exact_text() {
    let mut model = Model::new(Version::V10);
    model
        .add_shape(TopLevelShape::new(sid("ns#Date"), ShapeKind::Simple(Simple::String)))
        .unwrap();
    let mut writer = JsonWriter::new(false);
    let text = writer.write(&model).unwrap();
    assert_eq!(text, r#"{"shapes":{"ns#Date":{"type":"string"}},"smithy":"1.0"}"#);
}

#[test]
fn json_writer_renders_members_and_traits() {
    let mut model = Model::new(Version::V10);
    let mut shape = structure_with("id", "smithy.api#String", "ns#Widget");
    shape.apply_trait(AppliedTrait::with_value(
        sid("smithy.api#documentation"),
        NodeValue::String("a widget".to_string()),
    ));
    model.add_shape(shape).unwrap();
    let mut writer = JsonWriter::default();
    let text = write_model_to_string(&mut writer, &model).unwrap();
    let parsed: serde_json::Value = serde_json::from_str(&text).unwrap();
    assert_eq!(parsed["smithy"], "1.0");
    let widget = &parsed["shapes"]["ns#Widget"];
    assert_eq!(widget["type"], "structure");
    assert_eq!(widget["members"]["id"]["target"], "smithy.api#String");
    assert_eq!(widget["traits"]["smithy.api#documentation"], "a widget");
}

#[test]
fn json_writer_renders_metadata_and_values() {
    let mut model = Model::new(Version::V10);
    let entries = vec![
        ("flag".to_string(), NodeValue::Boolean(true)),
        ("count".to_string(), NodeValue::Number(Number::Integer(3))),
    ];
    model.set_metadata("info".to_string(), NodeValue::Object(entries));
    model.set_metadata("tags".to_string(), NodeValue::Array(vec![
        NodeValue::String("x".to_string()),
        NodeValue::Null,
    ]));
    let mut writer = JsonWriter::new(false);
    let text = writer.write(&model).unwrap();
    let parsed: serde_json::Value = serde_json::from_str(&text).unwrap();
    let md = &parsed["shapes"]["metadata"];
    assert_eq!(md["info"]["flag"], true);
    assert_eq!(md["info"]["count"], 3);
    assert_eq!(md["tags"][0], "x");
    assert_eq!(md["tags"][1], serde_json::Value::Null);
}

#[test]
fn json_writer_refuses_floats() {
    let mut model = Model::new(Version::V10);
    model.set_metadata(
        "pi".to_string(),
        NodeValue::Number(Number::Float(3.25f64.to_bits())),
    );
    let mut writer = JsonWriter::new(false);
    match writer.write(&model) {
        Err(ModelError::Serialization(_)) => {},
        other => panic!("expected a Serialization error, got {other:?}"),
    }
}

struct EmptyModelReader;

impl ModelReader for EmptyModelReader {
    fn representation(&self) -> String {
        "empty".to_string()
    }

    fn read_bytes(&mut self, _input: &[u8]) -> Result<Model, ModelError> {
        Ok(Model::new(Version::V10))
    }
}

#[test]
fn reader_contract_round_trip() {
    let mut reader = EmptyModelReader;
    assert_eq!(reader.representation(), "empty");
    let model = read_model_from_string(&mut reader, "{}").unwrap();
    assert_eq!(model.shapes().len(), 0);
    let mut writer = JsonWriter::new(false);
    assert_eq!(ModelWriter::representation(&writer), "json");
    let text = write_model_to_string(&mut writer, &model).unwrap();
    assert_eq!(text, r#"{"shapes":{},"smithy":"1.0"}"#);
}

#[test]
fn map_body_holds_key_and_value() {
    let owner = sid("ns#M");
    let key = MemberShape::new(owner.make_member(ident("key")), sid("smithy.api#String"));
    let value = MemberShape::new(owner.make_member(ident("value")), sid("ns#E"));
    let body = atelier::shapes::MapShape::new(key, value);
    assert_eq!(body.key.target, sid("smithy.api#String"));
    assert_eq!(body.value.target, sid("ns#E"));
}

#[test]
fn operation_errors_have_set_semantics() {
    let mut op = Operation::default();
    op.add_error(sid("ns#Bad"));
    op.add_error(sid("ns#Bad"));
    assert_eq!(op.errors.len(), 1);
    assert!(op.input.is_none());
    assert!(op.output.is_none());
}

#[test]
fn prelude_namespace_is_wellformed() {
    let ns = atelier::prelude::prelude_namespace();
    assert_eq!(ns.to_string(), "smithy.api");
    assert!(atelier::prelude::is_prelude_shape_id(&sid("smithy.api#String")));
    assert!(!atelier::prelude::is_prelude_shape_id(&sid("ns#String")));
    assert!(atelier::prelude::prelude_simple_name("String"));
    assert!(!atelier::prelude::prelude_simple_name("Widget"));
}

#[test]
fn pretty_rendering_parses_back() {
    let mut model = Model::new(Version::V10);
    model
        .add_shape(TopLevelShape::new(sid("ns#Date"), ShapeKind::Simple(Simple::Timestamp)))
        .unwrap();
    let mut writer = JsonWriter::new(true);
    let text = writer.write(&model).unwrap();
    assert!(text.contains('\n'));
    let parsed: serde_json::Value = serde_json::from_str(&text).unwrap();
    assert_eq!(parsed["shapes"]["ns#Date"]["type"], "timestamp");
}

#[test]
fn trait_value_references_are_validated() {
    let mut model = Model::new(Version::V10);
    let mut shape = TopLevelShape::new(sid("ns#A"), ShapeKind::Simple(Simple::String));
    shape.apply_trait(AppliedTrait::with_value(
        sid("smithy.api#documentation"),
        NodeValue::Array(vec![NodeValue::ShapeID(sid("ns#Ghost"))]),
    ));
    model.add_shape(shape).unwrap();
    let findings = ReferenceValidator::findings(&model);
    assert_eq!(findings.len(), 1);
    assert_eq!(findings[0].shape, Some(sid("ns#A")));
    assert!(findings[0].message.contains("ns#Ghost"));
}

#[test]
fn shorthand_shape_id_resolves_against_default_namespace() {
    let ns = atelier::identity::NamespaceID::parse("example.motd").unwrap();
    let sid1 = ShapeID::parse_with_default("Widget", &ns).unwrap();
    assert_eq!(sid1.to_string(), "example.motd#Widget");
    let sid2 = ShapeID::parse_with_default("Widget$id", &ns).unwrap();
    assert_eq!(sid2.to_string(), "example.motd#Widget$id");
    let sid3 = ShapeID::parse_with_default("other.ns#Thing", &ns).unwrap();
    assert_eq!(sid3.to_string(), "other.ns#Thing");
    assert!(ShapeID::parse_with_default("9bad", &ns).is_err());
}

#[test]
fn remove_shape_returns_the_shape() {
    let mut model = Model::new(Version::V10);
    model
        .add_shape(TopLevelShape::new(sid("ns#A"), ShapeKind::Simple(Simple::String)))
        .unwrap();
    model
        .add_shape(TopLevelShape::new(sid("ns#B"), ShapeKind::Simple(Simple::Long)))
        .unwrap();
    let removed = model.remove_shape(&sid("ns#A")).unwrap();
    assert_eq!(removed.id, sid("ns#A"));
    assert_eq!(model.shapes().len(), 1);
    assert!(model.shape(&sid("ns#A")).is_none());
    assert!(model.remove_shape(&sid("ns#A")).is_none());
}

#[test]
fn object_value_equality_ignores_entry_order() {
    let a = NodeValue::Object(vec![
        ("x".to_string(), NodeValue::Number(Number::Integer(1))),
        ("y".to_string(), NodeValue::Number(Number::Integer(2))),
    ]);
    let b = NodeValue::Object(vec![
        ("y".to_string(), NodeValue::Number(Number::Integer(2))),
        ("x".to_string(), NodeValue::Number(Number::Integer(1))),
    ]);
    let c = NodeValue::Object(vec![
        ("x".to_string(), NodeValue::Number(Number::Integer(1))),
        ("y".to_string(), NodeValue::Number(Number::Integer(3))),
    ]);
    assert_eq!(a, b);
    assert_ne!(a, c);
    // arrays stay order-sensitive
    let p = NodeValue::Array(vec![NodeValue::Boolean(true), NodeValue::Boolean(false)]);
    let q = NodeValue::Array(vec![NodeValue::Boolean(false), NodeValue::Boolean(true)]);
    assert_ne!(p, q);
    // no implicit numeric coercion between integers and floats
    let i = NodeValue::Number(Number::Integer(1));
    let f = NodeValue::Number(Number::Float(1.0f64.to_bits()));
    assert_ne!(i, f);
}

#[test]
fn run_actions_with_no_actions_yields_no_findings() {
    let model = Model::new(Version::V10);
    let actions: Vec<ReferenceValidator> = Vec::new();
    let findings = run_actions(&actions, &model).unwrap();
    assert_eq!(findings.len(), 0);
}

#[test]
fn invalid_model_still_serializes() {
    // an unresolved reference blocks validation, not serialization: the
    // model stays readable and the dangling target is written verbatim
    let mut model = Model::new(Version::V10);
    model.add_shape(structure_with("id", "ns#WidgetId", "ns#Widget")).unwrap();
    model
        .add_shape(TopLevelShape::new(sid("ns#WidgetId"), ShapeKind::Simple(Simple::String)))
        .unwrap();
    let mut svc = Service::new("2020-01-01");
    svc.add_operation(sid("ns#Missing"));
    model.add_shape(TopLevelShape::new(sid("ns#Catalog"), ShapeKind::Service(svc))).unwrap();
    assert_eq!(validate_model(&model).len(), 1);
    let mut writer = JsonWriter::new(false);
    let text = writer.write(&model).unwrap();
    let again = writer.write(&model).unwrap();
    assert_eq!(text, again);
    let parsed: serde_json::Value = serde_json::from_str(&text).unwrap();
    assert_eq!(parsed["shapes"]["ns#Catalog"]["operations"][0]["target"], "ns#Missing");
    assert_eq!(parsed["shapes"]["ns#Widget"]["members"]["id"]["target"], "ns#WidgetId");
    assert_eq!(parsed["shapes"]["ns#WidgetId"]["type"], "string");
}
