//! Writing a model in the JSON AST representation.
//!
//! The mapping from a model to its JSON document tree is specified and
//! verified here; only the final rendering of the tree as text is delegated
//! to an outside serializer behind a trusted wrapper.

use vstd::prelude::*;
use vstd::string::*;

verus! {

broadcast use vstd::seq::axiom_seq_index_decreases, vstd::seq::axiom_seq_subrange_decreases, vstd::std_specs::vec::axiom_vec_decreases_to_view, vstd::std_specs::vec::axiom_vec_index_decreases;

use crate::error::ModelError;
use crate::identity::{Identifier, ShapeID, shape_id_text};
use crate::model::Model;
use crate::shapes::{
    AppliedTrait,
    MemberShape,
    ShapeKind,
    TopLevelShape,
    member_key,
    simple_type_text,
};
use crate::values::{NodeValue, Number};

// ------------------------------------------------------------------------
// The JSON document model
// ------------------------------------------------------------------------

/// The mathematical form of a JSON document.
pub enum JsonNode {
    Null,
    Bool(bool),
    Int(i64),
    /// A floating-point number, carried as its IEEE 754 bit pattern.
    FloatBits(u64),
    Str(Seq<char>),
    Arr(Seq<JsonNode>),
    Obj(Seq<(Seq<char>, JsonNode)>),
}

/// An executable JSON document tree.
#[derive(Debug, PartialEq)]
pub enum JsonValue {
    Null,
    Bool(bool),
    Int(i64),
    /// A floating-point number, carried as its IEEE 754 bit pattern.
    FloatBits(u64),
    Str(String),
    Arr(Vec<JsonValue>),
    Obj(Vec<(String, JsonValue)>),
}

/// The mathematical view of an executable document tree.
pub open spec fn json_view(v: JsonValue) -> JsonNode
    decreases v,
{
    match v {
        JsonValue::Null => JsonNode::Null,
        JsonValue::Bool(b) => JsonNode::Bool(b),
        JsonValue::Int(i) => JsonNode::Int(i),
        JsonValue::FloatBits(bits) => JsonNode::FloatBits(bits),
        JsonValue::Str(s) => JsonNode::Str(s@),
        JsonValue::Arr(a) => JsonNode::Arr(json_views(a@)),
        JsonValue::Obj(o) => JsonNode::Obj(json_entry_views(o@)),
    }
}

/// The views of a document list.
pub open spec fn json_views(a: Seq<JsonValue>) -> Seq<JsonNode>
    decreases a,
{
    if a.len() == 0 {
        Seq::<JsonNode>::empty()
    } else {
        json_views(a.drop_last()).push(json_view(a.last()))
    }
}

/// The views of an object entry list.
pub open spec fn json_entry_views(o: Seq<(String, JsonValue)>) -> Seq<(Seq<char>, JsonNode)>
    decreases o,
{
    if o.len() == 0 {
        Seq::<(Seq<char>, JsonNode)>::empty()
    } else {
        json_entry_views(o.drop_last()).push((o.last().0@, json_view(o.last().1)))
    }
}

/// Pointwise reading of `json_views`.
pub proof fn lemma_json_views_index(a: Seq<JsonValue>)
    ensures
        json_views(a).len() == a.len(),
        forall|i: int| 0 <= i < a.len() ==> #[trigger] json_views(a)[i] == json_view(a[i]),
    decreases a,
{
    if a.len() > 0 {
        lemma_json_views_index(a.drop_last());
        assert forall|i: int| 0 <= i < a.len() implies #[trigger] json_views(a)[i] == json_view(
            a[i],
        ) by {
            if i < a.len() - 1 {
                assert(a.drop_last()[i] == a[i]);
                assert(json_views(a.drop_last())[i] == json_view(a.drop_last()[i]));
            } else {
                assert(a.last() == a[i]);
            }
        }
    }
}

/// Pointwise reading of `json_entry_views`.
pub proof fn lemma_json_entry_views_index(o: Seq<(String, JsonValue)>)
    ensures
        json_entry_views(o).len() == o.len(),
        forall|i: int|
            0 <= i < o.len() ==> #[trigger] json_entry_views(o)[i] == (o[i].0@, json_view(
                o[i].1,
            )),
    decreases o,
{
    if o.len() > 0 {
        lemma_json_entry_views_index(o.drop_last());
        assert forall|i: int|
            0 <= i < o.len() implies #[trigger] json_entry_views(o)[i] == (o[i].0@, json_view(
            o[i].1,
        )) by {
            if i < o.len() - 1 {
                assert(o.drop_last()[i] == o[i]);
                assert(json_entry_views(o.drop_last())[i] == (o.drop_last()[i].0@, json_view(
                    o.drop_last()[i].1,
                )));
            } else {
                assert(o.last() == o[i]);
            }
        }
    }
}

impl View for JsonValue {
    type V = JsonNode;

    open spec fn view(&self) -> JsonNode {
        json_view(*self)
    }
}

/// Whether a document holds no floating-point number anywhere.
pub open spec fn float_free(n: JsonNode) -> bool
    decreases n,
{
    match n {
        JsonNode::FloatBits(_) => false,
        JsonNode::Arr(a) => forall|i: int| 0 <= i < a.len() ==> float_free(#[trigger] a[i]),
        JsonNode::Obj(o) => forall|i: int| 0 <= i < o.len() ==> float_free((#[trigger] o[i]).1),
        _ => true,
    }
}

// ------------------------------------------------------------------------
// The JSON document of a model
// ------------------------------------------------------------------------

/// The JSON form of a literal value.
pub open spec fn json_of_value(v: NodeValue) -> JsonNode
    decreases v,
{
    match v {
        NodeValue::Null => JsonNode::Null,
        NodeValue::Boolean(b) => JsonNode::Bool(b),
        NodeValue::Number(num) => match num {
            Number::Integer(i) => JsonNode::Int(i),
            Number::Float(bits) => JsonNode::FloatBits(bits),
        },
        NodeValue::String(s) => JsonNode::Str(s@),
        NodeValue::TextBlock(s) => JsonNode::Str(s@),
        NodeValue::ShapeID(sid) => JsonNode::Str(shape_id_text(sid)),
        NodeValue::Array(vs) => JsonNode::Arr(json_of_values(vs@)),
        NodeValue::Object(es) => JsonNode::Obj(json_of_entries(es@)),
    }
}

/// The JSON forms of a value list.
pub open spec fn json_of_values(vs: Seq<NodeValue>) -> Seq<JsonNode>
    decreases vs,
{
    if vs.len() == 0 {
        Seq::<JsonNode>::empty()
    } else {
        json_of_values(vs.drop_last()).push(json_of_value(vs.last()))
    }
}

/// The JSON forms of an object entry list.
pub open spec fn json_of_entries(es: Seq<(String, NodeValue)>) -> Seq<(Seq<char>, JsonNode)>
    decreases es,
{
    if es.len() == 0 {
        Seq::<(Seq<char>, JsonNode)>::empty()
    } else {
        json_of_entries(es.drop_last()).push((es.last().0@, json_of_value(es.last().1)))
    }
}

/// The JSON form of one applied trait's value: its literal value, or the
/// empty object when the trait carries none.
pub open spec fn json_of_trait_value(o: Option<NodeValue>) -> JsonNode {
    match o {
        Some(v) => json_of_value(v),
        None => JsonNode::Obj(Seq::<(Seq<char>, JsonNode)>::empty()),
    }
}

/// The JSON form of a trait list: an object keyed by trait identifier.
pub open spec fn json_of_traits(ts: Seq<AppliedTrait>) -> JsonNode {
    JsonNode::Obj(
        Seq::new(ts.len(), |i: int| (shape_id_text(ts[i].id), json_of_trait_value(ts[i].value))),
    )
}

/// The JSON form of a shape reference: an object with a single `target`.
pub open spec fn json_reference(sid: ShapeID) -> JsonNode {
    JsonNode::Obj(seq![("target"@, JsonNode::Str(shape_id_text(sid)))])
}

/// The JSON form of one member: its traits, if any, then its target.
pub open spec fn json_of_member(m: MemberShape) -> JsonNode {
    JsonNode::Obj(
        (if m.traits@.len() > 0 {
            seq![("traits"@, json_of_traits(m.traits@))]
        } else {
            Seq::<(Seq<char>, JsonNode)>::empty()
        }) + seq![("target"@, JsonNode::Str(shape_id_text(m.target)))],
    )
}

/// The JSON form of a member list: an object keyed by member name.
pub open spec fn json_of_members(ms: Seq<MemberShape>) -> JsonNode {
    JsonNode::Obj(Seq::new(ms.len(), |i: int| (member_key(ms[i]), json_of_member(ms[i]))))
}

/// The JSON form of a reference list.
pub open spec fn json_refs_array(s: Seq<ShapeID>) -> JsonNode {
    JsonNode::Arr(Seq::new(s.len(), |i: int| json_reference(s[i])))
}

/// The JSON form of a resource's identifier mapping.
pub open spec fn json_idents_obj(es: Seq<(Identifier, ShapeID)>) -> JsonNode {
    JsonNode::Obj(
        Seq::new(es.len(), |i: int| (es[i].0.value@, JsonNode::Str(shape_id_text(es[i].1)))),
    )
}

pub open spec fn opt_ref_entry(k: Seq<char>, o: Option<ShapeID>) -> Seq<(Seq<char>, JsonNode)> {
    match o {
        Some(t) => seq![(k, json_reference(t))],
        None => Seq::<(Seq<char>, JsonNode)>::empty(),
    }
}

pub open spec fn type_entry(name: Seq<char>) -> Seq<(Seq<char>, JsonNode)> {
    seq![("type"@, JsonNode::Str(name))]
}

/// The body-specific entries of a shape's JSON object.
pub open spec fn kind_entries(k: ShapeKind) -> Seq<(Seq<char>, JsonNode)> {
    match k {
        ShapeKind::Simple(sm) => type_entry(simple_type_text(sm)),
        ShapeKind::List(b) => type_entry("list"@) + seq![
            ("member"@, json_reference(b.member.target)),
        ],
        ShapeKind::SetShape(b) => type_entry("set"@) + seq![
            ("member"@, json_reference(b.member.target)),
        ],
        ShapeKind::MapShape(b) => type_entry("map"@) + seq![
            ("key"@, json_reference(b.key.target)),
            ("value"@, json_reference(b.value.target)),
        ],
        ShapeKind::Structure(b) => type_entry("structure"@) + (if b.members@.len() > 0 {
            seq![("members"@, json_of_members(b.members@))]
        } else {
            Seq::<(Seq<char>, JsonNode)>::empty()
        }),
        ShapeKind::Union(b) => type_entry("union"@) + (if b.members@.len() > 0 {
            seq![("members"@, json_of_members(b.members@))]
        } else {
            Seq::<(Seq<char>, JsonNode)>::empty()
        }),
        ShapeKind::Service(b) => type_entry("service"@) + seq![
            ("version"@, JsonNode::Str(b.version@)),
        ] + (if b.operations@.len() > 0 {
            seq![("operations"@, json_refs_array(b.operations@))]
        } else {
            Seq::<(Seq<char>, JsonNode)>::empty()
        }) + (if b.resources@.len() > 0 {
            seq![("resources"@, json_refs_array(b.resources@))]
        } else {
            Seq::<(Seq<char>, JsonNode)>::empty()
        }),
        ShapeKind::Operation(b) => type_entry("operation"@) + opt_ref_entry("input"@, b.input)
            + opt_ref_entry("output"@, b.output) + (if b.errors@.len() > 0 {
            seq![("errors"@, json_refs_array(b.errors@))]
        } else {
            Seq::<(Seq<char>, JsonNode)>::empty()
        }),
        ShapeKind::Resource(b) => type_entry("resource"@) + (if b.identifiers@.len() > 0 {
            seq![("identifiers"@, json_idents_obj(b.identifiers@))]
        } else {
            Seq::<(Seq<char>, JsonNode)>::empty()
        }) + opt_ref_entry("create"@, b.create) + opt_ref_entry("put"@, b.put) + opt_ref_entry(
            "read"@,
            b.read,
        ) + opt_ref_entry("update"@, b.update) + opt_ref_entry("delete"@, b.delete)
            + opt_ref_entry("list"@, b.list) + (if b.operations@.len() > 0 {
            seq![("operations"@, json_refs_array(b.operations@))]
        } else {
            Seq::<(Seq<char>, JsonNode)>::empty()
        }) + (if b.collection_operations@.len() > 0 {
            seq![("collectionOperations"@, json_refs_array(b.collection_operations@))]
        } else {
            Seq::<(Seq<char>, JsonNode)>::empty()
        }) + (if b.resources@.len() > 0 {
            seq![("resources"@, json_refs_array(b.resources@))]
        } else {
            Seq::<(Seq<char>, JsonNode)>::empty()
        }),
        ShapeKind::Unresolved => type_entry("apply"@),
    }
}

/// The JSON object of one shape: its traits, if any, then its body entries.
pub open spec fn json_of_shape(s: TopLevelShape) -> JsonNode {
    JsonNode::Obj(
        (if s.traits@.len() > 0 {
            seq![("traits"@, json_of_traits(s.traits@))]
        } else {
            Seq::<(Seq<char>, JsonNode)>::empty()
        }) + kind_entries(s.body),
    )
}

/// The entries of the document's `shapes` object: one entry per shape, keyed
/// by its identifier, followed by the model metadata under `metadata` when
/// any is present.
pub open spec fn shapes_entries(m: Model) -> Seq<(Seq<char>, JsonNode)> {
    Seq::new(m.shapes@.len(), |i: int| (shape_id_text(m.shapes@[i].id), json_of_shape(m.shapes@[i])))
        + (if m.metadata@.len() > 0 {
        seq![
            ("metadata"@, JsonNode::Obj(
                Seq::new(m.metadata@.len(), |i: int| (m.metadata@[i].0@, json_of_value(
                    m.metadata@[i].1,
                ))),
            )),
        ]
    } else {
        Seq::<(Seq<char>, JsonNode)>::empty()
    })
}

/// The whole JSON document of a model.
pub open spec fn json_of_model(m: Model) -> JsonNode {
    JsonNode::Obj(
        seq![
            ("smithy"@, JsonNode::Str(crate::version_text(m.smithy_version))),
            ("shapes"@, JsonNode::Obj(shapes_entries(m))),
        ],
    )
}

// ------------------------------------------------------------------------
// Building the document
// ------------------------------------------------------------------------

/// Concatenation distributes over entry views.
proof fn lemma_entry_views_concat(a: Seq<(String, JsonValue)>, b: Seq<(String, JsonValue)>)
    ensures
        json_entry_views(a + b) == json_entry_views(a) + json_entry_views(b),
{
    lemma_json_entry_views_index(a);
    lemma_json_entry_views_index(b);
    lemma_json_entry_views_index(a + b);
    assert(json_entry_views(a + b) =~= json_entry_views(a) + json_entry_views(b));
}

/// Build the JSON form of a literal value.
#[verifier::loop_isolation(false)]
pub fn value_to_json(v: &NodeValue) -> (r: JsonValue)
    ensures
        r@ == json_of_value(*v),
    decreases *v,
{
    match v {
        NodeValue::Null => JsonValue::Null,
        NodeValue::Boolean(b) => JsonValue::Bool(*b),
        NodeValue::Number(num) => match num {
            Number::Integer(i) => JsonValue::Int(*i),
            Number::Float(bits) => JsonValue::FloatBits(*bits),
        },
        NodeValue::String(s) => JsonValue::Str(s.clone()),
        NodeValue::TextBlock(s) => JsonValue::Str(s.clone()),
        NodeValue::ShapeID(sid) => JsonValue::Str(sid.to_string()),
        NodeValue::Array(vs) => {
            let n = vs.len();
            let mut items: Vec<JsonValue> = Vec::new();
            let mut i: usize = 0;
            proof {
                assert(vs@.subrange(0, 0) =~= Seq::<NodeValue>::empty());
            }
            while i < n
                invariant
                    0 <= i <= n,
                    json_views(items@) == json_of_values(vs@.subrange(0, i as int)),
                decreases n - i,
            {
                let ghost items_pre = items@;
                let x = value_to_json(&vs[i]);
                items.push(x);
                proof {
                    let pre = vs@.subrange(0, i as int);
                    let post = vs@.subrange(0, i + 1);
                    assert(post.drop_last() =~= pre);
                    assert(post.last() == vs@[i as int]);
                    assert(items@.drop_last() =~= items_pre);
                    assert(json_views(items@) == json_of_values(post));
                }
                i += 1;
            }
            proof {
                assert(vs@.subrange(0, n as int) =~= vs@);
            }
            JsonValue::Arr(items)
        },
        NodeValue::Object(es) => {
            let n = es.len();
            let mut entries: Vec<(String, JsonValue)> = Vec::new();
            let mut i: usize = 0;
            proof {
                assert(es@.subrange(0, 0) =~= Seq::<(String, NodeValue)>::empty());
            }
            while i < n
                invariant
                    0 <= i <= n,
                    json_entry_views(entries@) == json_of_entries(es@.subrange(0, i as int)),
                decreases n - i,
            {
                let ghost entries_pre = entries@;
                let x = value_to_json(&es[i].1);
                let k = es[i].0.clone();
                entries.push((k, x));
                proof {
                    let pre = es@.subrange(0, i as int);
                    let post = es@.subrange(0, i + 1);
                    assert(post.drop_last() =~= pre);
                    assert(post.last() == es@[i as int]);
                    assert(entries@.drop_last() =~= entries_pre);
                    assert(json_entry_views(entries@) == json_of_entries(post));
                }
                i += 1;
            }
            proof {
                assert(es@.subrange(0, n as int) =~= es@);
            }
            JsonValue::Obj(entries)
        },
    }
}

/// Build the JSON form of a trait list.
#[verifier::loop_isolation(false)]
pub fn traits_to_json(ts: &Vec<AppliedTrait>) -> (r: JsonValue)
    ensures
        r@ == json_of_traits(ts@),
{
    let n = ts.len();
    let mut entries: Vec<(String, JsonValue)> = Vec::new();
    let mut i: usize = 0;
    while i < n
        invariant
            0 <= i <= n,
            entries@.len() == i,
            forall|j: int|
                0 <= j < i ==> (#[trigger] entries@[j]).0@ == shape_id_text(ts@[j].id)
                    && json_view(entries@[j].1) == json_of_trait_value(ts@[j].value),
        decreases n - i,
    {
        let key = ts[i].id.to_string();
        let val = match &ts[i].value {
            Some(v) => value_to_json(v),
            None => JsonValue::Obj(Vec::new()),
        };
        proof {
            assert(json_view(val) == json_of_trait_value(ts@[i as int].value));
        }
        entries.push((key, val));
        i += 1;
    }
    proof {
        lemma_json_entry_views_index(entries@);
        assert(json_entry_views(entries@) =~= Seq::new(
            ts@.len(),
            |j: int| (shape_id_text(ts@[j].id), json_of_trait_value(ts@[j].value)),
        ));
    }
    JsonValue::Obj(entries)
}

/// Build a reference object.
pub fn reference_json(sid: &ShapeID) -> (r: JsonValue)
    ensures
        r@ == json_reference(*sid),
{
    let mut entries: Vec<(String, JsonValue)> = Vec::new();
    entries.push((String::from_str("target"), JsonValue::Str(sid.to_string())));
    proof {
        lemma_json_entry_views_index(entries@);
        assert(json_entry_views(entries@) =~= seq![
            ("target"@, JsonNode::Str(shape_id_text(*sid))),
        ]);
    }
    JsonValue::Obj(entries)
}

/// Build the JSON form of one member.
pub fn member_to_json(m: &MemberShape) -> (r: JsonValue)
    ensures
        r@ == json_of_member(*m),
{
    let mut entries: Vec<(String, JsonValue)> = Vec::new();
    if m.traits.len() > 0 {
        let t = traits_to_json(&m.traits);
        entries.push((String::from_str("traits"), t));
    }
    let ghost tpart = entries@;
    entries.push((String::from_str("target"), JsonValue::Str(m.target.to_string())));
    proof {
        lemma_json_entry_views_index(entries@);
        assert(json_entry_views(entries@) =~= (if m.traits@.len() > 0 {
            seq![("traits"@, json_of_traits(m.traits@))]
        } else {
            Seq::<(Seq<char>, JsonNode)>::empty()
        }) + seq![("target"@, JsonNode::Str(shape_id_text(m.target)))]);
    }
    JsonValue::Obj(entries)
}

/// Build the JSON form of a member list, keyed by member name.
#[verifier::loop_isolation(false)]
pub fn members_to_json(ms: &Vec<MemberShape>) -> (r: JsonValue)
    ensures
        r@ == json_of_members(ms@),
{
    let n = ms.len();
    let mut entries: Vec<(String, JsonValue)> = Vec::new();
    let mut i: usize = 0;
    while i < n
        invariant
            0 <= i <= n,
            entries@.len() == i,
            forall|j: int|
                0 <= j < i ==> (#[trigger] entries@[j]).0@ == member_key(ms@[j]) && json_view(
                    entries@[j].1,
                ) == json_of_member(ms@[j]),
        decreases n - i,
    {
        let key = match &ms[i].id.member_name {
            Some(nm) => nm.value.clone(),
            None => String::new(),
        };
        let val = member_to_json(&ms[i]);
        entries.push((key, val));
        i += 1;
    }
    proof {
        lemma_json_entry_views_index(entries@);
        assert(json_entry_views(entries@) =~= Seq::new(
            ms@.len(),
            |j: int| (member_key(ms@[j]), json_of_member(ms@[j])),
        ));
    }
    JsonValue::Obj(entries)
}

/// Build an array of reference objects.
#[verifier::loop_isolation(false)]
pub fn refs_array_json(rs: &Vec<ShapeID>) -> (r: JsonValue)
    ensures
        r@ == json_refs_array(rs@),
{
    let n = rs.len();
    let mut items: Vec<JsonValue> = Vec::new();
    let mut i: usize = 0;
    while i < n
        invariant
            0 <= i <= n,
            items@.len() == i,
            forall|j: int| 0 <= j < i ==> json_view(#[trigger] items@[j]) == json_reference(rs@[j]),
        decreases n - i,
    {
        let x = reference_json(&rs[i]);
        items.push(x);
        i += 1;
    }
    proof {
        lemma_json_views_index(items@);
        assert(json_views(items@) =~= Seq::new(rs@.len(), |j: int| json_reference(rs@[j])));
    }
    JsonValue::Arr(items)
}

/// Build a resource's identifier mapping object.
#[verifier::loop_isolation(false)]
pub fn idents_obj_json(es: &Vec<(Identifier, ShapeID)>) -> (r: JsonValue)
    ensures
        r@ == json_idents_obj(es@),
{
    let n = es.len();
    let mut entries: Vec<(String, JsonValue)> = Vec::new();
    let mut i: usize = 0;
    while i < n
        invariant
            0 <= i <= n,
            entries@.len() == i,
            forall|j: int|
                0 <= j < i ==> (#[trigger] entries@[j]).0@ == es@[j].0.value@ && json_view(
                    entries@[j].1,
                ) == JsonNode::Str(shape_id_text(es@[j].1)),
        decreases n - i,
    {
        let key = es[i].0.value.clone();
        let val = JsonValue::Str(es[i].1.to_string());
        entries.push((key, val));
        i += 1;
    }
    proof {
        lemma_json_entry_views_index(entries@);
        assert(json_entry_views(entries@) =~= Seq::new(
            es@.len(),
            |j: int| (es@[j].0.value@, JsonNode::Str(shape_id_text(es@[j].1))),
        ));
    }
    JsonValue::Obj(entries)
}

/// The body entries of a service shape.
#[verifier::rlimit(60)]
fn service_entries(b: &crate::shapes::Service) -> (r: Vec<(String, JsonValue)>)
    ensures
        json_entry_views(r@) == type_entry("service"@) + seq![
            ("version"@, JsonNode::Str(b.version@)),
        ] + (if b.operations@.len() > 0 {
            seq![("operations"@, json_refs_array(b.operations@))]
        } else {
            Seq::<(Seq<char>, JsonNode)>::empty()
        }) + (if b.resources@.len() > 0 {
            seq![("resources"@, json_refs_array(b.resources@))]
        } else {
            Seq::<(Seq<char>, JsonNode)>::empty()
        }),
{
    let mut entries: Vec<(String, JsonValue)> = Vec::new();
    entries.push((String::from_str("type"), JsonValue::Str(String::from_str("service"))));
    entries.push((String::from_str("version"), JsonValue::Str(b.version.clone())));
    if b.operations.len() > 0 {
        let ops = refs_array_json(&b.operations);
        entries.push((String::from_str("operations"), ops));
    }
    if b.resources.len() > 0 {
        let res = refs_array_json(&b.resources);
        entries.push((String::from_str("resources"), res));
    }
    proof {
        lemma_json_entry_views_index(entries@);
        assert(json_entry_views(entries@) =~= type_entry("service"@) + seq![
            ("version"@, JsonNode::Str(b.version@)),
        ] + (if b.operations@.len() > 0 {
            seq![("operations"@, json_refs_array(b.operations@))]
        } else {
            Seq::<(Seq<char>, JsonNode)>::empty()
        }) + (if b.resources@.len() > 0 {
            seq![("resources"@, json_refs_array(b.resources@))]
        } else {
            Seq::<(Seq<char>, JsonNode)>::empty()
        }));
    }
    entries
}

/// The body entries of an operation shape.
#[verifier::rlimit(60)]
fn operation_entries(b: &crate::shapes::Operation) -> (r: Vec<(String, JsonValue)>)
    ensures
        json_entry_views(r@) == type_entry("operation"@) + opt_ref_entry("input"@, b.input)
            + opt_ref_entry("output"@, b.output) + (if b.errors@.len() > 0 {
            seq![("errors"@, json_refs_array(b.errors@))]
        } else {
            Seq::<(Seq<char>, JsonNode)>::empty()
        }),
{
    let mut entries: Vec<(String, JsonValue)> = Vec::new();
    entries.push((String::from_str("type"), JsonValue::Str(String::from_str("operation"))));
    match &b.input {
        Some(t) => {
            let rj = reference_json(t);
            entries.push((String::from_str("input"), rj));
        },
        None => {},
    }
    match &b.output {
        Some(t) => {
            let rj = reference_json(t);
            entries.push((String::from_str("output"), rj));
        },
        None => {},
    }
    if b.errors.len() > 0 {
        let errs = refs_array_json(&b.errors);
        entries.push((String::from_str("errors"), errs));
    }
    proof {
        lemma_json_entry_views_index(entries@);
        assert(json_entry_views(entries@) =~= type_entry("operation"@) + opt_ref_entry(
            "input"@,
            b.input,
        ) + opt_ref_entry("output"@, b.output) + (if b.errors@.len() > 0 {
            seq![("errors"@, json_refs_array(b.errors@))]
        } else {
            Seq::<(Seq<char>, JsonNode)>::empty()
        }));
    }
    entries
}

/// The body entries of a resource shape.
#[verifier::rlimit(100)]
fn resource_entries(b: &crate::shapes::Resource) -> (r: Vec<(String, JsonValue)>)
    ensures
        json_entry_views(r@) == kind_entries(ShapeKind::Resource(*b)),
{
    let mut entries: Vec<(String, JsonValue)> = Vec::new();
    entries.push((String::from_str("type"), JsonValue::Str(String::from_str("resource"))));
    if b.identifiers.len() > 0 {
        let ids = idents_obj_json(&b.identifiers);
        entries.push((String::from_str("identifiers"), ids));
    }
    let ghost p1 = type_entry("resource"@) + (if b.identifiers@.len() > 0 {
        seq![("identifiers"@, json_idents_obj(b.identifiers@))]
    } else {
        Seq::<(Seq<char>, JsonNode)>::empty()
    });
    proof {
        lemma_json_entry_views_index(entries@);
        assert(json_entry_views(entries@) =~= p1);
    }
    push_opt_ref(&mut entries, "create", &b.create);
    push_opt_ref(&mut entries, "put", &b.put);
    push_opt_ref(&mut entries, "read", &b.read);
    push_opt_ref(&mut entries, "update", &b.update);
    push_opt_ref(&mut entries, "delete", &b.delete);
    push_opt_ref(&mut entries, "list", &b.list);
    let ghost p2 = p1 + opt_ref_entry("create"@, b.create) + opt_ref_entry("put"@, b.put)
        + opt_ref_entry("read"@, b.read) + opt_ref_entry("update"@, b.update) + opt_ref_entry(
        "delete"@,
        b.delete,
    ) + opt_ref_entry("list"@, b.list);
    proof {
        reveal_strlit("create");
        reveal_strlit("put");
        reveal_strlit("read");
        reveal_strlit("update");
        reveal_strlit("delete");
        reveal_strlit("list");
        assert(json_entry_views(entries@) == p2);
    }
    let ghost e2 = entries@;
    if b.operations.len() > 0 {
        let ops = refs_array_json(&b.operations);
        entries.push((String::from_str("operations"), ops));
    }
    let ghost p3 = p2 + (if b.operations@.len() > 0 {
        seq![("operations"@, json_refs_array(b.operations@))]
    } else {
        Seq::<(Seq<char>, JsonNode)>::empty()
    });
    proof {
        lemma_json_entry_views_index(e2);
        lemma_json_entry_views_index(entries@);
        assert(json_entry_views(entries@) =~= p3);
    }
    let ghost e3 = entries@;
    if b.collection_operations.len() > 0 {
        let ops = refs_array_json(&b.collection_operations);
        entries.push((String::from_str("collectionOperations"), ops));
    }
    if b.resources.len() > 0 {
        let res = refs_array_json(&b.resources);
        entries.push((String::from_str("resources"), res));
    }
    proof {
        lemma_json_entry_views_index(e3);
        lemma_json_entry_views_index(entries@);
        assert(json_entry_views(entries@) =~= p3 + (if b.collection_operations@.len() > 0 {
            seq![("collectionOperations"@, json_refs_array(b.collection_operations@))]
        } else {
            Seq::<(Seq<char>, JsonNode)>::empty()
        }) + (if b.resources@.len() > 0 {
            seq![("resources"@, json_refs_array(b.resources@))]
        } else {
            Seq::<(Seq<char>, JsonNode)>::empty()
        }));
        assert(json_entry_views(entries@) == kind_entries(ShapeKind::Resource(*b)));
    }
    entries
}

/// Append one optional reference entry under the given key.
fn push_opt_ref(entries: &mut Vec<(String, JsonValue)>, key: &str, o: &Option<ShapeID>)
    ensures
        json_entry_views(final(entries)@) == json_entry_views(old(entries)@) + opt_ref_entry(
            key@,
            *o,
        ),
{
    let ghost pre = entries@;
    match o {
        Some(t) => {
            let rj = reference_json(t);
            entries.push((key.to_owned(), rj));
            proof {
                lemma_json_entry_views_index(pre);
                lemma_json_entry_views_index(entries@);
                assert(json_entry_views(entries@) =~= json_entry_views(pre) + opt_ref_entry(
                    key@,
                    *o,
                ));
            }
        },
        None => {
            proof {
                assert(json_entry_views(entries@) =~= json_entry_views(pre) + opt_ref_entry(
                    key@,
                    *o,
                ));
            }
        },
    }
}

/// The body entries of any shape kind.
#[verifier::rlimit(60)]
fn kind_to_entries(k: &ShapeKind) -> (r: Vec<(String, JsonValue)>)
    ensures
        json_entry_views(r@) == kind_entries(*k),
{
    match k {
        ShapeKind::Simple(sm) => {
            let mut entries: Vec<(String, JsonValue)> = Vec::new();
            entries.push((String::from_str("type"), JsonValue::Str(sm.to_display_string())));
            proof {
                lemma_json_entry_views_index(entries@);
                assert(json_entry_views(entries@) =~= type_entry(simple_type_text(*sm)));
            }
            entries
        },
        ShapeKind::List(b) => {
            let mut entries: Vec<(String, JsonValue)> = Vec::new();
            entries.push((String::from_str("type"), JsonValue::Str(String::from_str("list"))));
            let rj = reference_json(&b.member.target);
            entries.push((String::from_str("member"), rj));
            proof {
                lemma_json_entry_views_index(entries@);
                assert(json_entry_views(entries@) =~= type_entry("list"@) + seq![
                    ("member"@, json_reference(b.member.target)),
                ]);
            }
            entries
        },
        ShapeKind::SetShape(b) => {
            let mut entries: Vec<(String, JsonValue)> = Vec::new();
            entries.push((String::from_str("type"), JsonValue::Str(String::from_str("set"))));
            let rj = reference_json(&b.member.target);
            entries.push((String::from_str("member"), rj));
            proof {
                lemma_json_entry_views_index(entries@);
                assert(json_entry_views(entries@) =~= type_entry("set"@) + seq![
                    ("member"@, json_reference(b.member.target)),
                ]);
            }
            entries
        },
        ShapeKind::MapShape(b) => {
            let mut entries: Vec<(String, JsonValue)> = Vec::new();
            entries.push((String::from_str("type"), JsonValue::Str(String::from_str("map"))));
            let kj = reference_json(&b.key.target);
            entries.push((String::from_str("key"), kj));
            let vj = reference_json(&b.value.target);
            entries.push((String::from_str("value"), vj));
            proof {
                lemma_json_entry_views_index(entries@);
                assert(json_entry_views(entries@) =~= type_entry("map"@) + seq![
                    ("key"@, json_reference(b.key.target)),
                    ("value"@, json_reference(b.value.target)),
                ]);
            }
            entries
        },
        ShapeKind::Structure(b) => {
            let mut entries: Vec<(String, JsonValue)> = Vec::new();
            entries.push((
                String::from_str("type"),
                JsonValue::Str(String::from_str("structure")),
            ));
            if b.members.len() > 0 {
                let ms = members_to_json(&b.members);
                entries.push((String::from_str("members"), ms));
            }
            proof {
                lemma_json_entry_views_index(entries@);
                assert(json_entry_views(entries@) =~= type_entry("structure"@) + (if b.members@.len()
                    > 0 {
                    seq![("members"@, json_of_members(b.members@))]
                } else {
                    Seq::<(Seq<char>, JsonNode)>::empty()
                }));
            }
            entries
        },
        ShapeKind::Union(b) => {
            let mut entries: Vec<(String, JsonValue)> = Vec::new();
            entries.push((String::from_str("type"), JsonValue::Str(String::from_str("union"))));
            if b.members.len() > 0 {
                let ms = members_to_json(&b.members);
                entries.push((String::from_str("members"), ms));
            }
            proof {
                lemma_json_entry_views_index(entries@);
                assert(json_entry_views(entries@) =~= type_entry("union"@) + (if b.members@.len()
                    > 0 {
                    seq![("members"@, json_of_members(b.members@))]
                } else {
                    Seq::<(Seq<char>, JsonNode)>::empty()
                }));
            }
            entries
        },
        ShapeKind::Service(b) => service_entries(b),
        ShapeKind::Operation(b) => operation_entries(b),
        ShapeKind::Resource(b) => resource_entries(b),
        ShapeKind::Unresolved => {
            let mut entries: Vec<(String, JsonValue)> = Vec::new();
            entries.push((String::from_str("type"), JsonValue::Str(String::from_str("apply"))));
            proof {
                lemma_json_entry_views_index(entries@);
                assert(json_entry_views(entries@) =~= type_entry("apply"@));
            }
            entries
        },
    }
}

/// Build the JSON object of one shape.
pub fn shape_to_json(s: &TopLevelShape) -> (r: JsonValue)
    ensures
        r@ == json_of_shape(*s),
{
    let mut entries: Vec<(String, JsonValue)> = Vec::new();
    if s.traits.len() > 0 {
        let t = traits_to_json(&s.traits);
        entries.push((String::from_str("traits"), t));
    }
    let ghost tpart = entries@;
    let mut body = kind_to_entries(&s.body);
    proof {
        lemma_json_entry_views_index(tpart);
        lemma_entry_views_concat(tpart, body@);
        assert(json_entry_views(tpart) =~= (if s.traits@.len() > 0 {
            seq![("traits"@, json_of_traits(s.traits@))]
        } else {
            Seq::<(Seq<char>, JsonNode)>::empty()
        }));
    }
    entries.append(&mut body);
    JsonValue::Obj(entries)
}

/// Build the whole JSON document of a model.
#[verifier::loop_isolation(false)]
#[verifier::rlimit(60)]
pub fn model_to_json(model: &Model) -> (r: JsonValue)
    ensures
        r@ == json_of_model(*model),
{
    let n = model.shapes.len();
    let mut inner: Vec<(String, JsonValue)> = Vec::new();
    let mut i: usize = 0;
    while i < n
        invariant
            0 <= i <= n,
            inner@.len() == i,
            forall|j: int|
                0 <= j < i ==> (#[trigger] inner@[j]).0@ == shape_id_text(model.shapes@[j].id)
                    && json_view(inner@[j].1) == json_of_shape(model.shapes@[j]),
        decreases n - i,
    {
        let key = model.shapes[i].id.to_string();
        let val = shape_to_json(&model.shapes[i]);
        inner.push((key, val));
        i += 1;
    }
    let ghost spart = inner@;
    if model.has_metadata() {
        let m = model.metadata.len();
        let mut md: Vec<(String, JsonValue)> = Vec::new();
        let mut k: usize = 0;
        while k < m
            invariant
                0 <= k <= m,
                md@.len() == k,
                forall|j: int|
                    0 <= j < k ==> (#[trigger] md@[j]).0@ == model.metadata@[j].0@ && json_view(
                        md@[j].1,
                    ) == json_of_value(model.metadata@[j].1),
            decreases m - k,
        {
            let key = model.metadata[k].0.clone();
            let val = value_to_json(&model.metadata[k].1);
            md.push((key, val));
            k += 1;
        }
        proof {
            lemma_json_entry_views_index(md@);
            assert(json_entry_views(md@) =~= Seq::new(
                model.metadata@.len(),
                |j: int| (model.metadata@[j].0@, json_of_value(model.metadata@[j].1)),
            ));
        }
        let md_obj = JsonValue::Obj(md);
        inner.push((String::from_str("metadata"), md_obj));
    }
    proof {
        lemma_json_entry_views_index(spart);
        lemma_json_entry_views_index(inner@);
        assert(json_entry_views(inner@) =~= shapes_entries(*model));
    }
    let version = model.smithy_version().to_display_string();
    let mut top: Vec<(String, JsonValue)> = Vec::new();
    top.push((String::from_str("smithy"), JsonValue::Str(version)));
    top.push((String::from_str("shapes"), JsonValue::Obj(inner)));
    proof {
        lemma_json_entry_views_index(top@);
        assert(json_entry_views(top@) =~= seq![
            ("smithy"@, JsonNode::Str(crate::version_text(model.smithy_version))),
            ("shapes"@, JsonNode::Obj(shapes_entries(*model))),
        ]);
    }
    JsonValue::Obj(top)
}

/// Decide whether a document holds no floating-point number.
#[verifier::loop_isolation(false)]
pub fn check_float_free(v: &JsonValue) -> (r: bool)
    ensures
        r == float_free(v@),
    decreases *v,
{
    match v {
        JsonValue::FloatBits(_) => false,
        JsonValue::Arr(a) => {
            let n = a.len();
            let mut i: usize = 0;
            proof {
                lemma_json_views_index(a@);
            }
            while i < n
                invariant
                    0 <= i <= n,
                    forall|j: int| 0 <= j < i ==> float_free(#[trigger] json_views(a@)[j]),
                decreases n - i,
            {
                if !check_float_free(&a[i]) {
                    proof {
                        assert(json_views(a@)[i as int] == json_view(a@[i as int]));
                        assert(!float_free(json_views(a@)[i as int]));
                        assert(v@ == JsonNode::Arr(json_views(a@)));
                        assert(!float_free(v@)) by {
                            if float_free(JsonNode::Arr(json_views(a@))) {
                                let s = JsonNode::Arr(json_views(a@))->Arr_0;
                                assert(s == json_views(a@));
                                assert(float_free(s[i as int]));
                            }
                        }
                    }
                    return false;
                }
                i += 1;
            }
            proof {
                assert(v@ == JsonNode::Arr(json_views(a@)));
                assert(float_free(v@));
            }
            true
        },
        JsonValue::Obj(o) => {
            let n = o.len();
            let mut i: usize = 0;
            proof {
                lemma_json_entry_views_index(o@);
            }
            while i < n
                invariant
                    0 <= i <= n,
                    forall|j: int| 0 <= j < i ==> float_free((#[trigger] json_entry_views(o@)[j]).1),
                decreases n - i,
            {
                if !check_float_free(&o[i].1) {
                    proof {
                        assert(json_entry_views(o@)[i as int] == (o@[i as int].0@, json_view(
                            o@[i as int].1,
                        )));
                        assert(!float_free(json_entry_views(o@)[i as int].1));
                        assert(v@ == JsonNode::Obj(json_entry_views(o@)));
                        assert(!float_free(v@)) by {
                            if float_free(JsonNode::Obj(json_entry_views(o@))) {
                                let s = JsonNode::Obj(json_entry_views(o@))->Obj_0;
                                assert(s == json_entry_views(o@));
                                assert(float_free(s[i as int].1));
                            }
                        }
                    }
                    return false;
                }
                i += 1;
            }
            proof {
                assert(v@ == JsonNode::Obj(json_entry_views(o@)));
                assert(float_free(v@));
            }
            true
        },
        _ => true,
    }
}

// ------------------------------------------------------------------------
// Rendering, through the outside serializer
// ------------------------------------------------------------------------

/// Declares the outside serializer's document type so that the conversion
/// wrapper below can name it; the value stays opaque to the verifier.
#[verifier::external_type_specification]
#[verifier::external_body]
pub struct ExSerdeValue(serde_json::Value);

/// The serialized JSON text of a document tree.  serde_json renders equal
/// trees to equal text, so the text is a function of the tree and the
/// pretty flag alone.
pub uninterp spec fn json_text_of(doc: JsonNode, pretty: bool) -> Seq<char>;

/// Conversion half of the renderer: rebuilds the document as a
/// `serde_json::Value`, one constructor per node.  Only `render_json` calls
/// it; the float arm is unreachable because `render_json` requires a
/// float-free document.
#[verifier::external_body]
fn to_serde_value(v: &JsonValue) -> serde_json::Value {
    match v {
        JsonValue::Null => serde_json::Value::Null,
        JsonValue::Bool(b) => serde_json::Value::Bool(*b),
        JsonValue::Int(i) => serde_json::Value::Number(serde_json::Number::from(*i)),
        JsonValue::FloatBits(_) => serde_json::Value::Null,
        JsonValue::Str(s) => serde_json::Value::String(s.clone()),
        JsonValue::Arr(a) => serde_json::Value::Array(a.iter().map(to_serde_value).collect()),
        JsonValue::Obj(o) => serde_json::Value::Object(
            o.iter().map(|e| (e.0.clone(), to_serde_value(&e.1))).collect(),
        ),
    }
}

/// Render a document tree as JSON text.  Relies on `serde_json::to_string`
/// and `serde_json::to_string_pretty`: serializing a `serde_json::Value`
/// yields text determined by the value alone, and it cannot fail — the
/// serializer's only error sources are the output writer's io errors, which
/// an in-memory string buffer never produces, and map keys that are not
/// strings, which a `Value` object cannot hold.  The error branch below is
/// therefore dead; it stands only so that the conversion never panics.
#[verifier::external_body]
fn render_json(v: &JsonValue, pretty: bool) -> (r: Result<String, ModelError>)
    requires
        float_free(v@),
    ensures
        r is Ok,
        r matches Ok(s) ==> s@ == json_text_of(v@, pretty),
{
    let sv = to_serde_value(v);
    let out = if pretty { serde_json::to_string_pretty(&sv) } else { serde_json::to_string(&sv) };
    match out {
        Ok(s) => Ok(s),
        Err(e) => Err(ModelError::Serialization(e.to_string())),
    }
}

// ------------------------------------------------------------------------
// The writer
// ------------------------------------------------------------------------

/// Write a model in the JSON AST representation.
///
/// The document tree is built by verified code; the text is rendered by the
/// outside serializer.  Writing succeeds exactly when the model's document
/// holds no floating-point value; a float-bearing model is refused with a
/// `Serialization` error, and an adapter around the library can serialize
/// such models itself from the verified document tree.
#[derive(Debug)]
pub struct JsonWriter {
    pub pretty_print: bool,
}

impl JsonWriter {
    pub fn new(pretty_print: bool) -> (r: Self)
        ensures
            r.pretty_print == pretty_print,
    {
        JsonWriter { pretty_print }
    }

    /// Serialize the model; the call succeeds exactly on float-free
    /// documents, and on success the text is exactly the rendering of the
    /// model's JSON document.
    pub fn write(&mut self, model: &Model) -> (r: Result<String, ModelError>)
        ensures
            *final(self) == *old(self),
            r is Ok <==> float_free(json_of_model(*model)),
            r matches Ok(s) ==> s@ == json_text_of(
                json_of_model(*model),
                old(self).pretty_print,
            ),
            r matches Err(e) ==> e matches ModelError::Serialization(_),
    {
        let doc = model_to_json(model);
        if !check_float_free(&doc) {
            return Err(
                ModelError::Serialization(
                    String::from_str("floating-point values are not supported by this renderer"),
                ),
            );
        }
        render_json(&doc, self.pretty_print)
    }
}

impl Default for JsonWriter {
    fn default() -> (r: Self)
        ensures
            r.pretty_print == false,
    {
        JsonWriter { pretty_print: false }
    }
}

} // verus!
