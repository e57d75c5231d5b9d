//! The shape and trait data model: shape kinds, members, and the
//! trait-application mechanism shared by shapes and members.

use vstd::prelude::*;
use vstd::string::*;

verus! {

use crate::identity::{Identifier, ShapeID, sid_eq};
use crate::values::NodeValue;

// ------------------------------------------------------------------------
// Trait applications
// ------------------------------------------------------------------------

/// A trait application: the identifier of the trait definition it
/// instantiates, and an optional literal value.
#[derive(Debug, PartialEq)]
pub struct AppliedTrait {
    pub id: ShapeID,
    pub value: Option<NodeValue>,
}

impl AppliedTrait {
    pub fn new(id: ShapeID) -> (r: Self)
        ensures
            r.id == id,
            r.value is None,
    {
        AppliedTrait { id, value: None }
    }

    pub fn with_value(id: ShapeID, value: NodeValue) -> (r: Self)
        ensures
            r.id == id,
            r.value == Some(value),
    {
        AppliedTrait { id, value: Some(value) }
    }
}

/// Whether some trait in the list is identified by `id`.
pub open spec fn has_trait_id(ts: Seq<AppliedTrait>, id: ShapeID) -> bool {
    exists|i: int| 0 <= i < ts.len() && #[trigger] sid_eq(ts[i].id, id)
}

/// The position of the trait identified by `id`; meaningful only when the
/// list holds exactly one such trait.
pub open spec fn trait_pos(ts: Seq<AppliedTrait>, id: ShapeID) -> int {
    choose|i: int| 0 <= i < ts.len() && #[trigger] sid_eq(ts[i].id, id)
}

/// At most one application per distinct trait identifier.
pub open spec fn trait_ids_unique(ts: Seq<AppliedTrait>) -> bool {
    forall|i: int, j: int|
        0 <= i < j < ts.len() ==> !sid_eq(#[trigger] ts[i].id, #[trigger] ts[j].id)
}

/// Applying a trait: replace the application with the same identifier if one
/// is present (last write wins), otherwise append.
pub open spec fn apply_trait_spec(ts: Seq<AppliedTrait>, t: AppliedTrait) -> Seq<AppliedTrait> {
    if has_trait_id(ts, t.id) {
        ts.update(trait_pos(ts, t.id), t)
    } else {
        ts.push(t)
    }
}

/// Merging one trait list into another: apply each incoming trait in order.
pub open spec fn merge_traits_spec(a: Seq<AppliedTrait>, b: Seq<AppliedTrait>) -> Seq<AppliedTrait>
    decreases b.len(),
{
    if b.len() == 0 {
        a
    } else {
        merge_traits_spec(apply_trait_spec(a, b[0]), b.drop_first())
    }
}

/// Apply one trait to a list, replacing any application with the same
/// identifier (last write wins).
#[verifier::loop_isolation(false)]
pub fn apply_to_trait_list(ts: &mut Vec<AppliedTrait>, t: AppliedTrait)
    requires
        trait_ids_unique(old(ts)@),
    ensures
        final(ts)@ == apply_trait_spec(old(ts)@, t),
        trait_ids_unique(final(ts)@),
{
    let n = ts.len();
    let mut i: usize = 0;
    while i < n
        invariant
            0 <= i <= n,
            ts@ == old(ts)@,
            forall|j: int| 0 <= j < i ==> !sid_eq(ts@[j].id, t.id),
        decreases n - i,
    {
        if ts[i].id == t.id {
            proof {
                assert(has_trait_id(ts@, t.id));
                let c = trait_pos(ts@, t.id);
                assert(0 <= c < ts@.len() && sid_eq(ts@[c].id, t.id));
                if c < i as int {
                    assert(!sid_eq(ts@[c].id, t.id));
                } else if c > i as int {
                    assert(!sid_eq(ts@[i as int].id, ts@[c].id));
                }
                assert(c == i as int);
            }
            ts.set(i, t);
            proof {
                assert forall|p: int, q: int| 0 <= p < q < ts@.len() implies !sid_eq(
                    ts@[p].id,
                    ts@[q].id,
                ) by {
                    assert(!sid_eq(old(ts)@[p].id, old(ts)@[q].id));
                    if q == i as int {
                        assert(sid_eq(old(ts)@[i as int].id, t.id));
                    } else if p == i as int {
                        assert(sid_eq(old(ts)@[i as int].id, t.id));
                    }
                }
            }
            return;
        }
        i += 1;
    }
    ts.push(t);
    proof {
        assert(!has_trait_id(old(ts)@, t.id));
        assert forall|p: int, q: int| 0 <= p < q < ts@.len() implies !sid_eq(
            ts@[p].id,
            ts@[q].id,
        ) by {
            if q < ts@.len() - 1 {
                assert(!sid_eq(old(ts)@[p].id, old(ts)@[q].id));
            } else {
                assert(!sid_eq(ts@[p].id, t.id));
            }
        }
    }
}

/// Merge the whole list `incoming` into `ts`, in order, last write wins.
#[verifier::loop_isolation(false)]
pub fn merge_trait_lists(ts: &mut Vec<AppliedTrait>, incoming: Vec<AppliedTrait>)
    requires
        trait_ids_unique(old(ts)@),
    ensures
        final(ts)@ == merge_traits_spec(old(ts)@, incoming@),
        trait_ids_unique(final(ts)@),
{
    let mut rest = incoming;
    while rest.len() > 0
        invariant
            trait_ids_unique(ts@),
            merge_traits_spec(ts@, rest@) == merge_traits_spec(old(ts)@, incoming@),
        decreases rest@.len(),
    {
        let ghost pre = rest@;
        let ghost ts_pre = ts@;
        let t = rest.remove(0);
        proof {
            assert(rest@ =~= pre.drop_first());
        }
        apply_to_trait_list(ts, t);
        proof {
            assert(merge_traits_spec(ts@, rest@) == merge_traits_spec(ts_pre, pre));
        }
    }
}

/// The capability shared by everything that can bear traits.
pub trait HasTraits {
    /// The current trait applications, as a mathematical sequence.
    spec fn trait_list(&self) -> Seq<AppliedTrait>;

    /// The current trait applications.
    fn traits(&self) -> (r: &Vec<AppliedTrait>)
        ensures
            r@ == self.trait_list(),
    ;

    fn has_traits(&self) -> (r: bool)
        ensures
            r == (self.trait_list().len() > 0),
    ;

    fn has_trait(&self, id: &ShapeID) -> (r: bool)
        ensures
            r == has_trait_id(self.trait_list(), *id),
    ;

    /// Apply a trait; a second application with the same identifier replaces
    /// the first (last write wins, by design — not silent data loss).
    fn apply_trait(&mut self, t: AppliedTrait)
        requires
            trait_ids_unique(old(self).trait_list()),
        ensures
            final(self).trait_list() == apply_trait_spec(old(self).trait_list(), t),
            trait_ids_unique(final(self).trait_list()),
    ;
}

// ------------------------------------------------------------------------
// Members
// ------------------------------------------------------------------------

/// A named, typed slot owned by its containing shape.  The `target` is a
/// reference to the member's type, never an ownership relation.
#[derive(Debug, PartialEq)]
pub struct MemberShape {
    pub id: ShapeID,
    pub target: ShapeID,
    pub traits: Vec<AppliedTrait>,
}

/// The name that keys a member inside its containing shape.
pub open spec fn member_key(m: MemberShape) -> Seq<char> {
    match m.id.member_name {
        Some(n) => n.value@,
        None => Seq::<char>::empty(),
    }
}

impl MemberShape {
    pub open spec fn wf(&self) -> bool {
        &&& self.id.wf()
        &&& self.id.member_name is Some
        &&& self.target.wf()
        &&& trait_ids_unique(self.traits@)
    }

    pub fn new(id: ShapeID, target: ShapeID) -> (r: Self)
        ensures
            r.id == id,
            r.target == target,
            r.traits@ == Seq::<AppliedTrait>::empty(),
    {
        MemberShape { id, target, traits: Vec::new() }
    }
}

impl HasTraits for MemberShape {
    open spec fn trait_list(&self) -> Seq<AppliedTrait> {
        self.traits@
    }

    fn traits(&self) -> (r: &Vec<AppliedTrait>) {
        &self.traits
    }

    fn has_traits(&self) -> (r: bool) {
        self.traits.len() > 0
    }

    fn has_trait(&self, id: &ShapeID) -> (r: bool) {
        has_trait_in_list(&self.traits, id)
    }

    fn apply_trait(&mut self, t: AppliedTrait) {
        apply_to_trait_list(&mut self.traits, t);
    }
}

/// Whether the list holds a trait identified by `id`.
#[verifier::loop_isolation(false)]
pub fn has_trait_in_list(ts: &Vec<AppliedTrait>, id: &ShapeID) -> (r: bool)
    ensures
        r == has_trait_id(ts@, *id),
{
    let n = ts.len();
    let mut i: usize = 0;
    while i < n
        invariant
            0 <= i <= n,
            forall|j: int| 0 <= j < i ==> !sid_eq(ts@[j].id, *id),
        decreases n - i,
    {
        if ts[i].id == *id {
            return true;
        }
        i += 1;
    }
    false
}

// ------------------------------------------------------------------------
// Shape bodies
// ------------------------------------------------------------------------

/// The tag of a simple (scalar) shape; a simple shape has no members.
#[derive(Clone, Copy, Debug, PartialEq, Eq, Structural, Hash)]
pub enum Simple {
    Blob,
    Boolean,
    Document,
    String,
    Byte,
    Short,
    Integer,
    Long,
    Float,
    Double,
    BigInteger,
    BigDecimal,
    Timestamp,
}

/// The canonical lower-camel name of a simple shape tag.
pub open spec fn simple_type_text(s: Simple) -> Seq<char> {
    match s {
        Simple::Blob => "blob"@,
        Simple::Boolean => "boolean"@,
        Simple::Document => "document"@,
        Simple::String => "string"@,
        Simple::Byte => "byte"@,
        Simple::Short => "short"@,
        Simple::Integer => "integer"@,
        Simple::Long => "long"@,
        Simple::Float => "float"@,
        Simple::Double => "double"@,
        Simple::BigInteger => "bigInteger"@,
        Simple::BigDecimal => "bigDecimal"@,
        Simple::Timestamp => "timestamp"@,
    }
}

impl Simple {
    /// The canonical name used in serialized representations.
    pub fn to_display_string(&self) -> (r: String)
        ensures
            r@ == simple_type_text(*self),
    {
        match self {
            Simple::Blob => String::from_str("blob"),
            Simple::Boolean => String::from_str("boolean"),
            Simple::Document => String::from_str("document"),
            Simple::String => String::from_str("string"),
            Simple::Byte => String::from_str("byte"),
            Simple::Short => String::from_str("short"),
            Simple::Integer => String::from_str("integer"),
            Simple::Long => String::from_str("long"),
            Simple::Float => String::from_str("float"),
            Simple::Double => String::from_str("double"),
            Simple::BigInteger => String::from_str("bigInteger"),
            Simple::BigDecimal => String::from_str("bigDecimal"),
            Simple::Timestamp => String::from_str("timestamp"),
        }
    }
}

/// The body of a list or set shape: the single element member.
#[derive(Debug, PartialEq)]
pub struct ListOrSet {
    pub member: MemberShape,
}

impl ListOrSet {
    pub fn new(member: MemberShape) -> (r: Self)
        ensures
            r.member == member,
    {
        ListOrSet { member }
    }
}

/// The body of a map shape: the key member and the value member.
#[derive(Debug, PartialEq)]
pub struct MapShape {
    pub key: MemberShape,
    pub value: MemberShape,
}

impl MapShape {
    pub fn new(key: MemberShape, value: MemberShape) -> (r: Self)
        ensures
            r.key == key,
            r.value == value,
    {
        MapShape { key, value }
    }
}

/// Whether some member in the list is keyed by `key`.
pub open spec fn has_member_key(ms: Seq<MemberShape>, key: Seq<char>) -> bool {
    exists|i: int| 0 <= i < ms.len() && #[trigger] member_key(ms[i]) == key
}

/// The position of the member keyed by `key`; meaningful only when the list
/// holds exactly one such member.
pub open spec fn member_pos(ms: Seq<MemberShape>, key: Seq<char>) -> int {
    choose|i: int| 0 <= i < ms.len() && #[trigger] member_key(ms[i]) == key
}

/// At most one member per distinct name.
pub open spec fn member_keys_unique(ms: Seq<MemberShape>) -> bool {
    forall|i: int, j: int|
        0 <= i < j < ms.len() ==> member_key(#[trigger] ms[i]) != member_key(#[trigger] ms[j])
}

/// Adding a member: replace the member with the same name if one is present
/// (mapping semantics, last write wins), otherwise append.
pub open spec fn add_member_spec(ms: Seq<MemberShape>, m: MemberShape) -> Seq<MemberShape> {
    if has_member_key(ms, member_key(m)) {
        ms.update(member_pos(ms, member_key(m)), m)
    } else {
        ms.push(m)
    }
}

/// The body of a structure or union shape: an ordered-by-insertion mapping
/// from member name to member.
#[derive(Debug, PartialEq)]
pub struct StructureOrUnion {
    pub members: Vec<MemberShape>,
}

impl StructureOrUnion {
    pub open spec fn wf(&self) -> bool {
        member_keys_unique(self.members@)
    }

    pub fn new() -> (r: Self)
        ensures
            r.members@ == Seq::<MemberShape>::empty(),
    {
        StructureOrUnion { members: Vec::new() }
    }

    pub fn has_members(&self) -> (r: bool)
        ensures
            r == (self.members@.len() > 0),
    {
        self.members.len() > 0
    }

    /// Add a member built from its identifier and target type.
    #[verifier::loop_isolation(false)]
    pub fn add_member(&mut self, member_id: ShapeID, target: ShapeID)
        requires
            member_keys_unique(old(self).members@),
        ensures
            exists|m: MemberShape|
                m.id == member_id && m.target == target && m.traits@
                    == Seq::<AppliedTrait>::empty() && final(self).members@ == #[trigger] add_member_spec(
                    old(self).members@,
                    m,
                ),
            member_keys_unique(final(self).members@),
    {
        let m = MemberShape::new(member_id, target);
        self.add_a_member(m);
    }

    /// Add a fully built member; a second member with the same name replaces
    /// the first (mapping semantics, last write wins).
    #[verifier::loop_isolation(false)]
    pub fn add_a_member(&mut self, m: MemberShape)
        requires
            member_keys_unique(old(self).members@),
        ensures
            final(self).members@ == add_member_spec(old(self).members@, m),
            member_keys_unique(final(self).members@),
    {
        let key = match &m.id.member_name {
            Some(n) => n.value.clone(),
            None => String::new(),
        };
        proof {
            assert(key@ == member_key(m));
        }
        let n = self.members.len();
        let mut i: usize = 0;
        while i < n
            invariant
                0 <= i <= n,
                self.members@ == old(self).members@,
                forall|j: int| 0 <= j < i ==> member_key(self.members@[j]) != key@,
            decreases n - i,
        {
            let existing = match &self.members[i].id.member_name {
                Some(nm) => nm.value.clone(),
                None => String::new(),
            };
            if existing == key {
                proof {
                    assert(member_key(self.members@[i as int]) == member_key(m));
                    assert(has_member_key(self.members@, member_key(m)));
                    let c = member_pos(self.members@, member_key(m));
                    assert(0 <= c < self.members@.len() && member_key(self.members@[c])
                        == member_key(m));
                    if c < i as int {
                        assert(member_key(self.members@[c]) != key@);
                    } else if c > i as int {
                        assert(member_key(self.members@[i as int]) != member_key(
                            self.members@[c],
                        ));
                    }
                    assert(c == i as int);
                }
                self.members.set(i, m);
                proof {
                    assert forall|p: int, q: int|
                        0 <= p < q < self.members@.len() implies member_key(self.members@[p])
                        != member_key(self.members@[q]) by {
                        assert(member_key(old(self).members@[p]) != member_key(
                            old(self).members@[q],
                        ));
                    }
                }
                return;
            }
            i += 1;
        }
        self.members.push(m);
        proof {
            assert(!has_member_key(old(self).members@, member_key(m)));
            assert forall|p: int, q: int|
                0 <= p < q < self.members@.len() implies member_key(self.members@[p])
                != member_key(self.members@[q]) by {
                if q < self.members@.len() - 1 {
                    assert(member_key(old(self).members@[p]) != member_key(old(self).members@[q]));
                } else {
                    assert(member_key(self.members@[p]) != key@);
                }
            }
        }
    }
}

// ------------------------------------------------------------------------
// Shape identifier reference lists with set semantics
// ------------------------------------------------------------------------

/// Whether the list holds an identifier equal to `id`.
pub open spec fn has_sid(s: Seq<ShapeID>, id: ShapeID) -> bool {
    exists|i: int| 0 <= i < s.len() && #[trigger] sid_eq(s[i], id)
}

/// Adding a reference with set semantics: keep the list unchanged if the
/// identifier is already present, otherwise append it.
pub open spec fn add_sid_spec(s: Seq<ShapeID>, id: ShapeID) -> Seq<ShapeID> {
    if has_sid(s, id) {
        s
    } else {
        s.push(id)
    }
}

/// No identifier occurs twice.
pub open spec fn sids_unique(s: Seq<ShapeID>) -> bool {
    forall|i: int, j: int| 0 <= i < j < s.len() ==> !sid_eq(#[trigger] s[i], #[trigger] s[j])
}

/// Add a reference to a list kept with set semantics.
#[verifier::loop_isolation(false)]
pub fn add_sid(list: &mut Vec<ShapeID>, id: ShapeID)
    ensures
        final(list)@ == add_sid_spec(old(list)@, id),
        sids_unique(old(list)@) ==> sids_unique(final(list)@),
{
    let n = list.len();
    let mut i: usize = 0;
    while i < n
        invariant
            0 <= i <= n,
            list@ == old(list)@,
            forall|j: int| 0 <= j < i ==> !sid_eq(list@[j], id),
        decreases n - i,
    {
        if list[i] == id {
            proof {
                assert(has_sid(list@, id));
            }
            return;
        }
        i += 1;
    }
    list.push(id);
    proof {
        assert(!has_sid(old(list)@, id));
        if sids_unique(old(list)@) {
            assert forall|p: int, q: int| 0 <= p < q < list@.len() implies !sid_eq(
                list@[p],
                list@[q],
            ) by {
                if q < list@.len() - 1 {
                    assert(!sid_eq(old(list)@[p], old(list)@[q]));
                } else {
                    assert(!sid_eq(list@[p], id));
                }
            }
        }
    }
}

/// The body of a service shape: a version string and sets of operation and
/// resource references.
#[derive(Debug, PartialEq)]
pub struct Service {
    pub version: String,
    pub operations: Vec<ShapeID>,
    pub resources: Vec<ShapeID>,
}

impl Service {
    pub fn new(version: &str) -> (r: Self)
        ensures
            r.version@ == version@,
            r.operations@ == Seq::<ShapeID>::empty(),
            r.resources@ == Seq::<ShapeID>::empty(),
    {
        Service { version: version.to_owned(), operations: Vec::new(), resources: Vec::new() }
    }

    pub fn add_operation(&mut self, op: ShapeID)
        ensures
            final(self).operations@ == add_sid_spec(old(self).operations@, op),
            final(self).version == old(self).version,
            final(self).resources == old(self).resources,
    {
        add_sid(&mut self.operations, op);
    }

    pub fn add_resource(&mut self, res: ShapeID)
        ensures
            final(self).resources@ == add_sid_spec(old(self).resources@, res),
            final(self).version == old(self).version,
            final(self).operations == old(self).operations,
    {
        add_sid(&mut self.resources, res);
    }
}

/// The body of an operation shape: optional input and output structure
/// references and a set of error structure references.
#[derive(Debug, PartialEq)]
pub struct Operation {
    pub input: Option<ShapeID>,
    pub output: Option<ShapeID>,
    pub errors: Vec<ShapeID>,
}

impl Operation {
    pub fn new() -> (r: Self)
        ensures
            r.input is None,
            r.output is None,
            r.errors@ == Seq::<ShapeID>::empty(),
    {
        Operation { input: None, output: None, errors: Vec::new() }
    }

    pub fn add_error(&mut self, err: ShapeID)
        ensures
            final(self).errors@ == add_sid_spec(old(self).errors@, err),
            final(self).input == old(self).input,
            final(self).output == old(self).output,
    {
        add_sid(&mut self.errors, err);
    }
}

impl Default for Operation {
    fn default() -> (r: Self)
        ensures
            r.input is None,
            r.output is None,
            r.errors@ == Seq::<ShapeID>::empty(),
    {
        Operation::new()
    }
}

/// The body of a resource shape: an identifier name-to-type mapping, up to
/// six lifecycle operation references, arbitrary instance and collection
/// operation reference sets, and child resource references.
///
/// The plain optional fields are set directly; the reference lists are grown
/// through the setlike `add` operations.
#[derive(Debug, PartialEq)]
pub struct Resource {
    pub identifiers: Vec<(Identifier, ShapeID)>,
    pub create: Option<ShapeID>,
    pub put: Option<ShapeID>,
    pub read: Option<ShapeID>,
    pub update: Option<ShapeID>,
    pub delete: Option<ShapeID>,
    pub list: Option<ShapeID>,
    pub operations: Vec<ShapeID>,
    pub collection_operations: Vec<ShapeID>,
    pub resources: Vec<ShapeID>,
}

/// Whether some resource identifier entry is named `name`.
pub open spec fn has_ident_name(es: Seq<(Identifier, ShapeID)>, name: Seq<char>) -> bool {
    exists|i: int| 0 <= i < es.len() && #[trigger] es[i].0.value@ == name
}

/// The position of the entry named `name`; meaningful only when the list
/// holds exactly one such entry.
pub open spec fn ident_name_pos(es: Seq<(Identifier, ShapeID)>, name: Seq<char>) -> int {
    choose|i: int| 0 <= i < es.len() && #[trigger] es[i].0.value@ == name
}

/// Adding a resource identifier: replace the entry with the same name if one
/// is present (last write wins), otherwise append.
pub open spec fn add_ident_spec(
    es: Seq<(Identifier, ShapeID)>,
    name: Identifier,
    target: ShapeID,
) -> Seq<(Identifier, ShapeID)> {
    if has_ident_name(es, name.value@) {
        es.update(ident_name_pos(es, name.value@), (name, target))
    } else {
        es.push((name, target))
    }
}

/// No identifier name occurs twice.
pub open spec fn ident_names_unique(es: Seq<(Identifier, ShapeID)>) -> bool {
    forall|i: int, j: int|
        0 <= i < j < es.len() ==> (#[trigger] es[i]).0.value@ != (#[trigger] es[j]).0.value@
}

impl Resource {
    pub fn new() -> (r: Self)
        ensures
            r.identifiers@ == Seq::<(Identifier, ShapeID)>::empty(),
            r.create is None,
            r.put is None,
            r.read is None,
            r.update is None,
            r.delete is None,
            r.list is None,
            r.operations@ == Seq::<ShapeID>::empty(),
            r.collection_operations@ == Seq::<ShapeID>::empty(),
            r.resources@ == Seq::<ShapeID>::empty(),
    {
        Resource {
            identifiers: Vec::new(),
            create: None,
            put: None,
            read: None,
            update: None,
            delete: None,
            list: None,
            operations: Vec::new(),
            collection_operations: Vec::new(),
            resources: Vec::new(),
        }
    }

    /// Add an identifier entry; a second entry with the same name replaces
    /// the first (last write wins).
    #[verifier::loop_isolation(false)]
    pub fn add_identifier(&mut self, name: Identifier, target: ShapeID)
        requires
            ident_names_unique(old(self).identifiers@),
        ensures
            final(self).identifiers@ == add_ident_spec(old(self).identifiers@, name, target),
            ident_names_unique(final(self).identifiers@),
            final(self).create == old(self).create,
            final(self).put == old(self).put,
            final(self).read == old(self).read,
            final(self).update == old(self).update,
            final(self).delete == old(self).delete,
            final(self).list == old(self).list,
            final(self).operations == old(self).operations,
            final(self).collection_operations == old(self).collection_operations,
            final(self).resources == old(self).resources,
    {
        let n = self.identifiers.len();
        let mut i: usize = 0;
        while i < n
            invariant
                0 <= i <= n,
                self.identifiers@ == old(self).identifiers@,
                self.create == old(self).create,
                self.put == old(self).put,
                self.read == old(self).read,
                self.update == old(self).update,
                self.delete == old(self).delete,
                self.list == old(self).list,
                self.operations == old(self).operations,
                self.collection_operations == old(self).collection_operations,
                self.resources == old(self).resources,
                forall|j: int| 0 <= j < i ==> self.identifiers@[j].0.value@ != name.value@,
            decreases n - i,
        {
            if self.identifiers[i].0 == name {
                proof {
                    assert(has_ident_name(self.identifiers@, name.value@));
                    let c = ident_name_pos(self.identifiers@, name.value@);
                    assert(0 <= c < self.identifiers@.len() && self.identifiers@[c].0.value@
                        == name.value@);
                    if c < i as int {
                        assert(self.identifiers@[c].0.value@ != name.value@);
                    } else if c > i as int {
                        assert(self.identifiers@[i as int].0.value@
                            != self.identifiers@[c].0.value@);
                    }
                    assert(c == i as int);
                }
                self.identifiers.set(i, (name, target));
                proof {
                    assert forall|p: int, q: int|
                        0 <= p < q < self.identifiers@.len() implies (
                    #[trigger] self.identifiers@[p]).0.value@ != (
                    #[trigger] self.identifiers@[q]).0.value@ by {
                        assert(old(self).identifiers@[p].0.value@
                            != old(self).identifiers@[q].0.value@);
                    }
                }
                return;
            }
            i += 1;
        }
        self.identifiers.push((name, target));
        proof {
            assert(!has_ident_name(old(self).identifiers@, name.value@));
            assert forall|p: int, q: int|
                0 <= p < q < self.identifiers@.len() implies (
            #[trigger] self.identifiers@[p]).0.value@ != (
            #[trigger] self.identifiers@[q]).0.value@ by {
                if q < self.identifiers@.len() - 1 {
                    assert(old(self).identifiers@[p].0.value@
                        != old(self).identifiers@[q].0.value@);
                } else {
                    assert(self.identifiers@[p].0.value@ != name.value@);
                }
            }
        }
    }

    pub fn add_operation(&mut self, op: ShapeID)
        ensures
            final(self).operations@ == add_sid_spec(old(self).operations@, op),
            final(self).identifiers == old(self).identifiers,
            final(self).create == old(self).create,
            final(self).put == old(self).put,
            final(self).read == old(self).read,
            final(self).update == old(self).update,
            final(self).delete == old(self).delete,
            final(self).list == old(self).list,
            final(self).collection_operations == old(self).collection_operations,
            final(self).resources == old(self).resources,
    {
        add_sid(&mut self.operations, op);
    }
}

impl Default for Resource {
    fn default() -> (r: Self)
        ensures
            r.identifiers@ == Seq::<(Identifier, ShapeID)>::empty(),
            r.create is None,
            r.put is None,
            r.read is None,
            r.update is None,
            r.delete is None,
            r.list is None,
            r.operations@ == Seq::<ShapeID>::empty(),
            r.collection_operations@ == Seq::<ShapeID>::empty(),
            r.resources@ == Seq::<ShapeID>::empty(),
    {
        Resource::new()
    }
}

// ------------------------------------------------------------------------
// Shape kinds and top-level shapes
// ------------------------------------------------------------------------

/// The closed set of shape kinds, each with its per-variant structural data.
#[derive(Debug, PartialEq)]
pub enum ShapeKind {
    Simple(Simple),
    List(ListOrSet),
    SetShape(ListOrSet),
    MapShape(MapShape),
    Structure(StructureOrUnion),
    Union(StructureOrUnion),
    Service(Service),
    Operation(Operation),
    Resource(Resource),
    /// A placeholder for a shape whose definition has not yet been supplied;
    /// it carries only traits, no structural body.
    Unresolved,
}

/// Structural equality of members for body comparison: same identifier and
/// same target.  Trait applications are merge data, not body structure, and
/// do not participate.
pub open spec fn member_equal(a: MemberShape, b: MemberShape) -> bool {
    sid_eq(a.id, b.id) && sid_eq(a.target, b.target)
}

pub open spec fn members_equal(a: Seq<MemberShape>, b: Seq<MemberShape>) -> bool {
    a.len() == b.len() && forall|i: int|
        0 <= i < a.len() ==> member_equal(#[trigger] a[i], #[trigger] b[i])
}

pub open spec fn sids_equal(a: Seq<ShapeID>, b: Seq<ShapeID>) -> bool {
    a.len() == b.len() && forall|i: int|
        0 <= i < a.len() ==> sid_eq(#[trigger] a[i], #[trigger] b[i])
}

pub open spec fn opt_sid_equal(a: Option<ShapeID>, b: Option<ShapeID>) -> bool {
    match (a, b) {
        (Some(x), Some(y)) => sid_eq(x, y),
        (None, None) => true,
        _ => false,
    }
}

pub open spec fn idents_equal(
    a: Seq<(Identifier, ShapeID)>,
    b: Seq<(Identifier, ShapeID)>,
) -> bool {
    a.len() == b.len() && forall|i: int|
        0 <= i < a.len() ==> (#[trigger] a[i]).0.value@ == (#[trigger] b[i]).0.value@ && sid_eq(
            a[i].1,
            b[i].1,
        )
}

/// Structural equality of shape bodies, as used for conflict detection when
/// a shape identifier is added to a model twice: the kinds match and their
/// structural data (member identifiers and targets, versions, references)
/// match in stored order.
pub open spec fn kind_equal(a: ShapeKind, b: ShapeKind) -> bool {
    match (a, b) {
        (ShapeKind::Simple(x), ShapeKind::Simple(y)) => x == y,
        (ShapeKind::List(x), ShapeKind::List(y)) => member_equal(x.member, y.member),
        (ShapeKind::SetShape(x), ShapeKind::SetShape(y)) => member_equal(x.member, y.member),
        (ShapeKind::MapShape(x), ShapeKind::MapShape(y)) => member_equal(x.key, y.key)
            && member_equal(x.value, y.value),
        (ShapeKind::Structure(x), ShapeKind::Structure(y)) => members_equal(x.members@, y.members@),
        (ShapeKind::Union(x), ShapeKind::Union(y)) => members_equal(x.members@, y.members@),
        (ShapeKind::Service(x), ShapeKind::Service(y)) => x.version@ == y.version@ && sids_equal(
            x.operations@,
            y.operations@,
        ) && sids_equal(x.resources@, y.resources@),
        (ShapeKind::Operation(x), ShapeKind::Operation(y)) => opt_sid_equal(x.input, y.input)
            && opt_sid_equal(x.output, y.output) && sids_equal(x.errors@, y.errors@),
        (ShapeKind::Resource(x), ShapeKind::Resource(y)) => idents_equal(
            x.identifiers@,
            y.identifiers@,
        ) && opt_sid_equal(x.create, y.create) && opt_sid_equal(x.put, y.put) && opt_sid_equal(
            x.read,
            y.read,
        ) && opt_sid_equal(x.update, y.update) && opt_sid_equal(x.delete, y.delete)
            && opt_sid_equal(x.list, y.list) && sids_equal(x.operations@, y.operations@)
            && sids_equal(x.collection_operations@, y.collection_operations@) && sids_equal(
            x.resources@,
            y.resources@,
        ),
        (ShapeKind::Unresolved, ShapeKind::Unresolved) => true,
        _ => false,
    }
}

fn member_eq(a: &MemberShape, b: &MemberShape) -> (r: bool)
    ensures
        r == member_equal(*a, *b),
{
    a.id == b.id && a.target == b.target
}

#[verifier::loop_isolation(false)]
fn members_eq(a: &Vec<MemberShape>, b: &Vec<MemberShape>) -> (r: bool)
    ensures
        r == members_equal(a@, b@),
{
    if a.len() != b.len() {
        return false;
    }
    let n = a.len();
    let mut i: usize = 0;
    while i < n
        invariant
            0 <= i <= n,
            forall|j: int| 0 <= j < i ==> member_equal(#[trigger] a@[j], #[trigger] b@[j]),
        decreases n - i,
    {
        if !member_eq(&a[i], &b[i]) {
            return false;
        }
        i += 1;
    }
    true
}

#[verifier::loop_isolation(false)]
fn sids_eq(a: &Vec<ShapeID>, b: &Vec<ShapeID>) -> (r: bool)
    ensures
        r == sids_equal(a@, b@),
{
    if a.len() != b.len() {
        return false;
    }
    let n = a.len();
    let mut i: usize = 0;
    while i < n
        invariant
            0 <= i <= n,
            forall|j: int| 0 <= j < i ==> sid_eq(#[trigger] a@[j], #[trigger] b@[j]),
        decreases n - i,
    {
        if !(a[i] == b[i]) {
            return false;
        }
        i += 1;
    }
    true
}

fn opt_sid_eq(a: &Option<ShapeID>, b: &Option<ShapeID>) -> (r: bool)
    ensures
        r == opt_sid_equal(*a, *b),
{
    match (a, b) {
        (Some(x), Some(y)) => *x == *y,
        (None, None) => true,
        _ => false,
    }
}

#[verifier::loop_isolation(false)]
fn idents_eq(a: &Vec<(Identifier, ShapeID)>, b: &Vec<(Identifier, ShapeID)>) -> (r: bool)
    ensures
        r == idents_equal(a@, b@),
{
    if a.len() != b.len() {
        return false;
    }
    let n = a.len();
    let mut i: usize = 0;
    while i < n
        invariant
            0 <= i <= n,
            forall|j: int|
                0 <= j < i ==> (#[trigger] a@[j]).0.value@ == (#[trigger] b@[j]).0.value@ && sid_eq(
                    a@[j].1,
                    b@[j].1,
                ),
        decreases n - i,
    {
        if !(a[i].0 == b[i].0 && a[i].1 == b[i].1) {
            return false;
        }
        i += 1;
    }
    true
}

/// Decide structural equality of two shape bodies.
pub fn kind_eq(a: &ShapeKind, b: &ShapeKind) -> (r: bool)
    ensures
        r == kind_equal(*a, *b),
{
    match (a, b) {
        (ShapeKind::Simple(x), ShapeKind::Simple(y)) => *x == *y,
        (ShapeKind::List(x), ShapeKind::List(y)) => member_eq(&x.member, &y.member),
        (ShapeKind::SetShape(x), ShapeKind::SetShape(y)) => member_eq(&x.member, &y.member),
        (ShapeKind::MapShape(x), ShapeKind::MapShape(y)) => member_eq(&x.key, &y.key) && member_eq(
            &x.value,
            &y.value,
        ),
        (ShapeKind::Structure(x), ShapeKind::Structure(y)) => members_eq(&x.members, &y.members),
        (ShapeKind::Union(x), ShapeKind::Union(y)) => members_eq(&x.members, &y.members),
        (ShapeKind::Service(x), ShapeKind::Service(y)) => x.version == y.version && sids_eq(
            &x.operations,
            &y.operations,
        ) && sids_eq(&x.resources, &y.resources),
        (ShapeKind::Operation(x), ShapeKind::Operation(y)) => opt_sid_eq(&x.input, &y.input)
            && opt_sid_eq(&x.output, &y.output) && sids_eq(&x.errors, &y.errors),
        (ShapeKind::Resource(x), ShapeKind::Resource(y)) => idents_eq(
            &x.identifiers,
            &y.identifiers,
        ) && opt_sid_eq(&x.create, &y.create) && opt_sid_eq(&x.put, &y.put) && opt_sid_eq(
            &x.read,
            &y.read,
        ) && opt_sid_eq(&x.update, &y.update) && opt_sid_eq(&x.delete, &y.delete) && opt_sid_eq(
            &x.list,
            &y.list,
        ) && sids_eq(&x.operations, &y.operations) && sids_eq(
            &x.collection_operations,
            &y.collection_operations,
        ) && sids_eq(&x.resources, &y.resources),
        (ShapeKind::Unresolved, ShapeKind::Unresolved) => true,
        _ => false,
    }
}

/// A top-level shape: its identity, its trait applications, and its body.
#[derive(Debug, PartialEq)]
pub struct TopLevelShape {
    pub id: ShapeID,
    pub traits: Vec<AppliedTrait>,
    pub body: ShapeKind,
}

impl TopLevelShape {
    /// The identity invariant: a top-level shape is addressed without a
    /// member name, and holds at most one trait per identifier.
    pub open spec fn wf(&self) -> bool {
        &&& self.id.wf()
        &&& self.id.member_name is None
        &&& trait_ids_unique(self.traits@)
    }

    pub fn new(id: ShapeID, body: ShapeKind) -> (r: Self)
        ensures
            r.id == id,
            r.body == body,
            r.traits@ == Seq::<AppliedTrait>::empty(),
    {
        TopLevelShape { id, traits: Vec::new(), body }
    }

    /// Apply a trait to this shape; a second application with the same
    /// identifier replaces the first (last write wins, by design).
    pub fn apply_trait(&mut self, t: AppliedTrait)
        requires
            trait_ids_unique(old(self).traits@),
        ensures
            final(self).id == old(self).id,
            final(self).body == old(self).body,
            final(self).traits@ == apply_trait_spec(old(self).traits@, t),
            trait_ids_unique(final(self).traits@),
    {
        apply_to_trait_list(&mut self.traits, t);
    }

    pub fn is_unresolved(&self) -> (r: bool)
        ensures
            r == (self.body is Unresolved),
    {
        match self.body {
            ShapeKind::Unresolved => true,
            _ => false,
        }
    }
}

impl HasTraits for TopLevelShape {
    open spec fn trait_list(&self) -> Seq<AppliedTrait> {
        self.traits@
    }

    fn traits(&self) -> (r: &Vec<AppliedTrait>) {
        &self.traits
    }

    fn has_traits(&self) -> (r: bool) {
        self.traits.len() > 0
    }

    fn has_trait(&self, id: &ShapeID) -> (r: bool) {
        has_trait_in_list(&self.traits, id)
    }

    fn apply_trait(&mut self, t: AppliedTrait) {
        apply_to_trait_list(&mut self.traits, t);
    }
}

// ------------------------------------------------------------------------
// Laws of trait application
// ------------------------------------------------------------------------

/// Characterization of one trait application on a duplicate-free list: the
/// result is duplicate-free, holds the new application at its position, and
/// grows only when the identifier was absent.
pub proof fn lemma_apply_trait_char(ts: Seq<AppliedTrait>, t: AppliedTrait)
    requires
        trait_ids_unique(ts),
    ensures
        ({
            let r = apply_trait_spec(ts, t);
            &&& trait_ids_unique(r)
            &&& has_trait_id(r, t.id)
            &&& 0 <= trait_pos(r, t.id) < r.len()
            &&& r[trait_pos(r, t.id)] == t
            &&& r.len() == (if has_trait_id(ts, t.id) {
                ts.len()
            } else {
                ts.len() + 1
            })
            &&& forall|j: int|
                0 <= j < r.len() && j != trait_pos(r, t.id) ==> !sid_eq((#[trigger] r[j]).id, t.id)
        }),
{
    let r = apply_trait_spec(ts, t);
    if has_trait_id(ts, t.id) {
        let p0 = trait_pos(ts, t.id);
        assert(0 <= p0 < ts.len() && sid_eq(ts[p0].id, t.id));
        assert(r == ts.update(p0, t));
        assert forall|p: int, q: int| 0 <= p < q < r.len() implies !sid_eq(
            (#[trigger] r[p]).id,
            (#[trigger] r[q]).id,
        ) by {
            assert(!sid_eq(ts[p].id, ts[q].id));
            if q == p0 {
                assert(sid_eq(ts[p0].id, t.id));
            } else if p == p0 {
                assert(sid_eq(ts[p0].id, t.id));
            }
        }
        assert(sid_eq(r[p0].id, t.id));
        assert(has_trait_id(r, t.id));
        let q0 = trait_pos(r, t.id);
        assert(0 <= q0 < r.len() && sid_eq(r[q0].id, t.id));
        if q0 != p0 {
            assert(r[q0] == ts[q0]);
            assert(sid_eq(ts[q0].id, ts[p0].id));
            assert(false);
        }
    } else {
        assert(r == ts.push(t));
        assert forall|p: int, q: int| 0 <= p < q < r.len() implies !sid_eq(
            (#[trigger] r[p]).id,
            (#[trigger] r[q]).id,
        ) by {
            if q < r.len() - 1 {
                assert(!sid_eq(ts[p].id, ts[q].id));
            } else {
                assert(!sid_eq(ts[p].id, t.id));
            }
        }
        let last = r.len() - 1;
        assert(sid_eq(r[last].id, t.id));
        assert(has_trait_id(r, t.id));
        let q0 = trait_pos(r, t.id);
        assert(0 <= q0 < r.len() && sid_eq(r[q0].id, t.id));
        if q0 != last {
            assert(sid_eq(ts[q0].id, t.id));
            assert(has_trait_id(ts, t.id));
            assert(false);
        }
    }
}

/// Merge semantics: applying a trait and then a second application with the
/// same identifier leaves exactly one application for that identifier, and
/// its value is the second one's (last write wins).
pub proof fn lemma_trait_merge_last_wins(ts: Seq<AppliedTrait>, t1: AppliedTrait, t2: AppliedTrait)
    requires
        trait_ids_unique(ts),
        sid_eq(t1.id, t2.id),
    ensures
        ({
            let r = apply_trait_spec(apply_trait_spec(ts, t1), t2);
            &&& trait_ids_unique(r)
            &&& has_trait_id(r, t2.id)
            &&& r[trait_pos(r, t2.id)] == t2
            &&& forall|j: int|
                0 <= j < r.len() && j != trait_pos(r, t2.id) ==> !sid_eq(
                    (#[trigger] r[j]).id,
                    t2.id,
                )
            &&& r.len() == (if has_trait_id(ts, t1.id) {
                ts.len()
            } else {
                ts.len() + 1
            })
        }),
{
    lemma_apply_trait_char(ts, t1);
    let mid = apply_trait_spec(ts, t1);
    lemma_apply_trait_char(mid, t2);
    let p = trait_pos(mid, t1.id);
    assert(sid_eq(mid[p].id, t2.id));
    assert(has_trait_id(mid, t2.id));
}

/// One application with a different identifier leaves an existing
/// application untouched, at its position.
proof fn lemma_apply_trait_preserves_other(ts: Seq<AppliedTrait>, t: AppliedTrait, id: ShapeID)
    requires
        trait_ids_unique(ts),
        has_trait_id(ts, id),
        !sid_eq(t.id, id),
    ensures
        ({
            let r = apply_trait_spec(ts, t);
            &&& trait_ids_unique(r)
            &&& has_trait_id(r, id)
            &&& r[trait_pos(r, id)] == ts[trait_pos(ts, id)]
        }),
{
    lemma_apply_trait_char(ts, t);
    let r = apply_trait_spec(ts, t);
    let p = trait_pos(ts, id);
    assert(0 <= p < ts.len() && sid_eq(ts[p].id, id));
    if has_trait_id(ts, t.id) {
        let q = trait_pos(ts, t.id);
        assert(0 <= q < ts.len() && sid_eq(ts[q].id, t.id));
        assert(q != p);
        assert(r == ts.update(q, t));
        assert(r[p] == ts[p]);
    } else {
        assert(r == ts.push(t));
        assert(r[p] == ts[p]);
    }
    assert(sid_eq(r[p].id, id));
    assert(has_trait_id(r, id));
    let p2 = trait_pos(r, id);
    assert(0 <= p2 < r.len() && sid_eq(r[p2].id, id));
    if p2 != p {
        assert(!sid_eq(r[p].id, r[p2].id));
        assert(false);
    }
}

/// Merge retention: a trait applied to the existing shape survives a merge
/// whose incoming list holds no application with the same identifier —
/// this is how an `Unresolved` placeholder's trait is retained when the
/// full definition arrives.  When the incoming list does re-apply the
/// identifier, the last write wins by design, so that case is left out.
pub proof fn lemma_merge_retains_trait(a: Seq<AppliedTrait>, b: Seq<AppliedTrait>, id: ShapeID)
    requires
        trait_ids_unique(a),
        has_trait_id(a, id),
        forall|i: int| 0 <= i < b.len() ==> !sid_eq((#[trigger] b[i]).id, id),
    ensures
        ({
            let r = merge_traits_spec(a, b);
            &&& has_trait_id(r, id)
            &&& r[trait_pos(r, id)] == a[trait_pos(a, id)]
        }),
    decreases b.len(),
{
    if b.len() > 0 {
        assert(!sid_eq(b[0].id, id));
        lemma_apply_trait_preserves_other(a, b[0], id);
        let mid = apply_trait_spec(a, b[0]);
        assert forall|i: int| 0 <= i < b.drop_first().len() implies !sid_eq(
            (#[trigger] b.drop_first()[i]).id,
            id,
        ) by {
            assert(b.drop_first()[i] == b[i + 1]);
        }
        lemma_merge_retains_trait(mid, b.drop_first(), id);
    }
}

} // verus!
