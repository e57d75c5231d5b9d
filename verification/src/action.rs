//! The validation-action framework: composable passes over a completed
//! model that produce structured diagnostics.
//!
//! The built-in structural actions check reference validity, per-kind
//! structural legality, and trait applicability.  Custom actions implement
//! the same `Action` contract; the framework runs an ordered sequence of
//! actions and concatenates their findings, and actions never observe each
//! other's output within one run.

use vstd::prelude::*;
use vstd::string::*;

verus! {

broadcast use vstd::seq::axiom_seq_index_decreases, vstd::seq::axiom_seq_subrange_decreases, vstd::std_specs::vec::axiom_vec_decreases_to_view, vstd::std_specs::vec::axiom_vec_index_decreases;

use crate::error::ModelError;
use crate::identity::{ShapeID, shape_id_text, sid_eq};
use crate::model::Model;
use crate::prelude::{is_prelude_id, is_prelude_shape_id, is_prelude_simple_name, prelude_simple_name};
use crate::shapes::{AppliedTrait, MemberShape, ShapeKind, TopLevelShape};
use crate::values::{collect_value_shape_ids, value_shape_ids};

// ------------------------------------------------------------------------
// Findings
// ------------------------------------------------------------------------

/// The severity of a finding.
#[derive(Clone, Copy, Debug, PartialEq, Eq, Structural)]
pub enum Severity {
    Info,
    Warning,
    Error,
}

/// One diagnostic record produced by a validation action.
#[derive(Debug, PartialEq)]
pub struct Finding {
    pub severity: Severity,
    pub shape: Option<ShapeID>,
    pub message: String,
    pub code: String,
}

/// Equality of findings up to string views; two findings that agree on
/// severity, subject shape, message text and code text are the same
/// diagnostic.
pub open spec fn finding_eq(a: Finding, b: Finding) -> bool {
    &&& a.severity == b.severity
    &&& match (a.shape, b.shape) {
        (Some(x), Some(y)) => sid_eq(x, y),
        (None, None) => true,
        _ => false,
    }
    &&& a.message@ == b.message@
    &&& a.code@ == b.code@
}

// ------------------------------------------------------------------------
// Reference collection
// ------------------------------------------------------------------------

/// The identifiers referenced from the values of a trait list.
pub open spec fn traits_value_refs(ts: Seq<AppliedTrait>) -> Seq<ShapeID>
    decreases ts,
{
    if ts.len() == 0 {
        Seq::<ShapeID>::empty()
    } else {
        traits_value_refs(ts.drop_last()) + match ts.last().value {
            Some(v) => value_shape_ids(v),
            None => Seq::<ShapeID>::empty(),
        }
    }
}

/// The identifiers referenced from one member: its target, then any
/// identifiers inside its trait values.
pub open spec fn member_refs(m: MemberShape) -> Seq<ShapeID> {
    seq![m.target] + traits_value_refs(m.traits@)
}

/// The identifiers referenced from a member list, in order.
pub open spec fn members_refs(ms: Seq<MemberShape>) -> Seq<ShapeID>
    decreases ms,
{
    if ms.len() == 0 {
        Seq::<ShapeID>::empty()
    } else {
        members_refs(ms.drop_last()) + member_refs(ms.last())
    }
}

pub open spec fn opt_refs(o: Option<ShapeID>) -> Seq<ShapeID> {
    match o {
        Some(sid) => seq![sid],
        None => Seq::<ShapeID>::empty(),
    }
}

/// The identifier targets of a resource's identifier entries.
pub open spec fn ident_targets(es: Seq<(crate::identity::Identifier, ShapeID)>) -> Seq<ShapeID> {
    Seq::new(es.len(), |i: int| es[i].1)
}

/// Every identifier referenced from a shape body: member targets and
/// service/operation/resource references, in reading order.
pub open spec fn kind_refs(k: ShapeKind) -> Seq<ShapeID> {
    match k {
        ShapeKind::Simple(_) => Seq::<ShapeID>::empty(),
        ShapeKind::List(b) => member_refs(b.member),
        ShapeKind::SetShape(b) => member_refs(b.member),
        ShapeKind::MapShape(b) => member_refs(b.key) + member_refs(b.value),
        ShapeKind::Structure(b) => members_refs(b.members@),
        ShapeKind::Union(b) => members_refs(b.members@),
        ShapeKind::Service(b) => b.operations@ + b.resources@,
        ShapeKind::Operation(b) => opt_refs(b.input) + opt_refs(b.output) + b.errors@,
        ShapeKind::Resource(b) => ident_targets(b.identifiers@) + opt_refs(b.create) + opt_refs(
            b.put,
        ) + opt_refs(b.read) + opt_refs(b.update) + opt_refs(b.delete) + opt_refs(b.list)
            + b.operations@ + b.collection_operations@ + b.resources@,
        ShapeKind::Unresolved => Seq::<ShapeID>::empty(),
    }
}

/// Every identifier referenced from a shape: trait values first, then the
/// body.
pub open spec fn shape_refs(s: TopLevelShape) -> Seq<ShapeID> {
    traits_value_refs(s.traits@) + kind_refs(s.body)
}

/// Append the identifiers referenced from the values of a trait list.
#[verifier::loop_isolation(false)]
fn collect_traits_refs(ts: &Vec<AppliedTrait>, out: &mut Vec<ShapeID>)
    ensures
        final(out)@ == old(out)@ + traits_value_refs(ts@),
{
    let n = ts.len();
    let mut i: usize = 0;
    proof {
        assert(out@ =~= old(out)@ + traits_value_refs(ts@.subrange(0, 0)));
    }
    while i < n
        invariant
            0 <= i <= n,
            out@ == old(out)@ + traits_value_refs(ts@.subrange(0, i as int)),
        decreases n - i,
    {
        match &ts[i].value {
            Some(v) => {
                collect_value_shape_ids(v, out);
            },
            None => {},
        }
        proof {
            let pre = ts@.subrange(0, i as int);
            let post = ts@.subrange(0, i + 1);
            assert(post.drop_last() =~= pre);
            assert(post.last() == ts@[i as int]);
            assert(out@ =~= old(out)@ + traits_value_refs(post));
        }
        i += 1;
    }
    proof {
        assert(ts@.subrange(0, n as int) =~= ts@);
    }
}

/// Append the identifiers referenced from one member.
#[verifier::loop_isolation(false)]
fn collect_member_refs(m: &MemberShape, out: &mut Vec<ShapeID>)
    ensures
        final(out)@ == old(out)@ + member_refs(*m),
{
    out.push(m.target.clone());
    collect_traits_refs(&m.traits, out);
    proof {
        assert(out@ =~= old(out)@ + member_refs(*m));
    }
}

/// Append the identifiers referenced from a member list.
#[verifier::loop_isolation(false)]
fn collect_members_refs(ms: &Vec<MemberShape>, out: &mut Vec<ShapeID>)
    ensures
        final(out)@ == old(out)@ + members_refs(ms@),
{
    let n = ms.len();
    let mut i: usize = 0;
    proof {
        assert(out@ =~= old(out)@ + members_refs(ms@.subrange(0, 0)));
    }
    while i < n
        invariant
            0 <= i <= n,
            out@ == old(out)@ + members_refs(ms@.subrange(0, i as int)),
        decreases n - i,
    {
        collect_member_refs(&ms[i], out);
        proof {
            let pre = ms@.subrange(0, i as int);
            let post = ms@.subrange(0, i + 1);
            assert(post.drop_last() =~= pre);
            assert(post.last() == ms@[i as int]);
            assert(out@ =~= old(out)@ + members_refs(post));
        }
        i += 1;
    }
    proof {
        assert(ms@.subrange(0, n as int) =~= ms@);
    }
}

/// Append a plain identifier list.
#[verifier::loop_isolation(false)]
fn collect_sid_list(s: &Vec<ShapeID>, out: &mut Vec<ShapeID>)
    ensures
        final(out)@ == old(out)@ + s@,
{
    let n = s.len();
    let mut i: usize = 0;
    while i < n
        invariant
            0 <= i <= n,
            out@ == old(out)@ + s@.subrange(0, i as int),
        decreases n - i,
    {
        out.push(s[i].clone());
        proof {
            assert(out@ =~= old(out)@ + s@.subrange(0, i + 1));
        }
        i += 1;
    }
    proof {
        assert(s@.subrange(0, n as int) =~= s@);
    }
}

/// Append an optional identifier.
fn collect_opt_ref(o: &Option<ShapeID>, out: &mut Vec<ShapeID>)
    ensures
        final(out)@ == old(out)@ + opt_refs(*o),
{
    match o {
        Some(sid) => {
            out.push(sid.clone());
            proof {
                assert(out@ =~= old(out)@ + opt_refs(*o));
            }
        },
        None => {
            proof {
                assert(out@ =~= old(out)@ + opt_refs(*o));
            }
        },
    }
}

/// Append every identifier referenced from a shape body.
#[verifier::loop_isolation(false)]
#[verifier::rlimit(60)]
fn collect_kind_refs(k: &ShapeKind, out: &mut Vec<ShapeID>)
    ensures
        final(out)@ == old(out)@ + kind_refs(*k),
{
    match k {
        ShapeKind::Simple(_) => {
            proof {
                assert(out@ =~= old(out)@ + kind_refs(*k));
            }
        },
        ShapeKind::List(b) => {
            collect_member_refs(&b.member, out);
        },
        ShapeKind::SetShape(b) => {
            collect_member_refs(&b.member, out);
        },
        ShapeKind::MapShape(b) => {
            collect_member_refs(&b.key, out);
            collect_member_refs(&b.value, out);
            proof {
                assert(out@ =~= old(out)@ + kind_refs(*k));
            }
        },
        ShapeKind::Structure(b) => {
            collect_members_refs(&b.members, out);
        },
        ShapeKind::Union(b) => {
            collect_members_refs(&b.members, out);
        },
        ShapeKind::Service(b) => {
            collect_sid_list(&b.operations, out);
            collect_sid_list(&b.resources, out);
            proof {
                assert(out@ =~= old(out)@ + kind_refs(*k));
            }
        },
        ShapeKind::Operation(b) => {
            collect_opt_ref(&b.input, out);
            collect_opt_ref(&b.output, out);
            collect_sid_list(&b.errors, out);
            proof {
                assert(out@ =~= old(out)@ + kind_refs(*k));
            }
        },
        ShapeKind::Resource(b) => {
            let n = b.identifiers.len();
            let mut i: usize = 0;
            proof {
                assert(out@ =~= old(out)@ + ident_targets(b.identifiers@.subrange(0, 0)));
            }
            while i < n
                invariant
                    0 <= i <= n,
                    out@ == old(out)@ + ident_targets(b.identifiers@.subrange(0, i as int)),
                decreases n - i,
            {
                out.push(b.identifiers[i].1.clone());
                proof {
                    assert(out@ =~= old(out)@ + ident_targets(
                        b.identifiers@.subrange(0, i + 1),
                    ));
                }
                i += 1;
            }
            proof {
                assert(b.identifiers@.subrange(0, n as int) =~= b.identifiers@);
            }
            collect_opt_ref(&b.create, out);
            collect_opt_ref(&b.put, out);
            collect_opt_ref(&b.read, out);
            collect_opt_ref(&b.update, out);
            collect_opt_ref(&b.delete, out);
            collect_opt_ref(&b.list, out);
            collect_sid_list(&b.operations, out);
            collect_sid_list(&b.collection_operations, out);
            collect_sid_list(&b.resources, out);
            proof {
                assert(out@ =~= old(out)@ + kind_refs(*k));
            }
        },
        ShapeKind::Unresolved => {
            proof {
                assert(out@ =~= old(out)@ + kind_refs(*k));
            }
        },
    }
}

/// Every identifier referenced from one shape.
pub fn collect_shape_refs(s: &TopLevelShape, out: &mut Vec<ShapeID>)
    ensures
        final(out)@ == old(out)@ + shape_refs(*s),
{
    collect_traits_refs(&s.traits, out);
    collect_kind_refs(&s.body, out);
    proof {
        assert(out@ =~= old(out)@ + shape_refs(*s));
    }
}

// ------------------------------------------------------------------------
// Resolution
// ------------------------------------------------------------------------

/// Identifier equality at the top-shape level: namespace and shape name
/// match; a member reference resolves through its containing shape.
pub open spec fn top_eq(a: ShapeID, b: ShapeID) -> bool {
    a.namespace.value@ == b.namespace.value@ && a.shape_name.value@ == b.shape_name.value@
}

/// Whether the table holds a top-level shape that `sid` resolves to.
pub open spec fn has_top(shapes: Seq<TopLevelShape>, sid: ShapeID) -> bool {
    exists|i: int| 0 <= i < shapes.len() && top_eq((#[trigger] shapes[i]).id, sid)
}

/// The position of the shape `sid` resolves to; meaningful only when the
/// table holds exactly one such shape.
pub open spec fn top_pos(shapes: Seq<TopLevelShape>, sid: ShapeID) -> int {
    choose|i: int| 0 <= i < shapes.len() && top_eq((#[trigger] shapes[i]).id, sid)
}

/// The shape `sid` resolves to in the table, if any.
pub open spec fn lookup_top(shapes: Seq<TopLevelShape>, sid: ShapeID) -> Option<TopLevelShape> {
    if has_top(shapes, sid) {
        Some(shapes[top_pos(shapes, sid)])
    } else {
        None
    }
}

/// A reference resolves when it addresses a shape present in the model or
/// any shape in the prelude namespace.
pub open spec fn resolves(shapes: Seq<TopLevelShape>, sid: ShapeID) -> bool {
    is_prelude_id(sid) || has_top(shapes, sid)
}

/// Top-level positions are unambiguous in a well-formed model: stored shapes
/// are addressed without member names, so identifier uniqueness carries over
/// to top-level equality.
pub open spec fn tops_unique(shapes: Seq<TopLevelShape>) -> bool {
    forall|i: int, j: int|
        0 <= i < j < shapes.len() ==> !top_eq((#[trigger] shapes[i]).id, (#[trigger] shapes[j]).id)
}

proof fn lemma_wf_tops_unique(m: Model)
    requires
        m.wf(),
    ensures
        tops_unique(m.shapes@),
{
    assert forall|i: int, j: int|
        0 <= i < j < m.shapes@.len() implies !top_eq(
        (#[trigger] m.shapes@[i]).id,
        (#[trigger] m.shapes@[j]).id,
    ) by {
        assert(m.shapes@[i].wf());
        assert(m.shapes@[j].wf());
        assert(!sid_eq(m.shapes@[i].id, m.shapes@[j].id));
    }
}

/// Find the top-level shape a reference resolves to in the table.
#[verifier::loop_isolation(false)]
fn find_top<'a>(shapes: &'a Vec<TopLevelShape>, sid: &ShapeID) -> (r: Option<&'a TopLevelShape>)
    requires
        tops_unique(shapes@),
    ensures
        r is Some <==> has_top(shapes@, *sid),
        r matches Some(s) ==> top_eq(s.id, *sid) && *s == shapes@[top_pos(shapes@, *sid)],
{
    let n = shapes.len();
    let mut i: usize = 0;
    while i < n
        invariant
            0 <= i <= n,
            forall|j: int| 0 <= j < i ==> !top_eq((#[trigger] shapes@[j]).id, *sid),
        decreases n - i,
    {
        if shapes[i].id.namespace == sid.namespace && shapes[i].id.shape_name == sid.shape_name {
            proof {
                assert(has_top(shapes@, *sid));
                let c = top_pos(shapes@, *sid);
                assert(0 <= c < shapes@.len() && top_eq(shapes@[c].id, *sid));
                if c < i as int {
                    assert(!top_eq(shapes@[c].id, *sid));
                } else if c > i as int {
                    assert(!top_eq(shapes@[i as int].id, shapes@[c].id));
                }
                assert(c == i as int);
            }
            return Some(&shapes[i]);
        }
        i += 1;
    }
    None
}

/// Whether a reference resolves against the model or the prelude.
fn reference_resolves(model: &Model, sid: &ShapeID) -> (r: bool)
    requires
        model.wf(),
    ensures
        r == resolves(model.shapes@, *sid),
{
    proof {
        lemma_wf_tops_unique(*model);
    }
    if is_prelude_shape_id(sid) {
        return true;
    }
    match find_top(&model.shapes, sid) {
        Some(_) => true,
        None => false,
    }
}

// ------------------------------------------------------------------------
// The reference-validity action
// ------------------------------------------------------------------------

/// The subsequence of `refs` that does not resolve, in order.
pub open spec fn unresolved_in(shapes: Seq<TopLevelShape>, refs: Seq<ShapeID>) -> Seq<ShapeID>
    decreases refs,
{
    if refs.len() == 0 {
        Seq::<ShapeID>::empty()
    } else {
        unresolved_in(shapes, refs.drop_last()) + (if resolves(shapes, refs.last()) {
            Seq::<ShapeID>::empty()
        } else {
            seq![refs.last()]
        })
    }
}

/// The (owning shape identifier, unresolved reference) occurrences of one
/// shape, in reading order.
pub open spec fn shape_unresolved_pairs(shapes: Seq<TopLevelShape>, s: TopLevelShape) -> Seq<
    (ShapeID, ShapeID),
> {
    Seq::new(
        unresolved_in(shapes, shape_refs(s)).len(),
        |i: int| (s.id, unresolved_in(shapes, shape_refs(s))[i]),
    )
}

/// The unresolved occurrences of the first `k` shapes.
pub open spec fn unresolved_pairs_upto(shapes: Seq<TopLevelShape>, k: int) -> Seq<
    (ShapeID, ShapeID),
>
    decreases k,
{
    if k <= 0 {
        Seq::<(ShapeID, ShapeID)>::empty()
    } else {
        unresolved_pairs_upto(shapes, k - 1) + shape_unresolved_pairs(shapes, shapes[k - 1])
    }
}

/// Every unresolved occurrence in the model, in reading order.
pub open spec fn unresolved_pairs(shapes: Seq<TopLevelShape>) -> Seq<(ShapeID, ShapeID)> {
    unresolved_pairs_upto(shapes, shapes.len() as int)
}

/// Collect the unresolved occurrences of the whole model.
#[verifier::loop_isolation(false)]
#[verifier::rlimit(60)]
fn collect_unresolved_pairs(model: &Model) -> (r: Vec<(ShapeID, ShapeID)>)
    requires
        model.wf(),
    ensures
        r@ == unresolved_pairs(model.shapes@),
{
    let mut out: Vec<(ShapeID, ShapeID)> = Vec::new();
    let n = model.shapes.len();
    let mut i: usize = 0;
    proof {
        assert(out@ =~= unresolved_pairs_upto(model.shapes@, 0));
    }
    while i < n
        invariant
            0 <= i <= n,
            out@ == unresolved_pairs_upto(model.shapes@, i as int),
        decreases n - i,
    {
        let mut refs: Vec<ShapeID> = Vec::new();
        collect_shape_refs(&model.shapes[i], &mut refs);
        let ghost base = out@;
        let ghost all_refs = refs@;
        let m = refs.len();
        let mut k: usize = 0;
        proof {
            assert(unresolved_in(model.shapes@, all_refs.subrange(0, 0)) =~= Seq::<
                ShapeID,
            >::empty());
            assert(out@ =~= base + Seq::new(
                unresolved_in(model.shapes@, all_refs.subrange(0, 0)).len(),
                |t: int| (model.shapes@[i as int].id, unresolved_in(
                    model.shapes@,
                    all_refs.subrange(0, 0),
                )[t]),
            ));
        }
        while k < m
            invariant
                0 <= k <= m,
                m == all_refs.len(),
                refs@ == all_refs,
                out@ == base + Seq::new(
                    unresolved_in(model.shapes@, all_refs.subrange(0, k as int)).len(),
                    |t: int| (model.shapes@[i as int].id, unresolved_in(
                        model.shapes@,
                        all_refs.subrange(0, k as int),
                    )[t]),
                ),
            decreases m - k,
        {
            let ghost pre = all_refs.subrange(0, k as int);
            let ghost post = all_refs.subrange(0, k + 1);
            if !reference_resolves(model, &refs[k]) {
                out.push((model.shapes[i].id.clone(), refs[k].clone()));
            }
            proof {
                assert(post.drop_last() =~= pre);
                assert(post.last() == all_refs[k as int]);
                assert(out@ =~= base + Seq::new(
                    unresolved_in(model.shapes@, post).len(),
                    |t: int| (model.shapes@[i as int].id, unresolved_in(model.shapes@, post)[t]),
                ));
            }
            k += 1;
        }
        proof {
            assert(all_refs.subrange(0, m as int) =~= all_refs);
            assert(all_refs == shape_refs(model.shapes@[i as int]));
            assert(Seq::new(
                unresolved_in(model.shapes@, all_refs).len(),
                |t: int| (model.shapes@[i as int].id, unresolved_in(model.shapes@, all_refs)[t]),
            ) =~= shape_unresolved_pairs(model.shapes@, model.shapes@[i as int]));
            assert(out@ =~= unresolved_pairs_upto(model.shapes@, i + 1));
        }
        i += 1;
    }
    out
}

/// The message of an unresolved-reference finding.
pub open spec fn unresolved_message(r: ShapeID) -> Seq<char> {
    "unresolved shape reference: "@ + shape_id_text(r)
}

/// What an unresolved-reference finding says: an error, keyed to the owning
/// shape, naming the reference.
pub open spec fn is_unresolved_finding(f: Finding, owner: ShapeID, r: ShapeID) -> bool {
    &&& f.severity == Severity::Error
    &&& f.shape == Some(owner)
    &&& f.message@ == unresolved_message(r)
    &&& f.code@ == "UnresolvedReference"@
}

/// The built-in reference-validity action: every member target, trait-value
/// shape identifier, and service/operation/resource reference must resolve
/// to a shape in the model or the prelude; each occurrence that does not
/// yields exactly one error finding keyed to the referencing shape.
pub struct ReferenceValidator {
}

impl ReferenceValidator {
    pub fn new() -> (r: Self) {
        ReferenceValidator {  }
    }

    /// Run the pass; the findings are exactly the unresolved occurrences of
    /// the model, in reading order.
    #[verifier::loop_isolation(false)]
    pub fn findings(model: &Model) -> (r: Vec<Finding>)
        requires
            model.wf(),
        ensures
            r@.len() == unresolved_pairs(model.shapes@).len(),
            forall|t: int|
                0 <= t < r@.len() ==> is_unresolved_finding(
                    #[trigger] r@[t],
                    unresolved_pairs(model.shapes@)[t].0,
                    unresolved_pairs(model.shapes@)[t].1,
                ),
    {
        let pairs = collect_unresolved_pairs(model);
        let mut out: Vec<Finding> = Vec::new();
        let n = pairs.len();
        let mut i: usize = 0;
        while i < n
            invariant
                0 <= i <= n,
                out@.len() == i,
                forall|t: int|
                    0 <= t < i ==> is_unresolved_finding(
                        #[trigger] out@[t],
                        pairs@[t].0,
                        pairs@[t].1,
                    ),
            decreases n - i,
        {
            let mut message = String::from_str("unresolved shape reference: ");
            let text = pairs[i].1.to_string();
            message.append(text.as_str());
            let f = Finding {
                severity: Severity::Error,
                shape: Some(pairs[i].0.clone()),
                message,
                code: String::from_str("UnresolvedReference"),
            };
            out.push(f);
            i += 1;
        }
        out
    }
}

// ------------------------------------------------------------------------
// The shape-kind legality action
// ------------------------------------------------------------------------

/// One structural-legality violation.
#[derive(Debug, PartialEq)]
pub enum LegalityIssue {
    /// A union with no variants.
    EmptyUnion,
    /// A resource identifier whose target is not a simple shape.
    ResourceIdentifierTarget(ShapeID),
    /// An operation input or output that does not resolve to a structure.
    OperationBinding(ShapeID),
}

/// A resource identifier target is illegal when it resolves to a non-simple
/// shape in the model, or to a prelude name that is not a built-in simple
/// type.  An absent target is the reference validator's finding, not this
/// one's.
pub open spec fn bad_resource_ident(shapes: Seq<TopLevelShape>, t: ShapeID) -> bool {
    match lookup_top(shapes, t) {
        Some(sh) => !(sh.body is Simple),
        None => is_prelude_id(t) && !is_prelude_simple_name(t.shape_name.value@),
    }
}

/// An operation input or output is illegal when it resolves to a non-structure
/// shape in the model, or into the prelude, which holds no structures.
pub open spec fn bad_operation_io(shapes: Seq<TopLevelShape>, t: ShapeID) -> bool {
    match lookup_top(shapes, t) {
        Some(sh) => !(sh.body is Structure),
        None => is_prelude_id(t),
    }
}

/// The legality issues of a resource's identifier entries, in order.
pub open spec fn res_ident_issues(
    shapes: Seq<TopLevelShape>,
    es: Seq<(crate::identity::Identifier, ShapeID)>,
) -> Seq<LegalityIssue>
    decreases es,
{
    if es.len() == 0 {
        Seq::<LegalityIssue>::empty()
    } else {
        res_ident_issues(shapes, es.drop_last()) + (if bad_resource_ident(shapes, es.last().1) {
            seq![LegalityIssue::ResourceIdentifierTarget(es.last().1)]
        } else {
            Seq::<LegalityIssue>::empty()
        })
    }
}

pub open spec fn opt_io_issue(shapes: Seq<TopLevelShape>, o: Option<ShapeID>) -> Seq<
    LegalityIssue,
> {
    match o {
        Some(t) => if bad_operation_io(shapes, t) {
            seq![LegalityIssue::OperationBinding(t)]
        } else {
            Seq::<LegalityIssue>::empty()
        },
        None => Seq::<LegalityIssue>::empty(),
    }
}

/// The structural-legality issues of one shape.
pub open spec fn shape_legality_issues(shapes: Seq<TopLevelShape>, s: TopLevelShape) -> Seq<
    LegalityIssue,
> {
    match s.body {
        ShapeKind::Union(b) => if b.members@.len() == 0 {
            seq![LegalityIssue::EmptyUnion]
        } else {
            Seq::<LegalityIssue>::empty()
        },
        ShapeKind::Resource(b) => res_ident_issues(shapes, b.identifiers@),
        ShapeKind::Operation(b) => opt_io_issue(shapes, b.input) + opt_io_issue(shapes, b.output),
        _ => Seq::<LegalityIssue>::empty(),
    }
}

pub open spec fn legality_pairs_upto(shapes: Seq<TopLevelShape>, k: int) -> Seq<
    (ShapeID, LegalityIssue),
>
    decreases k,
{
    if k <= 0 {
        Seq::<(ShapeID, LegalityIssue)>::empty()
    } else {
        legality_pairs_upto(shapes, k - 1) + Seq::new(
            shape_legality_issues(shapes, shapes[k - 1]).len(),
            |i: int| (shapes[k - 1].id, shape_legality_issues(shapes, shapes[k - 1])[i]),
        )
    }
}

/// Every structural-legality violation in the model, in reading order.
pub open spec fn legality_pairs(shapes: Seq<TopLevelShape>) -> Seq<(ShapeID, LegalityIssue)> {
    legality_pairs_upto(shapes, shapes.len() as int)
}

/// Decide whether a resource identifier target is illegal.
fn check_bad_resource_ident(model: &Model, t: &ShapeID) -> (r: bool)
    requires
        model.wf(),
    ensures
        r == bad_resource_ident(model.shapes@, *t),
{
    proof {
        lemma_wf_tops_unique(*model);
    }
    match find_top(&model.shapes, t) {
        Some(sh) => {
            match &sh.body {
                ShapeKind::Simple(_) => false,
                _ => true,
            }
        },
        None => {
            is_prelude_shape_id(t) && !prelude_simple_name(t.shape_name.value.as_str())
        },
    }
}

/// Decide whether an operation input or output target is illegal.
fn check_bad_operation_io(model: &Model, t: &ShapeID) -> (r: bool)
    requires
        model.wf(),
    ensures
        r == bad_operation_io(model.shapes@, *t),
{
    proof {
        lemma_wf_tops_unique(*model);
    }
    match find_top(&model.shapes, t) {
        Some(sh) => {
            match &sh.body {
                ShapeKind::Structure(_) => false,
                _ => true,
            }
        },
        None => is_prelude_shape_id(t),
    }
}

/// Collect the structural-legality violations of the whole model.
#[verifier::loop_isolation(false)]
#[verifier::rlimit(100)]
fn collect_legality_pairs(model: &Model) -> (r: Vec<(ShapeID, LegalityIssue)>)
    requires
        model.wf(),
    ensures
        r@ == legality_pairs(model.shapes@),
{
    let mut out: Vec<(ShapeID, LegalityIssue)> = Vec::new();
    let n = model.shapes.len();
    let mut i: usize = 0;
    proof {
        assert(out@ =~= legality_pairs_upto(model.shapes@, 0));
    }
    while i < n
        invariant
            0 <= i <= n,
            out@ == legality_pairs_upto(model.shapes@, i as int),
        decreases n - i,
    {
        let ghost base = out@;
        let ghost cur = model.shapes@[i as int];
        match &model.shapes[i].body {
            ShapeKind::Union(b) => {
                if b.members.len() == 0 {
                    out.push((model.shapes[i].id.clone(), LegalityIssue::EmptyUnion));
                }
            },
            ShapeKind::Resource(b) => {
                let ghost es = b.identifiers@;
                let m = b.identifiers.len();
                let mut k: usize = 0;
                proof {
                    assert(res_ident_issues(model.shapes@, es.subrange(0, 0)) =~= Seq::<
                        LegalityIssue,
                    >::empty());
                    assert(out@ =~= base + Seq::new(
                        res_ident_issues(model.shapes@, es.subrange(0, 0)).len(),
                        |t: int| (cur.id, res_ident_issues(model.shapes@, es.subrange(0, 0))[t]),
                    ));
                }
                while k < m
                    invariant
                        0 <= k <= m,
                        m == es.len(),
                        b.identifiers@ == es,
                        out@ == base + Seq::new(
                            res_ident_issues(model.shapes@, es.subrange(0, k as int)).len(),
                            |t: int| (cur.id, res_ident_issues(
                                model.shapes@,
                                es.subrange(0, k as int),
                            )[t]),
                        ),
                    decreases m - k,
                {
                    let ghost pre = es.subrange(0, k as int);
                    let ghost post = es.subrange(0, k + 1);
                    if check_bad_resource_ident(model, &b.identifiers[k].1) {
                        out.push((
                            model.shapes[i].id.clone(),
                            LegalityIssue::ResourceIdentifierTarget(b.identifiers[k].1.clone()),
                        ));
                    }
                    proof {
                        assert(post.drop_last() =~= pre);
                        assert(post.last() == es[k as int]);
                        assert(out@ =~= base + Seq::new(
                            res_ident_issues(model.shapes@, post).len(),
                            |t: int| (cur.id, res_ident_issues(model.shapes@, post)[t]),
                        ));
                    }
                    k += 1;
                }
                proof {
                    assert(es.subrange(0, m as int) =~= es);
                }
            },
            ShapeKind::Operation(b) => {
                match &b.input {
                    Some(t) => {
                        if check_bad_operation_io(model, t) {
                            out.push((
                                model.shapes[i].id.clone(),
                                LegalityIssue::OperationBinding(t.clone()),
                            ));
                        }
                    },
                    None => {},
                }
                match &b.output {
                    Some(t) => {
                        if check_bad_operation_io(model, t) {
                            out.push((
                                model.shapes[i].id.clone(),
                                LegalityIssue::OperationBinding(t.clone()),
                            ));
                        }
                    },
                    None => {},
                }
            },
            _ => {},
        }
        proof {
            assert(out@ =~= base + Seq::new(
                shape_legality_issues(model.shapes@, cur).len(),
                |t: int| (cur.id, shape_legality_issues(model.shapes@, cur)[t]),
            ));
            assert(out@ =~= legality_pairs_upto(model.shapes@, i + 1));
        }
        i += 1;
    }
    out
}

/// The message of a legality finding.
pub open spec fn legality_message(issue: LegalityIssue) -> Seq<char> {
    match issue {
        LegalityIssue::EmptyUnion => "union has no members"@,
        LegalityIssue::ResourceIdentifierTarget(t) => "resource identifier target is not a simple shape: "@
            + shape_id_text(t),
        LegalityIssue::OperationBinding(t) => "operation input or output does not resolve to a structure: "@
            + shape_id_text(t),
    }
}

pub open spec fn legality_code(issue: LegalityIssue) -> Seq<char> {
    match issue {
        LegalityIssue::EmptyUnion => "EmptyUnion"@,
        LegalityIssue::ResourceIdentifierTarget(_) => "ResourceIdentifierType"@,
        LegalityIssue::OperationBinding(_) => "OperationBinding"@,
    }
}

/// What a legality finding says: an error keyed to the offending shape.
pub open spec fn is_legality_finding(f: Finding, owner: ShapeID, issue: LegalityIssue) -> bool {
    &&& f.severity == Severity::Error
    &&& f.shape == Some(owner)
    &&& f.message@ == legality_message(issue)
    &&& f.code@ == legality_code(issue)
}

/// The built-in shape-kind legality action: unions must not be empty,
/// resource identifier types must resolve to simple shapes, and operation
/// inputs and outputs, when present, must resolve to structures.
pub struct ShapeLegalityValidator {
}

impl ShapeLegalityValidator {
    pub fn new() -> (r: Self) {
        ShapeLegalityValidator {  }
    }

    /// Run the pass; the findings are exactly the legality violations of the
    /// model, in reading order.
    #[verifier::loop_isolation(false)]
    pub fn findings(model: &Model) -> (r: Vec<Finding>)
        requires
            model.wf(),
        ensures
            r@.len() == legality_pairs(model.shapes@).len(),
            forall|t: int|
                0 <= t < r@.len() ==> is_legality_finding(
                    #[trigger] r@[t],
                    legality_pairs(model.shapes@)[t].0,
                    legality_pairs(model.shapes@)[t].1,
                ),
    {
        let pairs = collect_legality_pairs(model);
        let mut out: Vec<Finding> = Vec::new();
        let n = pairs.len();
        let mut i: usize = 0;
        while i < n
            invariant
                0 <= i <= n,
                out@.len() == i,
                forall|t: int|
                    0 <= t < i ==> is_legality_finding(#[trigger] out@[t], pairs@[t].0, pairs@[t].1),
            decreases n - i,
        {
            let (message, code) = match &pairs[i].1 {
                LegalityIssue::EmptyUnion => (
                    String::from_str("union has no members"),
                    String::from_str("EmptyUnion"),
                ),
                LegalityIssue::ResourceIdentifierTarget(t) => {
                    let mut msg = String::from_str(
                        "resource identifier target is not a simple shape: ",
                    );
                    let text = t.to_string();
                    msg.append(text.as_str());
                    (msg, String::from_str("ResourceIdentifierType"))
                },
                LegalityIssue::OperationBinding(t) => {
                    let mut msg = String::from_str(
                        "operation input or output does not resolve to a structure: ",
                    );
                    let text = t.to_string();
                    msg.append(text.as_str());
                    (msg, String::from_str("OperationBinding"))
                },
            };
            let f = Finding {
                severity: Severity::Error,
                shape: Some(pairs[i].0.clone()),
                message,
                code,
            };
            out.push(f);
            i += 1;
        }
        out
    }
}

// ------------------------------------------------------------------------
// The trait-applicability action
// ------------------------------------------------------------------------

/// Whether a prelude trait is applied to a shape kind that forbids it.
/// Uniqueness per trait identifier is already guaranteed structurally, so
/// this pass instead checks applicability: `error` applies only to
/// structures, `readonly` and `idempotent` only to operations, and
/// `paginated` only to operations and services.
pub open spec fn trait_forbidden(tid: ShapeID, body: ShapeKind) -> bool {
    is_prelude_id(tid) && ((tid.shape_name.value@ == "error"@ && !(body is Structure)) || ((
    tid.shape_name.value@ == "readonly"@ || tid.shape_name.value@ == "idempotent"@) && !(
    body is Operation)) || (tid.shape_name.value@ == "paginated"@ && !(body is Operation
        || body is Service)))
}

/// The forbidden trait applications of one shape, in order.
pub open spec fn shape_trait_issues(ts: Seq<AppliedTrait>, body: ShapeKind) -> Seq<ShapeID>
    decreases ts,
{
    if ts.len() == 0 {
        Seq::<ShapeID>::empty()
    } else {
        shape_trait_issues(ts.drop_last(), body) + (if trait_forbidden(ts.last().id, body) {
            seq![ts.last().id]
        } else {
            Seq::<ShapeID>::empty()
        })
    }
}

pub open spec fn trait_pairs_upto(shapes: Seq<TopLevelShape>, k: int) -> Seq<(ShapeID, ShapeID)>
    decreases k,
{
    if k <= 0 {
        Seq::<(ShapeID, ShapeID)>::empty()
    } else {
        trait_pairs_upto(shapes, k - 1) + Seq::new(
            shape_trait_issues(shapes[k - 1].traits@, shapes[k - 1].body).len(),
            |i: int| (shapes[k - 1].id, shape_trait_issues(
                shapes[k - 1].traits@,
                shapes[k - 1].body,
            )[i]),
        )
    }
}

/// Every forbidden trait application in the model, in reading order.
pub open spec fn trait_pairs(shapes: Seq<TopLevelShape>) -> Seq<(ShapeID, ShapeID)> {
    trait_pairs_upto(shapes, shapes.len() as int)
}

/// Decide whether a trait application is forbidden on this body kind.
fn check_trait_forbidden(tid: &ShapeID, body: &ShapeKind) -> (r: bool)
    ensures
        r == trait_forbidden(*tid, *body),
{
    if !is_prelude_shape_id(tid) {
        return false;
    }
    let name = tid.shape_name.value.clone();
    let is_structure = match body {
        ShapeKind::Structure(_) => true,
        _ => false,
    };
    let is_operation = match body {
        ShapeKind::Operation(_) => true,
        _ => false,
    };
    let is_service = match body {
        ShapeKind::Service(_) => true,
        _ => false,
    };
    (name == String::from_str("error") && !is_structure) || ((name == String::from_str("readonly")
        || name == String::from_str("idempotent")) && !is_operation) || (name == String::from_str(
        "paginated",
    ) && !(is_operation || is_service))
}

/// The message of a trait-applicability finding.
pub open spec fn trait_message(tid: ShapeID) -> Seq<char> {
    "trait cannot be applied to this kind of shape: "@ + shape_id_text(tid)
}

/// What a trait-applicability finding says.
pub open spec fn is_trait_finding(f: Finding, owner: ShapeID, tid: ShapeID) -> bool {
    &&& f.severity == Severity::Error
    &&& f.shape == Some(owner)
    &&& f.message@ == trait_message(tid)
    &&& f.code@ == "TraitTarget"@
}

/// The built-in trait-applicability action.
pub struct TraitApplicationValidator {
}

impl TraitApplicationValidator {
    pub fn new() -> (r: Self) {
        TraitApplicationValidator {  }
    }

    /// Run the pass; the findings are exactly the forbidden trait
    /// applications of the model, in reading order.
    #[verifier::loop_isolation(false)]
    #[verifier::rlimit(60)]
    pub fn findings(model: &Model) -> (r: Vec<Finding>)
        requires
            model.wf(),
        ensures
            r@.len() == trait_pairs(model.shapes@).len(),
            forall|t: int|
                0 <= t < r@.len() ==> is_trait_finding(
                    #[trigger] r@[t],
                    trait_pairs(model.shapes@)[t].0,
                    trait_pairs(model.shapes@)[t].1,
                ),
    {
        let mut pairs: Vec<(ShapeID, ShapeID)> = Vec::new();
        let n = model.shapes.len();
        let mut i: usize = 0;
        proof {
            assert(pairs@ =~= trait_pairs_upto(model.shapes@, 0));
        }
        while i < n
            invariant
                0 <= i <= n,
                pairs@ == trait_pairs_upto(model.shapes@, i as int),
            decreases n - i,
        {
            let ghost base = pairs@;
            let ghost cur = model.shapes@[i as int];
            let ghost ts = cur.traits@;
            let m = model.shapes[i].traits.len();
            let mut k: usize = 0;
            proof {
                assert(shape_trait_issues(ts.subrange(0, 0), cur.body) =~= Seq::<
                    ShapeID,
                >::empty());
                assert(pairs@ =~= base + Seq::new(
                    shape_trait_issues(ts.subrange(0, 0), cur.body).len(),
                    |t: int| (cur.id, shape_trait_issues(ts.subrange(0, 0), cur.body)[t]),
                ));
            }
            while k < m
                invariant
                    0 <= k <= m,
                    m == ts.len(),
                    model.shapes@[i as int] == cur,
                    cur.traits@ == ts,
                    pairs@ == base + Seq::new(
                        shape_trait_issues(ts.subrange(0, k as int), cur.body).len(),
                        |t: int| (cur.id, shape_trait_issues(
                            ts.subrange(0, k as int),
                            cur.body,
                        )[t]),
                    ),
                decreases m - k,
            {
                let ghost pre = ts.subrange(0, k as int);
                let ghost post = ts.subrange(0, k + 1);
                if check_trait_forbidden(&model.shapes[i].traits[k].id, &model.shapes[i].body) {
                    pairs.push((
                        model.shapes[i].id.clone(),
                        model.shapes[i].traits[k].id.clone(),
                    ));
                }
                proof {
                    assert(post.drop_last() =~= pre);
                    assert(post.last() == ts[k as int]);
                    assert(pairs@ =~= base + Seq::new(
                        shape_trait_issues(post, cur.body).len(),
                        |t: int| (cur.id, shape_trait_issues(post, cur.body)[t]),
                    ));
                }
                k += 1;
            }
            proof {
                assert(ts.subrange(0, m as int) =~= ts);
                assert(pairs@ =~= trait_pairs_upto(model.shapes@, i + 1));
            }
            i += 1;
        }
        let mut out: Vec<Finding> = Vec::new();
        let total = pairs.len();
        let mut j: usize = 0;
        while j < total
            invariant
                0 <= j <= total,
                out@.len() == j,
                forall|t: int|
                    0 <= t < j ==> is_trait_finding(#[trigger] out@[t], pairs@[t].0, pairs@[t].1),
            decreases total - j,
        {
            let mut message = String::from_str("trait cannot be applied to this kind of shape: ");
            let text = pairs[j].1.to_string();
            message.append(text.as_str());
            let f = Finding {
                severity: Severity::Error,
                shape: Some(pairs[j].0.clone()),
                message,
                code: String::from_str("TraitTarget"),
            };
            out.push(f);
            j += 1;
        }
        out
    }
}

// ------------------------------------------------------------------------
// The framework
// ------------------------------------------------------------------------

/// A named, composable pass over a completed model.  Custom actions
/// implement this contract and run alongside the built-in ones; the
/// framework imposes no closed set of action kinds.
pub trait Action {
    /// The action's display name, for diagnostics.
    fn action_name(&self) -> String;

    /// Run the pass against a completed model.  An `Err` signals that the
    /// action itself malfunctioned — a defect in the action, not a property
    /// of the model — and aborts the surrounding run.
    fn check_model(&self, model: &Model) -> Result<Vec<Finding>, ModelError>
        requires
            model.wf(),
    ;
}

impl Action for ReferenceValidator {
    fn action_name(&self) -> String {
        String::from_str("ReferenceValidator")
    }

    fn check_model(&self, model: &Model) -> Result<Vec<Finding>, ModelError> {
        Ok(ReferenceValidator::findings(model))
    }
}

impl Action for ShapeLegalityValidator {
    fn action_name(&self) -> String {
        String::from_str("ShapeLegalityValidator")
    }

    fn check_model(&self, model: &Model) -> Result<Vec<Finding>, ModelError> {
        Ok(ShapeLegalityValidator::findings(model))
    }
}

impl Action for TraitApplicationValidator {
    fn action_name(&self) -> String {
        String::from_str("TraitApplicationValidator")
    }

    fn check_model(&self, model: &Model) -> Result<Vec<Finding>, ModelError> {
        Ok(TraitApplicationValidator::findings(model))
    }
}

/// Run an ordered sequence of actions against one model and concatenate
/// their findings.  Actions do not observe each other's output; the first
/// action that malfunctions aborts the run and its error surfaces as the
/// run's error.
#[verifier::loop_isolation(false)]
pub fn run_actions<A: Action>(actions: &Vec<A>, model: &Model) -> (r: Result<
    Vec<Finding>,
    ModelError,
>)
    requires
        model.wf(),
    ensures
        actions@.len() == 0 ==> (r matches Ok(fs) && fs@.len() == 0),
{
    let mut out: Vec<Finding> = Vec::new();
    let n = actions.len();
    let mut i: usize = 0;
    while i < n
        invariant
            n == 0 ==> out@.len() == 0,
        decreases n - i,
    {
        match actions[i].check_model(model) {
            Ok(mut fs) => {
                out.append(&mut fs);
            },
            Err(e) => {
                return Err(e);
            },
        }
        i += 1;
    }
    Ok(out)
}

/// What a full built-in validation run reports: the unresolved references,
/// then the structural-legality violations, then the forbidden trait
/// applications, each keyed to its shape, in reading order.
pub open spec fn is_validation_report(m: Model, r: Seq<Finding>) -> bool {
    let p1 = unresolved_pairs(m.shapes@);
    let p2 = legality_pairs(m.shapes@);
    let p3 = trait_pairs(m.shapes@);
    &&& r.len() == p1.len() + p2.len() + p3.len()
    &&& forall|t: int|
        0 <= t < p1.len() ==> is_unresolved_finding(#[trigger] r[t], p1[t].0, p1[t].1)
    &&& forall|t: int|
        p1.len() <= t < p1.len() + p2.len() ==> is_legality_finding(
            #[trigger] r[t],
            p2[t - p1.len()].0,
            p2[t - p1.len()].1,
        )
    &&& forall|t: int|
        p1.len() + p2.len() <= t < r.len() ==> is_trait_finding(
            #[trigger] r[t],
            p3[t - p1.len() - p2.len()].0,
            p3[t - p1.len() - p2.len()].1,
        )
}

/// Run the three built-in structural actions over a model and concatenate
/// their findings.
pub fn validate_model(model: &Model) -> (r: Vec<Finding>)
    requires
        model.wf(),
    ensures
        is_validation_report(*model, r@),
{
    let mut out = ReferenceValidator::findings(model);
    let mut legality = ShapeLegalityValidator::findings(model);
    let mut traits = TraitApplicationValidator::findings(model);
    out.append(&mut legality);
    out.append(&mut traits);
    out
}

/// A validation run that found at least one error-severity finding.
#[derive(Debug, PartialEq)]
pub struct ValidationError {
    pub findings: Vec<Finding>,
}

/// Whether any finding carries error severity.
pub open spec fn has_error_finding(fs: Seq<Finding>) -> bool {
    exists|i: int| 0 <= i < fs.len() && (#[trigger] fs[i]).severity == Severity::Error
}

/// Partition a finding set by whether it blocks downstream use: a set with
/// any error-severity entry comes back as a `ValidationError` wrapping the
/// whole set, and one with only warnings and notes comes back unchanged.
#[verifier::loop_isolation(false)]
pub fn validation_result(findings: Vec<Finding>) -> (r: Result<Vec<Finding>, ValidationError>)
    ensures
        r matches Ok(fs) ==> fs@ == findings@ && !has_error_finding(findings@),
        r matches Err(e) ==> e.findings@ == findings@ && has_error_finding(findings@),
{
    let n = findings.len();
    let mut i: usize = 0;
    let mut any_error = false;
    while i < n
        invariant
            0 <= i <= n,
            any_error == exists|j: int|
                0 <= j < i && (#[trigger] findings@[j]).severity == Severity::Error,
        decreases n - i,
    {
        let is_err = match findings[i].severity {
            Severity::Error => true,
            _ => false,
        };
        if is_err {
            any_error = true;
        }
        i += 1;
    }
    if any_error {
        Err(ValidationError { findings })
    } else {
        Ok(findings)
    }
}

// ------------------------------------------------------------------------
// Laws
// ------------------------------------------------------------------------

/// Validation is a function of the model alone: two runs of the built-in
/// validation over an unmodified model report the same findings, in the
/// same order, diagnostic for diagnostic.
pub proof fn lemma_validation_idempotent(m: Model, f1: Seq<Finding>, f2: Seq<Finding>)
    requires
        is_validation_report(m, f1),
        is_validation_report(m, f2),
    ensures
        f1.len() == f2.len(),
        forall|t: int| 0 <= t < f1.len() ==> finding_eq(#[trigger] f1[t], f2[t]),
{
    let p1 = unresolved_pairs(m.shapes@);
    let p2 = legality_pairs(m.shapes@);
    assert forall|t: int| 0 <= t < f1.len() implies finding_eq(#[trigger] f1[t], f2[t]) by {
        if t < p1.len() {
            assert(is_unresolved_finding(f1[t], p1[t].0, p1[t].1));
            assert(is_unresolved_finding(f2[t], p1[t].0, p1[t].1));
        } else if t < p1.len() + p2.len() {
            assert(is_legality_finding(f1[t], p2[t - p1.len()].0, p2[t - p1.len()].1));
            assert(is_legality_finding(f2[t], p2[t - p1.len()].0, p2[t - p1.len()].1));
        } else {
            let p3 = trait_pairs(m.shapes@);
            assert(is_trait_finding(f1[t], p3[t - p1.len() - p2.len()].0, p3[t - p1.len()
                - p2.len()].1));
            assert(is_trait_finding(f2[t], p3[t - p1.len() - p2.len()].0, p3[t - p1.len()
                - p2.len()].1));
        }
    }
}

/// Reference integrity: when a model's sole unresolved occurrence is the
/// reference `r` held by the shape `owner`, the reference-validity action
/// reports exactly one finding, an error keyed to that shape naming that
/// reference.
pub proof fn lemma_reference_integrity(
    shapes: Seq<TopLevelShape>,
    findings: Seq<Finding>,
    owner: ShapeID,
    r: ShapeID,
)
    requires
        findings.len() == unresolved_pairs(shapes).len(),
        forall|t: int|
            0 <= t < findings.len() ==> is_unresolved_finding(
                #[trigger] findings[t],
                unresolved_pairs(shapes)[t].0,
                unresolved_pairs(shapes)[t].1,
            ),
        unresolved_pairs(shapes) == seq![(owner, r)],
    ensures
        findings.len() == 1,
        findings[0].severity == Severity::Error,
        findings[0].shape == Some(owner),
        findings[0].message@ == unresolved_message(r),
{
    assert(unresolved_pairs(shapes).len() == 1);
    assert(unresolved_pairs(shapes)[0] == (owner, r));
    assert(is_unresolved_finding(findings[0], owner, r));
}

} // verus!
