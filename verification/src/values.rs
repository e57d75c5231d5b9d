//! Literal data attached to trait applications and model metadata.

use vstd::prelude::*;

verus! {

broadcast use vstd::seq::axiom_seq_index_decreases, vstd::seq::axiom_seq_subrange_decreases, vstd::std_specs::vec::axiom_vec_decreases_to_view, vstd::std_specs::vec::axiom_vec_index_decreases;

use crate::identity::ShapeID;

/// A literal number: an integer, or a floating-point value carried opaquely
/// as its IEEE 754 bit pattern, so that the data model itself involves no
/// floating-point arithmetic.  There is no implicit coercion between the two.
#[derive(Debug, Clone, Copy, PartialEq, Eq, Structural)]
pub enum Number {
    Integer(i64),
    /// The `f64` bit pattern, as produced by `f64::to_bits`.
    Float(u64),
}

/// A recursive tagged union of literal data.
///
/// Structural equality recurses; array elements compare in order, and
/// object entries compare as an unordered key/value collection, so the
/// insertion order of object keys is irrelevant for equality while being
/// preserved for serialization.
#[derive(Debug)]
pub enum NodeValue {
    /// The absence of a value.
    Null,
    Boolean(bool),
    Number(Number),
    String(String),
    /// A multi-line text block; distinct from a plain string.
    TextBlock(String),
    /// A reference to a shape, by fully-qualified identifier.
    ShapeID(ShapeID),
    /// An ordered sequence of values.
    Array(Vec<NodeValue>),
    /// An ordered mapping from string keys to values.
    Object(Vec<(String, NodeValue)>),
}

// ------------------------------------------------------------------------
// Shape identifiers referenced from inside a value
// ------------------------------------------------------------------------

/// All shape identifiers mentioned anywhere inside a value, in reading
/// order.
pub open spec fn value_shape_ids(v: NodeValue) -> Seq<ShapeID>
    decreases v,
{
    match v {
        NodeValue::ShapeID(sid) => seq![sid],
        NodeValue::Array(vs) => values_shape_ids(vs@),
        NodeValue::Object(es) => entries_shape_ids(es@),
        _ => Seq::<ShapeID>::empty(),
    }
}

/// The identifiers mentioned in a sequence of values.
pub open spec fn values_shape_ids(vs: Seq<NodeValue>) -> Seq<ShapeID>
    decreases vs,
{
    if vs.len() == 0 {
        Seq::<ShapeID>::empty()
    } else {
        values_shape_ids(vs.drop_last()) + value_shape_ids(vs.last())
    }
}

/// The identifiers mentioned in the values of a sequence of object entries.
pub open spec fn entries_shape_ids(es: Seq<(String, NodeValue)>) -> Seq<ShapeID>
    decreases es,
{
    if es.len() == 0 {
        Seq::<ShapeID>::empty()
    } else {
        entries_shape_ids(es.drop_last()) + value_shape_ids(es.last().1)
    }
}

/// Append to `out` every shape identifier mentioned inside `v`.
#[verifier::loop_isolation(false)]
pub fn collect_value_shape_ids(v: &NodeValue, out: &mut Vec<ShapeID>)
    ensures
        final(out)@ == old(out)@ + value_shape_ids(*v),
    decreases *v,
{
    match v {
        NodeValue::ShapeID(sid) => {
            out.push(sid.clone());
            proof {
                assert(out@ =~= old(out)@ + value_shape_ids(*v));
            }
        },
        NodeValue::Array(vs) => {
            let n = vs.len();
            let mut i: usize = 0;
            proof {
                assert(vs@.subrange(0, 0) =~= Seq::<NodeValue>::empty());
                assert(out@ =~= old(out)@ + values_shape_ids(vs@.subrange(0, 0)));
            }
            while i < n
                invariant
                    0 <= i <= n,
                    out@ == old(out)@ + values_shape_ids(vs@.subrange(0, i as int)),
                decreases n - i,
            {
                collect_value_shape_ids(&vs[i], out);
                proof {
                    let pre = vs@.subrange(0, i as int);
                    let post = vs@.subrange(0, i + 1);
                    assert(post.drop_last() =~= pre);
                    assert(post.last() == vs@[i as int]);
                    assert(out@ =~= old(out)@ + values_shape_ids(post));
                }
                i += 1;
            }
            proof {
                assert(vs@.subrange(0, n as int) =~= vs@);
            }
        },
        NodeValue::Object(es) => {
            let n = es.len();
            let mut i: usize = 0;
            proof {
                assert(es@.subrange(0, 0) =~= Seq::<(String, NodeValue)>::empty());
                assert(out@ =~= old(out)@ + entries_shape_ids(es@.subrange(0, 0)));
            }
            while i < n
                invariant
                    0 <= i <= n,
                    out@ == old(out)@ + entries_shape_ids(es@.subrange(0, i as int)),
                decreases n - i,
            {
                collect_value_shape_ids(&es[i].1, out);
                proof {
                    let pre = es@.subrange(0, i as int);
                    let post = es@.subrange(0, i + 1);
                    assert(post.drop_last() =~= pre);
                    assert(post.last() == es@[i as int]);
                    assert(out@ =~= old(out)@ + entries_shape_ids(post));
                }
                i += 1;
            }
            proof {
                assert(es@.subrange(0, n as int) =~= es@);
            }
        },
        _ => {
            proof {
                assert(out@ =~= old(out)@ + value_shape_ids(*v));
            }
        },
    }
}


// ------------------------------------------------------------------------
// Structural equality
// ------------------------------------------------------------------------

use crate::identity::sid_eq;

/// Structural equality of values.  Arrays compare elementwise in order;
/// objects compare as unordered key/value collections — with unique keys
/// this is equality of the mappings they denote.
pub open spec fn node_value_eq(a: NodeValue, b: NodeValue) -> bool
    decreases a, 0int,
{
    match (a, b) {
        (NodeValue::Null, NodeValue::Null) => true,
        (NodeValue::Boolean(x), NodeValue::Boolean(y)) => x == y,
        (NodeValue::Number(x), NodeValue::Number(y)) => x == y,
        (NodeValue::String(x), NodeValue::String(y)) => x@ == y@,
        (NodeValue::TextBlock(x), NodeValue::TextBlock(y)) => x@ == y@,
        (NodeValue::ShapeID(x), NodeValue::ShapeID(y)) => sid_eq(x, y),
        (NodeValue::Array(x), NodeValue::Array(y)) => x@.len() == y@.len() && forall|i: int|
            0 <= i < x@.len() ==> node_value_eq(#[trigger] x@[i], y@[i]),
        (NodeValue::Object(x), NodeValue::Object(y)) => {
            &&& x@.len() == y@.len()
            &&& forall|i: int| 0 <= i < x@.len() ==> obj_entry_in_spec(#[trigger] x@[i], y@)
            &&& forall|j: int| 0 <= j < y@.len() ==> obj_entry_matches_spec(x@, #[trigger] y@[j])
        },
        _ => false,
    }
}

/// Whether `others` holds an entry with `e`'s key and a value equal to
/// `e`'s.
pub open spec fn obj_entry_in_spec(e: (String, NodeValue), others: Seq<(String, NodeValue)>) -> bool
    decreases e.1, 1int,
{
    exists|j: int|
        0 <= j < others.len() && (#[trigger] others[j]).0@ == e.0@ && node_value_eq(
            e.1,
            others[j].1,
        )
}

/// Whether `entries` holds an entry with `e`'s key and a value equal to
/// `e`'s, comparing from the left-hand sides.
pub open spec fn obj_entry_matches_spec(
    entries: Seq<(String, NodeValue)>,
    e: (String, NodeValue),
) -> bool
    decreases entries, 1int,
{
    exists|i: int|
        0 <= i < entries.len() && (#[trigger] entries[i]).0@ == e.0@ && node_value_eq(
            entries[i].1,
            e.1,
        )
}

/// Decide structural equality of two values.
#[verifier::loop_isolation(false)]
#[verifier::rlimit(60)]
pub fn value_eq(a: &NodeValue, b: &NodeValue) -> (r: bool)
    ensures
        r == node_value_eq(*a, *b),
    decreases *a, 0int,
{
    match (a, b) {
        (NodeValue::Null, NodeValue::Null) => true,
        (NodeValue::Boolean(x), NodeValue::Boolean(y)) => *x == *y,
        (NodeValue::Number(x), NodeValue::Number(y)) => match (x, y) {
            (Number::Integer(i), Number::Integer(j)) => *i == *j,
            (Number::Float(i), Number::Float(j)) => *i == *j,
            _ => false,
        },
        (NodeValue::String(x), NodeValue::String(y)) => *x == *y,
        (NodeValue::TextBlock(x), NodeValue::TextBlock(y)) => *x == *y,
        (NodeValue::ShapeID(x), NodeValue::ShapeID(y)) => *x == *y,
        (NodeValue::Array(x), NodeValue::Array(y)) => {
            if x.len() != y.len() {
                return false;
            }
            let n = x.len();
            let mut i: usize = 0;
            while i < n
                invariant
                    0 <= i <= n,
                    forall|j: int| 0 <= j < i ==> node_value_eq(#[trigger] x@[j], y@[j]),
                decreases n - i,
            {
                if !value_eq(&x[i], &y[i]) {
                    return false;
                }
                i += 1;
            }
            true
        },
        (NodeValue::Object(x), NodeValue::Object(y)) => {
            if x.len() != y.len() {
                return false;
            }
            let n = x.len();
            let mut i: usize = 0;
            while i < n
                invariant
                    0 <= i <= n,
                    forall|p: int| 0 <= p < i ==> obj_entry_in_spec(#[trigger] x@[p], y@),
                decreases n - i,
            {
                if !object_entry_in(&x[i], y) {
                    return false;
                }
                i += 1;
            }
            let mut j: usize = 0;
            while j < n
                invariant
                    0 <= j <= n,
                    n == y@.len(),
                    forall|q: int| 0 <= q < j ==> obj_entry_matches_spec(x@, #[trigger] y@[q]),
                decreases n - j,
            {
                if !object_entry_matches(x, &y[j]) {
                    return false;
                }
                j += 1;
            }
            true
        },
        _ => false,
    }
}

/// Whether `others` holds an entry with `entry`'s key whose value equals
/// `entry`'s value.
#[verifier::loop_isolation(false)]
fn object_entry_in(entry: &(String, NodeValue), others: &Vec<(String, NodeValue)>) -> (r: bool)
    ensures
        r == obj_entry_in_spec(*entry, others@),
    decreases entry.1, 2int,
{
    let n = others.len();
    let mut j: usize = 0;
    while j < n
        invariant
            0 <= j <= n,
            forall|q: int|
                0 <= q < j ==> !((#[trigger] others@[q]).0@ == entry.0@ && node_value_eq(
                    entry.1,
                    others@[q].1,
                )),
        decreases n - j,
    {
        if others[j].0 == entry.0 && value_eq(&entry.1, &others[j].1) {
            return true;
        }
        j += 1;
    }
    false
}

/// Whether `entries` holds an entry with `entry`'s key whose value equals
/// `entry`'s value, searching by the left-hand sides.
#[verifier::loop_isolation(false)]
fn object_entry_matches(entries: &Vec<(String, NodeValue)>, entry: &(String, NodeValue)) -> (r:
    bool)
    ensures
        r == obj_entry_matches_spec(entries@, *entry),
    decreases entries, 2int,
{
    let n = entries.len();
    let mut i: usize = 0;
    while i < n
        invariant
            0 <= i <= n,
            forall|q: int|
                0 <= q < i ==> !((#[trigger] entries@[q]).0@ == entry.0@ && node_value_eq(
                    entries@[q].1,
                    entry.1,
                )),
        decreases n - i,
    {
        if entries[i].0 == entry.0 && value_eq(&entries[i].1, &entry.1) {
            return true;
        }
        i += 1;
    }
    false
}

impl PartialEq for NodeValue {
    fn eq(&self, other: &Self) -> bool {
        value_eq(self, other)
    }
}

impl vstd::std_specs::cmp::PartialEqSpecImpl for NodeValue {
    open spec fn obeys_eq_spec() -> bool {
        true
    }

    open spec fn eq_spec(&self, other: &Self) -> bool {
        node_value_eq(*self, *other)
    }
}

} // verus!
