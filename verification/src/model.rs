//! The owning model container: a mapping from shape identifier to top-level
//! shape, model-wide metadata, and the specification version.
//!
//! The container enforces local invariants (identifier uniqueness, merge
//! semantics) at insertion time; reference resolution across shapes is the
//! validation framework's responsibility, so shapes may be added in any
//! order.

use vstd::prelude::*;
use vstd::string::*;

verus! {

use crate::Version;
use crate::error::ModelError;
use crate::identity::{ShapeID, sid_eq};
use crate::shapes::{
    TopLevelShape,
    kind_eq,
    kind_equal,
    merge_trait_lists,
    merge_traits_spec,
};
use crate::values::NodeValue;

// ------------------------------------------------------------------------
// Spec-level views of the shape table and the metadata table
// ------------------------------------------------------------------------

/// Whether the table holds a shape addressed by `id`.
pub open spec fn has_shape_id(shapes: Seq<TopLevelShape>, id: ShapeID) -> bool {
    exists|i: int| 0 <= i < shapes.len() && #[trigger] sid_eq(shapes[i].id, id)
}

/// The position of the shape addressed by `id`; meaningful only when the
/// table holds exactly one such shape.
pub open spec fn shape_pos(shapes: Seq<TopLevelShape>, id: ShapeID) -> int {
    choose|i: int| 0 <= i < shapes.len() && #[trigger] sid_eq(shapes[i].id, id)
}

/// Shape identifiers are globally unique within one model.
pub open spec fn shape_ids_unique(shapes: Seq<TopLevelShape>) -> bool {
    forall|i: int, j: int|
        0 <= i < j < shapes.len() ==> !sid_eq(#[trigger] shapes[i].id, #[trigger] shapes[j].id)
}

/// Whether the metadata table holds an entry keyed `k`.
pub open spec fn has_meta_key(md: Seq<(String, NodeValue)>, k: Seq<char>) -> bool {
    exists|i: int| 0 <= i < md.len() && (#[trigger] md[i]).0@ == k
}

/// The position of the entry keyed `k`; meaningful only when the table holds
/// exactly one such entry.
pub open spec fn meta_pos(md: Seq<(String, NodeValue)>, k: Seq<char>) -> int {
    choose|i: int| 0 <= i < md.len() && (#[trigger] md[i]).0@ == k
}

pub open spec fn meta_keys_unique(md: Seq<(String, NodeValue)>) -> bool {
    forall|i: int, j: int| 0 <= i < j < md.len() ==> (#[trigger] md[i]).0@ != (#[trigger] md[j]).0@
}

/// Setting a metadata entry: replace the entry with the same key if one is
/// present (last write wins, mirroring trait merge), otherwise append.
pub open spec fn set_metadata_spec(
    md: Seq<(String, NodeValue)>,
    key: String,
    value: NodeValue,
) -> Seq<(String, NodeValue)> {
    if has_meta_key(md, key@) {
        md.update(meta_pos(md, key@), (key, value))
    } else {
        md.push((key, value))
    }
}

// ------------------------------------------------------------------------
// Model
// ------------------------------------------------------------------------

/// The owning container for a whole semantic model.
#[derive(Debug, PartialEq)]
pub struct Model {
    pub smithy_version: Version,
    pub metadata: Vec<(String, NodeValue)>,
    pub shapes: Vec<TopLevelShape>,
}

impl Model {
    /// The container invariant: shape identifiers and metadata keys are
    /// unique, and every stored shape is well formed.
    pub open spec fn wf(&self) -> bool {
        &&& shape_ids_unique(self.shapes@)
        &&& meta_keys_unique(self.metadata@)
        &&& forall|i: int| 0 <= i < self.shapes@.len() ==> (#[trigger] self.shapes@[i]).wf()
    }

    pub fn new(version: Version) -> (r: Self)
        ensures
            r.smithy_version == version,
            r.metadata@ == Seq::<(String, NodeValue)>::empty(),
            r.shapes@ == Seq::<TopLevelShape>::empty(),
            r.wf(),
    {
        Model { smithy_version: version, metadata: Vec::new(), shapes: Vec::new() }
    }

    /// The specification version this model was built against.
    pub fn smithy_version(&self) -> (r: &Version)
        ensures
            *r == self.smithy_version,
    {
        &self.smithy_version
    }

    /// All shapes, in insertion order.  Iteration over the returned vector
    /// is lazy, finite, and restartable, and does not mutate the model.
    pub fn shapes(&self) -> (r: &Vec<TopLevelShape>)
        ensures
            r@ == self.shapes@,
    {
        &self.shapes
    }

    /// Look up a shape by identifier.
    #[verifier::loop_isolation(false)]
    pub fn shape(&self, id: &ShapeID) -> (r: Option<&TopLevelShape>)
        requires
            shape_ids_unique(self.shapes@),
        ensures
            r is Some <==> has_shape_id(self.shapes@, *id),
            r matches Some(s) ==> sid_eq(s.id, *id) && *s == self.shapes@[shape_pos(
                self.shapes@,
                *id,
            )],
    {
        let n = self.shapes.len();
        let mut i: usize = 0;
        while i < n
            invariant
                0 <= i <= n,
                forall|j: int| 0 <= j < i ==> !sid_eq(self.shapes@[j].id, *id),
            decreases n - i,
        {
            if self.shapes[i].id == *id {
                proof {
                    assert(has_shape_id(self.shapes@, *id));
                    let c = shape_pos(self.shapes@, *id);
                    assert(0 <= c < self.shapes@.len() && sid_eq(self.shapes@[c].id, *id));
                    if c < i as int {
                        assert(!sid_eq(self.shapes@[c].id, *id));
                    } else if c > i as int {
                        assert(!sid_eq(self.shapes@[i as int].id, self.shapes@[c].id));
                    }
                    assert(c == i as int);
                }
                return Some(&self.shapes[i]);
            }
            i += 1;
        }
        None
    }

    pub fn has_metadata(&self) -> (r: bool)
        ensures
            r == (self.metadata@.len() > 0),
    {
        self.metadata.len() > 0
    }

    /// Look up a metadata value by key.
    #[verifier::loop_isolation(false)]
    pub fn metadata_value(&self, key: &str) -> (r: Option<&NodeValue>)
        requires
            meta_keys_unique(self.metadata@),
        ensures
            r is Some <==> has_meta_key(self.metadata@, key@),
            r matches Some(v) ==> *v == self.metadata@[meta_pos(self.metadata@, key@)].1,
    {
        let owned = key.to_owned();
        let n = self.metadata.len();
        let mut i: usize = 0;
        while i < n
            invariant
                0 <= i <= n,
                owned@ == key@,
                forall|j: int| 0 <= j < i ==> self.metadata@[j].0@ != key@,
            decreases n - i,
        {
            if self.metadata[i].0 == owned {
                proof {
                    assert(has_meta_key(self.metadata@, key@));
                    let c = meta_pos(self.metadata@, key@);
                    assert(0 <= c < self.metadata@.len() && self.metadata@[c].0@ == key@);
                    if c < i as int {
                        assert(self.metadata@[c].0@ != key@);
                    } else if c > i as int {
                        assert(self.metadata@[i as int].0@ != self.metadata@[c].0@);
                    }
                    assert(c == i as int);
                }
                return Some(&self.metadata[i].1);
            }
            i += 1;
        }
        None
    }

    /// Set a metadata entry; a second entry under the same key replaces the
    /// first (last write wins, mirroring trait merge — a deliberate
    /// consistency choice).
    pub fn set_metadata(&mut self, key: String, value: NodeValue)
        requires
            meta_keys_unique(old(self).metadata@),
        ensures
            final(self).metadata@ == set_metadata_spec(old(self).metadata@, key, value),
            meta_keys_unique(final(self).metadata@),
            final(self).smithy_version == old(self).smithy_version,
            final(self).shapes == old(self).shapes,
    {
        let n = self.metadata.len();
        let mut i: usize = 0;
        let mut idx: usize = n;
        while i < n
            invariant_except_break
                n == self.metadata@.len(),
                0 <= i <= n,
                idx == n,
                self.metadata@ == old(self).metadata@,
                self.shapes == old(self).shapes,
                self.smithy_version == old(self).smithy_version,
                forall|j: int| 0 <= j < i ==> self.metadata@[j].0@ != key@,
            ensures
                self.metadata@ == old(self).metadata@,
                self.shapes == old(self).shapes,
                self.smithy_version == old(self).smithy_version,
                idx <= n,
                forall|j: int| 0 <= j < idx ==> self.metadata@[j].0@ != key@,
                idx < n ==> self.metadata@[idx as int].0@ == key@,
                idx == n ==> !has_meta_key(self.metadata@, key@),
            decreases n - i,
        {
            if self.metadata[i].0 == key {
                idx = i;
                break;
            }
            i += 1;
        }
        if idx < n {
            proof {
                assert(has_meta_key(self.metadata@, key@));
                let c = meta_pos(self.metadata@, key@);
                assert(0 <= c < self.metadata@.len() && self.metadata@[c].0@ == key@);
                if c < idx as int {
                    assert(self.metadata@[c].0@ != key@);
                } else if c > idx as int {
                    assert(self.metadata@[idx as int].0@ != self.metadata@[c].0@);
                }
                assert(c == idx as int);
            }
            self.metadata.set(idx, (key, value));
            proof {
                assert forall|p: int, q: int|
                    0 <= p < q < self.metadata@.len() implies (#[trigger] self.metadata@[p]).0@
                    != (#[trigger] self.metadata@[q]).0@ by {
                    assert(old(self).metadata@[p].0@ != old(self).metadata@[q].0@);
                }
            }
        } else {
            self.metadata.push((key, value));
            proof {
                assert forall|p: int, q: int|
                    0 <= p < q < self.metadata@.len() implies (#[trigger] self.metadata@[p]).0@
                    != (#[trigger] self.metadata@[q]).0@ by {
                    if q < self.metadata@.len() - 1 {
                        assert(old(self).metadata@[p].0@ != old(self).metadata@[q].0@);
                    }
                }
            }
        }
    }

    /// Remove the shape addressed by `id`, returning it; the model is
    /// unchanged when no such shape is present.
    #[verifier::rlimit(60)]
    pub fn remove_shape(&mut self, id: &ShapeID) -> (r: Option<TopLevelShape>)
        requires
            old(self).wf(),
        ensures
            final(self).wf(),
            final(self).smithy_version == old(self).smithy_version,
            final(self).metadata == old(self).metadata,
            !has_shape_id(old(self).shapes@, *id) ==> r is None && final(self).shapes@ == old(
                self,
            ).shapes@,
            has_shape_id(old(self).shapes@, *id) ==> (r matches Some(s) && s == old(self).shapes@[
                shape_pos(old(self).shapes@, *id)
            ] && final(self).shapes@ == old(self).shapes@.remove(
                shape_pos(old(self).shapes@, *id),
            )),
    {
        let n = self.shapes.len();
        let mut i: usize = 0;
        let mut idx: usize = n;
        while i < n
            invariant_except_break
                n == self.shapes@.len(),
                0 <= i <= n,
                idx == n,
                forall|j: int| 0 <= j < i ==> !sid_eq(self.shapes@[j].id, *id),
            ensures
                idx <= n,
                forall|j: int| 0 <= j < idx ==> !sid_eq(self.shapes@[j].id, *id),
                idx < n ==> sid_eq(self.shapes@[idx as int].id, *id),
                idx == n ==> !has_shape_id(self.shapes@, *id),
            decreases n - i,
        {
            if self.shapes[i].id == *id {
                idx = i;
                break;
            }
            i += 1;
        }
        if idx == n {
            return None;
        }
        proof {
            assert(has_shape_id(self.shapes@, *id));
            let c = shape_pos(self.shapes@, *id);
            assert(0 <= c < self.shapes@.len() && sid_eq(self.shapes@[c].id, *id));
            if c < idx as int {
                assert(!sid_eq(self.shapes@[c].id, *id));
            } else if c > idx as int {
                assert(!sid_eq(self.shapes@[idx as int].id, self.shapes@[c].id));
            }
            assert(c == idx as int);
        }
        let removed = self.shapes.remove(idx);
        proof {
            let oldseq = old(self).shapes@;
            let ii = idx as int;
            assert forall|p: int, q: int| 0 <= p < q < self.shapes@.len() implies !sid_eq(
                (#[trigger] self.shapes@[p]).id,
                (#[trigger] self.shapes@[q]).id,
            ) by {
                let p0: int = if p < ii {
                    p
                } else {
                    p + 1
                };
                let q0: int = if q < ii {
                    q
                } else {
                    q + 1
                };
                assert(self.shapes@[p] == oldseq[p0]);
                assert(self.shapes@[q] == oldseq[q0]);
                assert(!sid_eq(oldseq[p0].id, oldseq[q0].id));
            }
            assert forall|p: int| 0 <= p < self.shapes@.len() implies (
            #[trigger] self.shapes@[p]).wf() by {
                let p0: int = if p < ii {
                    p
                } else {
                    p + 1
                };
                assert(self.shapes@[p] == oldseq[p0]);
                assert(oldseq[p0].wf());
            }
        }
        Some(removed)
    }

    /// Insert or merge a shape (the idempotent add).
    ///
    /// - If the identifier is new, the shape is appended.
    /// - If it is present and either body is the `Unresolved` placeholder,
    ///   the resolved body is kept and the trait sets merge (last write wins
    ///   per trait identifier) — this is how trait-only fragments merge into
    ///   full definitions.
    /// - If it is present and the two bodies are structurally equal, the
    ///   trait sets merge the same way.
    /// - Otherwise the call fails with `ShapeIDConflict` and the model is
    ///   unchanged; a shape is never silently dropped.
    #[verifier::rlimit(100)]
    pub fn add_shape(&mut self, shape: TopLevelShape) -> (r: Result<(), ModelError>)
        requires
            old(self).wf(),
            shape.wf(),
        ensures
            final(self).wf(),
            final(self).smithy_version == old(self).smithy_version,
            final(self).metadata == old(self).metadata,
            !has_shape_id(old(self).shapes@, shape.id) ==> r is Ok && final(self).shapes@ == old(
                self,
            ).shapes@.push(shape),
            has_shape_id(old(self).shapes@, shape.id) ==> (({
                let i = shape_pos(old(self).shapes@, shape.id);
                let existing = old(self).shapes@[i];
                if existing.body is Unresolved || shape.body is Unresolved || kind_equal(
                    existing.body,
                    shape.body,
                ) {
                    &&& r is Ok
                    &&& final(self).shapes@.len() == old(self).shapes@.len()
                    &&& (forall|j: int|
                        0 <= j < old(self).shapes@.len() && j != i ==> final(self).shapes@[j]
                            == old(self).shapes@[j])
                    &&& final(self).shapes@[i].id == existing.id
                    &&& final(self).shapes@[i].body == (if existing.body is Unresolved && !(
                    shape.body is Unresolved) {
                        shape.body
                    } else {
                        existing.body
                    })
                    &&& final(self).shapes@[i].traits@ == merge_traits_spec(
                        existing.traits@,
                        shape.traits@,
                    )
                } else {
                    &&& r matches Err(e) && e matches ModelError::ShapeIDConflict(cid) && cid
                        == shape.id
                    &&& final(self).shapes@ == old(self).shapes@
                }
            })),
    {
        let ghost shape0 = shape;
        let n = self.shapes.len();
        let mut i: usize = 0;
        let mut idx: usize = n;
        while i < n
            invariant_except_break
                n == self.shapes@.len(),
                0 <= i <= n,
                idx == n,
                forall|j: int| 0 <= j < i ==> !sid_eq(self.shapes@[j].id, shape.id),
            ensures
                idx <= n,
                forall|j: int| 0 <= j < idx ==> !sid_eq(self.shapes@[j].id, shape.id),
                idx < n ==> sid_eq(self.shapes@[idx as int].id, shape.id),
                idx == n ==> !has_shape_id(self.shapes@, shape.id),
            decreases n - i,
        {
            if self.shapes[i].id == shape.id {
                idx = i;
                break;
            }
            i += 1;
        }
        if idx == n {
            self.shapes.push(shape);
            proof {
                assert forall|p: int, q: int| 0 <= p < q < self.shapes@.len() implies !sid_eq(
                    (#[trigger] self.shapes@[p]).id,
                    (#[trigger] self.shapes@[q]).id,
                ) by {
                    if q < self.shapes@.len() - 1 {
                        assert(!sid_eq(old(self).shapes@[p].id, old(self).shapes@[q].id));
                    } else {
                        assert(!sid_eq(self.shapes@[p].id, shape0.id));
                    }
                }
                assert forall|p: int| 0 <= p < self.shapes@.len() implies (
                #[trigger] self.shapes@[p]).wf() by {
                    if p < self.shapes@.len() - 1 {
                        assert(old(self).shapes@[p].wf());
                    }
                }
            }
            return Ok(());
        }
        proof {
            assert(has_shape_id(self.shapes@, shape0.id));
            let c = shape_pos(self.shapes@, shape0.id);
            assert(0 <= c < self.shapes@.len() && sid_eq(self.shapes@[c].id, shape0.id));
            if c < idx as int {
                assert(!sid_eq(self.shapes@[c].id, shape0.id));
            } else if c > idx as int {
                assert(!sid_eq(self.shapes@[idx as int].id, self.shapes@[c].id));
            }
            assert(c == idx as int);
        }
        let incoming_unresolved = shape.is_unresolved();
        let existing_unresolved = self.shapes[idx].is_unresolved();
        if !incoming_unresolved && !existing_unresolved && !kind_eq(
            &self.shapes[idx].body,
            &shape.body,
        ) {
            return Err(ModelError::ShapeIDConflict(shape.id));
        }
        let mut existing = self.shapes.remove(idx);
        let ghost existing0 = existing;
        let TopLevelShape { id: _, traits: new_traits, body: new_body } = shape;
        if existing_unresolved && !incoming_unresolved {
            existing.body = new_body;
        }
        merge_trait_lists(&mut existing.traits, new_traits);
        self.shapes.insert(idx, existing);
        proof {
            let oldseq = old(self).shapes@;
            let ii = idx as int;
            assert(self.shapes@.len() == oldseq.len());
            assert forall|j: int|
                0 <= j < oldseq.len() && j != ii implies self.shapes@[j] == oldseq[j] by {
                if j < ii {
                    assert(oldseq.remove(ii)[j] == oldseq[j]);
                } else {
                    assert(oldseq.remove(ii)[j - 1] == oldseq[j]);
                }
            }
            assert(self.shapes@[ii].id == existing0.id);
            assert(self.shapes@[ii].traits@ == merge_traits_spec(existing0.traits@, shape0.traits@));
            assert forall|p: int, q: int| 0 <= p < q < self.shapes@.len() implies !sid_eq(
                (#[trigger] self.shapes@[p]).id,
                (#[trigger] self.shapes@[q]).id,
            ) by {
                assert(!sid_eq(oldseq[p].id, oldseq[q].id));
                if p == ii {
                    assert(self.shapes@[p].id == oldseq[ii].id);
                } else if q == ii {
                    assert(self.shapes@[q].id == oldseq[ii].id);
                }
            }
            assert forall|p: int| 0 <= p < self.shapes@.len() implies (
            #[trigger] self.shapes@[p]).wf() by {
                assert(oldseq[p].wf());
            }
        }
        Ok(())
    }
}

} // verus!
