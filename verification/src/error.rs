//! The error values shared by the whole library.
//!
//! Every fallible operation returns one of these as a value; nothing in the
//! library panics or throws.

use vstd::prelude::*;

verus! {

use crate::identity::ShapeID;

/// A malformed identifier, namespace, or shape identifier string.
///
/// Each variant carries the string that failed to parse.
#[derive(Debug, Clone, PartialEq)]
pub enum AddressError {
    InvalidIdentifier(String),
    InvalidNamespaceID(String),
    InvalidShapeID(String),
}

/// An error raised by the model container or by the surrounding machinery.
#[derive(Debug, Clone, PartialEq)]
pub enum ModelError {
    /// A shape with this identifier is already present with a different body.
    ShapeIDConflict(ShapeID),
    /// A version string that names no known specification version.
    InvalidVersionNumber(String),
    /// A validation action itself malfunctioned; this signals a defect in the
    /// action, not a property of the model.
    ActionFailure(String),
    /// A writer could not serialize the model in its representation.
    Serialization(String),
    /// An address error surfaced through a model-level operation.
    Address(AddressError),
}

} // verus!
