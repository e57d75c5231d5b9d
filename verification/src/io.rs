//! The reader/writer boundary: the contracts that external representations
//! implement, and in-memory convenience wrappers over them.

use vstd::prelude::*;
use vstd::string::*;

verus! {

use crate::error::ModelError;
use crate::json::JsonWriter;
use crate::model::Model;

/// Implemented to write a model in a specific representation.
///
/// A writer must reproduce the metadata and traits it is given, not merely
/// shape bodies; its representation name serves diagnostics and content
/// negotiation.
pub trait ModelWriter {
    /// The display name of the representation this writer produces.
    fn representation(&self) -> String;

    /// Write the model into an in-memory string of the representation.
    fn write_string(&mut self, model: &Model) -> Result<String, ModelError>;
}

/// Implemented to read a model from a specific representation.
pub trait ModelReader {
    /// The display name of the representation this reader consumes.
    fn representation(&self) -> String;

    /// Produce a fully populated model from the given bytes, or fail with a
    /// representation-specific error.  A reader must build the model through
    /// the ordinary shape-construction and `add_shape` merge contract.
    fn read_bytes(&mut self, input: &[u8]) -> Result<Model, ModelError>;
}

/// Read a model from an in-memory string using the given reader; a pure
/// buffering wrapper with no further semantics.
pub fn read_model_from_string<R: ModelReader>(r: &mut R, s: &str) -> Result<Model, ModelError> {
    r.read_bytes(s.as_bytes())
}

/// Write a model into an in-memory string using the given writer; a pure
/// buffering wrapper with no further semantics.
pub fn write_model_to_string<W: ModelWriter>(w: &mut W, model: &Model) -> Result<
    String,
    ModelError,
> {
    w.write_string(model)
}

impl ModelWriter for JsonWriter {
    fn representation(&self) -> String {
        String::from_str("json")
    }

    fn write_string(&mut self, model: &Model) -> Result<String, ModelError> {
        self.write(model)
    }
}

} // verus!
