//! The fixed prelude namespace of built-in shapes.
//!
//! The prelude catalogue itself is loaded through the ordinary
//! model-construction contract by its owner; the core only needs to know
//! which namespace is always resolvable and which names in it denote the
//! built-in simple types.

use vstd::prelude::*;
use vstd::string::*;

verus! {

use crate::identity::{NamespaceID, ShapeID, is_namespace_str};

/// The canonical name of the prelude namespace.
pub open spec fn prelude_namespace_text() -> Seq<char> {
    "smithy.api"@
}

/// Whether an identifier addresses a shape in the prelude namespace; such a
/// reference is always resolvable without an explicit definition.
pub open spec fn is_prelude_id(sid: ShapeID) -> bool {
    sid.namespace.value@ == prelude_namespace_text()
}

/// The names of the prelude's built-in simple (scalar) shapes.
pub open spec fn is_prelude_simple_name(name: Seq<char>) -> bool {
    ||| name == "Blob"@
    ||| name == "Boolean"@
    ||| name == "Document"@
    ||| name == "String"@
    ||| name == "Byte"@
    ||| name == "Short"@
    ||| name == "Integer"@
    ||| name == "Long"@
    ||| name == "Float"@
    ||| name == "Double"@
    ||| name == "BigInteger"@
    ||| name == "BigDecimal"@
    ||| name == "Timestamp"@
}

/// The prelude namespace, as a validated value.
pub fn prelude_namespace() -> (r: NamespaceID)
    ensures
        r.value@ == prelude_namespace_text(),
        r.wf(),
{
    proof {
        reveal_strlit("smithy.api");
        assert(is_namespace_str("smithy.api"@));
    }
    NamespaceID { value: String::from_str("smithy.api") }
}

/// Whether this identifier lives in the prelude namespace.
pub fn is_prelude_shape_id(sid: &ShapeID) -> (r: bool)
    ensures
        r == is_prelude_id(*sid),
{
    let ns = String::from_str("smithy.api");
    sid.namespace.value == ns
}

/// Whether `name` names one of the prelude's simple shapes.
pub fn prelude_simple_name(name: &str) -> (r: bool)
    ensures
        r == is_prelude_simple_name(name@),
{
    let n = name.to_owned();
    n == String::from_str("Blob") || n == String::from_str("Boolean") || n == String::from_str(
        "Document",
    ) || n == String::from_str("String") || n == String::from_str("Byte") || n == String::from_str(
        "Short",
    ) || n == String::from_str("Integer") || n == String::from_str("Long") || n
        == String::from_str("Float") || n == String::from_str("Double") || n == String::from_str(
        "BigInteger",
    ) || n == String::from_str("BigDecimal") || n == String::from_str("Timestamp")
}

} // verus!
