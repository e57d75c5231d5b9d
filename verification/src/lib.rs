//! A semantic model and validation core for an interface definition language
//! that describes services, resources, operations, and structured data
//! shapes, independent of any concrete wire syntax.
//!
//! The library provides the identifier and addressing system, the value and
//! shape/trait data model, the owning model container, the validation-action
//! framework, and a writer for the JSON AST representation.

use vstd::prelude::*;
use vstd::string::*;

pub mod action;
pub mod error;
pub mod identity;
pub mod io;
pub mod json;
pub mod model;
pub mod prelude;
pub mod shapes;
pub mod values;

verus! {

/// Versions of the modeling language specification.
#[derive(Clone, Copy, Debug, PartialEq, Eq, Structural, Hash)]
pub enum Version {
    /// Version 1.0 (initial, and current).
    V10,
}

/// The canonical display form of a version.
pub open spec fn version_text(v: Version) -> Seq<char> {
    "1.0"@
}

impl Version {
    /// The most current version of the specification.
    pub fn current() -> (r: Self)
        ensures
            r == Version::V10,
    {
        Version::V10
    }

    /// The canonical display form, e.g. `1.0`.
    pub fn to_display_string(&self) -> (r: String)
        ensures
            r@ == version_text(*self),
    {
        String::from_str("1.0")
    }

    /// Parse a version display form; any other string is rejected with
    /// `InvalidVersionNumber`.
    pub fn from_text(s: &str) -> (r: Result<Version, crate::error::ModelError>)
        ensures
            r is Ok <==> s@ == "1.0"@,
            r matches Ok(v) ==> v == Version::V10,
            r matches Err(e) ==> (e matches crate::error::ModelError::InvalidVersionNumber(t)
                && t@ == s@),
    {
        let given = s.to_owned();
        let expected = String::from_str("1.0");
        if given == expected {
            Ok(Version::V10)
        } else {
            Err(crate::error::ModelError::InvalidVersionNumber(s.to_owned()))
        }
    }
}

impl Default for Version {
    fn default() -> (r: Self)
        ensures
            r == Version::V10,
    {
        Version::V10
    }
}

impl core::str::FromStr for Version {
    type Err = crate::error::ModelError;

    fn from_str(s: &str) -> Result<Self, Self::Err> {
        Version::from_text(s)
    }
}

} // verus!
