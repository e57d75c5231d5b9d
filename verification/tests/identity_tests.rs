//! Tests for the addressing system and the specification version.

use atelier::Version;
use atelier::error::{AddressError, ModelError};
use atelier::identity::{Identifier, NamespaceID, ShapeID};
use std::str::FromStr;

#[test]
fn identifier_round_trip() {
    for s in ["abc", "abc_123", "_private", "A", "xYz9"] {
        let id = Identifier::parse(s).unwrap();
        assert_eq!(id.to_string(), s);
    }
}

#[test]
fn identifier_rejects_malformed() {
    for s in ["", "1abc", "has space", "has-dash", "dot.ted", "ünicode"] {
        match Identifier::parse(s) {
            Err(AddressError::InvalidIdentifier(t)) => assert_eq!(t, s),
            other => panic!("expected InvalidIdentifier for {s:?}, got {other:?}"),
        }
    }
}

#[test]
fn namespace_round_trip() {
    for s in ["example", "example.motd", "a.b.c.d", "smithy.api"] {
        let ns = NamespaceID::parse(s).unwrap();
        assert_eq!(ns.to_string(), s);
    }
}

#[test]
fn namespace_rejects_malformed() {
    for s in ["", ".", "a.", ".a", "a..b", "a.1b", "1a", "a b"] {
        match NamespaceID::parse(s) {
            Err(AddressError::InvalidNamespaceID(t)) => assert_eq!(t, s),
            other => panic!("expected InvalidNamespaceID for {s:?}, got {other:?}"),
        }
    }
}

#[test]
fn shape_id_round_trip() {
    for s in ["example.motd#Date", "ns#Widget$id", "a.b.c#Thing", "x#y$z"] {
        let sid = ShapeID::parse(s).unwrap();
        assert_eq!(sid.to_string(), s);
    }
}

#[test]
fn shape_id_rejects_malformed() {
    for s in ["", "noseparator", "#name", "ns#", "ns#a$", "ns#$m", "ns##a", "a..b#c", "ns#a$b$c"] {
        match ShapeID::parse(s) {
            Err(AddressError::InvalidShapeID(t)) => assert_eq!(t, s),
            other => panic!("expected InvalidShapeID for {s:?}, got {other:?}"),
        }
    }
}

#[test]
fn shape_id_structure() {
    let sid = ShapeID::parse("example.motd#Widget$id").unwrap();
    assert_eq!(sid.namespace.to_string(), "example.motd");
    assert_eq!(sid.shape_name.to_string(), "Widget");
    assert_eq!(sid.member_name.as_ref().unwrap().to_string(), "id");
    assert!(sid.is_member());
    let top = ShapeID::parse("example.motd#Widget").unwrap();
    assert!(!top.is_member());
}

#[test]
fn shape_id_composition() {
    let ns = NamespaceID::parse("example.motd").unwrap();
    let name = Identifier::parse("Widget").unwrap();
    let sid = ns.make_shape(name);
    assert_eq!(sid.to_string(), "example.motd#Widget");
    let member = sid.make_member(Identifier::parse("id").unwrap());
    assert_eq!(member.to_string(), "example.motd#Widget$id");
}

#[test]
fn shape_id_equality() {
    let a = ShapeID::parse("ns#A").unwrap();
    let b = ShapeID::parse("ns#A").unwrap();
    let c = ShapeID::parse("ns#A$m").unwrap();
    assert_eq!(a, b);
    assert_ne!(a, c);
}

#[test]
fn version_parsing() {
    assert_eq!(Version::current(), Version::V10);
    assert_eq!(Version::default(), Version::V10);
    assert_eq!(Version::from_text("1.0").unwrap(), Version::V10);
    assert_eq!(Version::from_str("1.0").unwrap(), Version::V10);
    match Version::from_text("2.0") {
        Err(ModelError::InvalidVersionNumber(t)) => assert_eq!(t, "2.0"),
        other => panic!("expected InvalidVersionNumber, got {other:?}"),
    }
    assert_eq!(Version::V10.to_display_string(), "1.0");
}
