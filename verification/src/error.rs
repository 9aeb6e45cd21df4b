//! The library's error taxonomy. Key composition itself never fails; these
//! errors come from schema registration, record reads, and builder misuse.

use vstd::prelude::*;
use vstd::string::StringExecFns;
use crate::value::AttributeValueError;

verus! {

/// Every failure this layer can report on its own: an index tag that is not
/// registered, an attribute the schema does not know, a strict read of an
/// absent field, a value read at the wrong type, and a schema whose
/// declaration conflicts with itself.
#[derive(Debug, PartialEq)]
pub enum DeezError {
    /// A value was read at a tag other than its own.
    AWSAttributeValue(AttributeValueError),
    /// A strictly-read field was absent from the record.
    MapKey(String),
    /// An attribute name that the entity's value map does not hold.
    UnknownAttribute(String),
    /// An index tag that the schema does not register.
    UnknownSchemaIndex(String),
    /// An expression value key that the builder does not hold.
    UnknownAttributeValueKey(String),
    /// A schema declaration that conflicts with itself: a duplicate
    /// attribute, a key field that collides with an attribute, a composite
    /// over an undeclared attribute, or a gap in composite positions.
    SchemaConflict(String),
}

impl From<AttributeValueError> for DeezError {
    fn from(e: AttributeValueError) -> (r: DeezError) {
        DeezError::AWSAttributeValue(e)
    }
}

impl vstd::std_specs::convert::FromSpecImpl<AttributeValueError> for DeezError {
    open spec fn obeys_from_spec() -> bool {
        true
    }

    open spec fn from_spec(e: AttributeValueError) -> DeezError {
        DeezError::AWSAttributeValue(e)
    }
}

impl DeezError {
    /// A human-readable description of the failure.
    pub fn message(&self) -> (r: String)
        ensures
            match self {
                DeezError::AWSAttributeValue(_) => r@ == "AttributeValue error"@,
                DeezError::MapKey(s) => r@ == "missing key in map: "@ + s@,
                DeezError::UnknownAttribute(s) => r@ == "unknown attribute: "@ + s@,
                DeezError::UnknownSchemaIndex(s) => r@ == "unknown key: "@ + s@,
                DeezError::UnknownAttributeValueKey(s) => r@ == "unknown attribute value key: "@
                    + s@,
                DeezError::SchemaConflict(s) => r@ == "schema conflict: "@ + s@,
            },
    {
        match self {
            DeezError::AWSAttributeValue(_) => String::from_str("AttributeValue error"),
            DeezError::MapKey(s) => String::from_str("missing key in map: ").concat(s.as_str()),
            DeezError::UnknownAttribute(s) => String::from_str("unknown attribute: ").concat(
                s.as_str(),
            ),
            DeezError::UnknownSchemaIndex(s) => String::from_str("unknown key: ").concat(
                s.as_str(),
            ),
            DeezError::UnknownAttributeValueKey(s) => String::from_str(
                "unknown attribute value key: ",
            ).concat(s.as_str()),
            DeezError::SchemaConflict(s) => String::from_str("schema conflict: ").concat(
                s.as_str(),
            ),
        }
    }
}

} // verus!
