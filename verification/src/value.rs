//! The typed scalar attribute value model and its serialization behaviour.

use vstd::prelude::*;
use vstd::string::StringExecFns;

verus! {

/// A typed scalar attribute value as the store represents it: a string, a
/// number carried as decimal text (the store's native numeric encoding), a
/// boolean, or an explicit null.
#[derive(Debug, PartialEq, Eq)]
pub enum AttrValue {
    Str(String),
    Num(String),
    Boolean(bool),
    Null,
}

/// The mathematical model of an `AttrValue`: character sequences in place of
/// heap strings.
pub enum SpecValue {
    Str(Seq<char>),
    Num(Seq<char>),
    Boolean(bool),
    Null,
}

impl View for AttrValue {
    type V = SpecValue;

    open spec fn view(&self) -> SpecValue {
        match self {
            AttrValue::Str(s) => SpecValue::Str(s@),
            AttrValue::Num(s) => SpecValue::Num(s@),
            AttrValue::Boolean(b) => SpecValue::Boolean(*b),
            AttrValue::Null => SpecValue::Null,
        }
    }
}

/// Error returned when an attribute value is read at the wrong type, mirroring
/// the store's own value-access failure.
#[derive(Debug, PartialEq, Eq)]
pub struct AttributeValueError;

/// The text a value contributes to a composed key segment: strings and
/// numbers contribute their own text, booleans their canonical spelling, and
/// null contributes nothing.
pub open spec fn spec_composite_string(v: SpecValue) -> Seq<char> {
    match v {
        SpecValue::Str(s) => s,
        SpecValue::Num(s) => s,
        SpecValue::Boolean(b) => if b {
            "true"@
        } else {
            "false"@
        },
        SpecValue::Null => Seq::empty(),
    }
}

impl AttrValue {
    /// Renders the value as the text used inside a composed key segment.
    pub fn composite_string(&self) -> (r: String)
        ensures
            r@ == spec_composite_string(self@),
    {
        match self {
            AttrValue::Str(s) => s.clone(),
            AttrValue::Num(s) => s.clone(),
            AttrValue::Boolean(b) => if *b {
                String::from_str("true")
            } else {
                String::from_str("false")
            },
            AttrValue::Null => String::new(),
        }
    }

    /// Reads the value as a string, failing on any other tag.
    pub fn as_s(&self) -> (r: Result<&String, AttributeValueError>)
        ensures
            (r is Ok) <==> (self is Str),
            r matches Ok(s) ==> self@ == SpecValue::Str(s@),
    {
        match self {
            AttrValue::Str(s) => Ok(s),
            _ => Err(AttributeValueError),
        }
    }

    /// Reads the value as numeric text, failing on any other tag.
    pub fn as_n(&self) -> (r: Result<&String, AttributeValueError>)
        ensures
            (r is Ok) <==> (self is Num),
            r matches Ok(s) ==> self@ == SpecValue::Num(s@),
    {
        match self {
            AttrValue::Num(s) => Ok(s),
            _ => Err(AttributeValueError),
        }
    }

    /// Reads the value as a boolean, failing on any other tag.
    pub fn as_bool(&self) -> (r: Result<bool, AttributeValueError>)
        ensures
            (r is Ok) <==> (self is Boolean),
            r matches Ok(b) ==> self@ == SpecValue::Boolean(b),
    {
        match self {
            AttrValue::Boolean(b) => Ok(*b),
            _ => Err(AttributeValueError),
        }
    }

    /// A verified copy of the value.
    pub fn dup(&self) -> (r: AttrValue)
        ensures
            r == *self,
    {
        match self {
            AttrValue::Str(s) => AttrValue::Str(s.clone()),
            AttrValue::Num(s) => AttrValue::Num(s.clone()),
            AttrValue::Boolean(b) => AttrValue::Boolean(*b),
            AttrValue::Null => AttrValue::Null,
        }
    }
}

} // verus!
