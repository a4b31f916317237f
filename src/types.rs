use vstd::prelude::*;

verus! {

/// Host type identifier of `boolean`.
pub const BOOL_OID: u32 = 16;

/// Host type identifier of `bigint` (eight-byte integer).
pub const INT8_OID: u32 = 20;

/// Host type identifier of `integer` (four-byte integer).
pub const INT4_OID: u32 = 23;

/// Host type identifier of `text`.
pub const TEXT_OID: u32 = 25;

/// The types that can cross the boundary, as arguments or as results.
#[derive(Clone, Copy, Debug, PartialEq, Eq, Structural)]
pub enum TypeTag {
    Bool,
    Int4,
    Int8,
    Text,
}

/// The supported tag for a host type identifier, if it is in the supported set.
pub open spec fn tag_of_oid(oid: u32) -> Option<TypeTag> {
    if oid == BOOL_OID {
        Some(TypeTag::Bool)
    } else if oid == INT4_OID {
        Some(TypeTag::Int4)
    } else if oid == INT8_OID {
        Some(TypeTag::Int8)
    } else if oid == TEXT_OID {
        Some(TypeTag::Text)
    } else {
        None
    }
}

/// Maps a host type identifier to its tag; `None` for an unsupported type.
pub fn type_tag_of_oid(oid: u32) -> (r: Option<TypeTag>)
    ensures
        r == tag_of_oid(oid),
{
    if oid == BOOL_OID {
        Some(TypeTag::Bool)
    } else if oid == INT4_OID {
        Some(TypeTag::Int4)
    } else if oid == INT8_OID {
        Some(TypeTag::Int8)
    } else if oid == TEXT_OID {
        Some(TypeTag::Text)
    } else {
        None
    }
}

/// One marshaled value: an argument handed to a native routine, or its result.
#[derive(Clone, Debug, PartialEq, Eq)]
pub enum Value {
    Null,
    Bool(bool),
    Int4(i32),
    Int8(i64),
    Text(String),
}

/// The mathematical content of a `Value`.
pub enum ValueModel {
    Null,
    Bool(bool),
    Int4(i32),
    Int8(i64),
    Text(Seq<char>),
}

impl View for Value {
    type V = ValueModel;

    open spec fn view(&self) -> ValueModel {
        match self {
            Value::Null => ValueModel::Null,
            Value::Bool(b) => ValueModel::Bool(*b),
            Value::Int4(n) => ValueModel::Int4(*n),
            Value::Int8(n) => ValueModel::Int8(*n),
            Value::Text(s) => ValueModel::Text(s@),
        }
    }
}

/// Whether a value may stand where `tag` is declared; NULL stands for any type.
pub open spec fn fits(v: ValueModel, tag: TypeTag) -> bool {
    match v {
        ValueModel::Null => true,
        ValueModel::Bool(_) => tag == TypeTag::Bool,
        ValueModel::Int4(_) => tag == TypeTag::Int4,
        ValueModel::Int8(_) => tag == TypeTag::Int8,
        ValueModel::Text(_) => tag == TypeTag::Text,
    }
}

impl Value {
    /// Whether this value may stand where `tag` is declared.
    pub fn fits_type(&self, tag: TypeTag) -> (r: bool)
        ensures
            r == fits(self@, tag),
    {
        match self {
            Value::Null => true,
            Value::Bool(_) => tag == TypeTag::Bool,
            Value::Int4(_) => tag == TypeTag::Int4,
            Value::Int8(_) => tag == TypeTag::Int8,
            Value::Text(_) => tag == TypeTag::Text,
        }
    }
}

} // verus!
