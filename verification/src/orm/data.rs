//! The data model: object identifiers, column types, and the mapping from
//! field types to column types.

use vstd::prelude::*;

verus! {

/// The identifier of one stored object.
#[derive(Clone, Copy, Debug, PartialEq, Eq, Structural, Hash)]
pub struct ObjectId {
    value: i64,
}

impl View for ObjectId {
    type V = int;

    closed spec fn view(&self) -> int {
        self.value as int
    }
}

impl ObjectId {
    pub fn into_i64(self) -> (r: i64)
        ensures
            r == self@,
    {
        self.value
    }

    pub fn as_i64(&self) -> (r: &i64)
        ensures
            *r == self@,
    {
        &self.value
    }
}

impl From<i64> for ObjectId {
    fn from(value: i64) -> (r: ObjectId) {
        ObjectId { value }
    }
}

impl vstd::std_specs::convert::FromSpecImpl<i64> for ObjectId {
    closed spec fn obeys_from_spec() -> bool {
        true
    }

    closed spec fn from_spec(value: i64) -> ObjectId {
        ObjectId { value }
    }
}

/// A column type of the underlying SQL storage.
#[derive(Clone, Copy, Debug, PartialEq, Eq, Structural)]
pub enum SqlType {
    Text,
    Blob,
    BigInt,
    Real,
    TinyInt,
}

impl SqlType {
    /// The type's name in SQL data-definition statements.
    pub fn sql_name(&self) -> (r: &'static str)
        ensures
            match self {
                SqlType::Text => r@ == "TEXT"@,
                SqlType::Blob => r@ == "BLOB"@,
                SqlType::BigInt => r@ == "BIGINT"@,
                SqlType::Real => r@ == "REAL"@,
                SqlType::TinyInt => r@ == "TINYINT"@,
            },
    {
        match self {
            SqlType::Text => "TEXT",
            SqlType::Blob => "BLOB",
            SqlType::BigInt => "BIGINT",
            SqlType::Real => "REAL",
            SqlType::TinyInt => "TINYINT",
        }
    }
}

/// A field type of a stored object.
#[derive(Clone, Copy, Debug, PartialEq, Eq, Structural)]
pub enum DataType {
    String,
    Bytes,
    Int64,
    Float64,
    Bool,
}

/// The column type a field type is stored as.
pub open spec fn spec_sql_type(d: DataType) -> SqlType {
    match d {
        DataType::String => SqlType::Text,
        DataType::Bytes => SqlType::Blob,
        DataType::Int64 => SqlType::BigInt,
        DataType::Float64 => SqlType::Real,
        DataType::Bool => SqlType::TinyInt,
    }
}

impl DataType {
    pub fn to_sql_type(&self) -> (r: SqlType)
        ensures
            r == spec_sql_type(*self),
    {
        match self {
            DataType::String => SqlType::Text,
            DataType::Bytes => SqlType::Blob,
            DataType::Int64 => SqlType::BigInt,
            DataType::Float64 => SqlType::Real,
            DataType::Bool => SqlType::TinyInt,
        }
    }
}

/// A field type that knows which column type it is stored as.
pub trait AsDataType: Sized {
    /// The column type this field type maps to.
    spec fn spec_data_type() -> DataType;

    /// The column type this field type maps to.
    fn data_type() -> (d: DataType)
        ensures
            d == Self::spec_data_type(),
    ;
}

impl AsDataType for String {
    open spec fn spec_data_type() -> DataType {
        DataType::String
    }

    fn data_type() -> (d: DataType) {
        DataType::String
    }
}

impl AsDataType for Vec<u8> {
    open spec fn spec_data_type() -> DataType {
        DataType::Bytes
    }

    fn data_type() -> (d: DataType) {
        DataType::Bytes
    }
}

impl AsDataType for i64 {
    open spec fn spec_data_type() -> DataType {
        DataType::Int64
    }

    fn data_type() -> (d: DataType) {
        DataType::Int64
    }
}

impl AsDataType for bool {
    open spec fn spec_data_type() -> DataType {
        DataType::Bool
    }

    fn data_type() -> (d: DataType) {
        DataType::Bool
    }
}

/// Conversion from a stored row value into a field value; row-value types
/// that hold floating point implement this outside the verified core.
pub trait IntoDataType<T> {
    fn into(self) -> T;
}

} // verus!
