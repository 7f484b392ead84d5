//! What the library reads of a parquet file: the top-level fields of its
//! schema and, for each row, the values of its top-level fields.
//!
//! The application reads the file and fills these in; every decision taken
//! on them (which column holds images or labels, how a value is shown) is
//! made by the library.

use vstd::prelude::*;

verus! {

/// The physical type of a primitive parquet column.
#[derive(Debug, Clone, Copy, PartialEq, Eq, Structural)]
pub enum PhysicalType {
    Boolean,
    Int32,
    Int64,
    Int96,
    Float,
    Double,
    ByteArray,
    FixedLenByteArray,
}

/// What a top-level schema field is.
#[derive(Debug, Clone, PartialEq)]
pub enum SchemaFieldKind {
    /// A group (struct) field, with the names of its immediate sub-fields.
    Group(Vec<String>),
    /// A primitive column.
    Primitive(PhysicalType),
}

/// A top-level field of a parquet schema.
#[derive(Debug, Clone, PartialEq)]
pub struct SchemaField {
    pub name: String,
    pub kind: SchemaFieldKind,
}

/// An immediate member of a group value: its name and, where the member is a
/// byte array, its bytes.
#[derive(Debug, Clone, PartialEq)]
pub struct GroupEntry {
    pub name: String,
    pub bytes: Option<Vec<u8>>,
}

/// The kind and content of a field value of a row.
#[derive(Debug, Clone, PartialEq)]
pub enum FieldKind {
    Int(i32),
    Long(i64),
    UInt(u32),
    ULong(u64),
    /// A 32-bit float, with its `{:.4}` rendering.
    Float(String),
    /// A 64-bit float, with its `{:.4}` rendering.
    Double(String),
    Str(String),
    Bytes(Vec<u8>),
    Group(Vec<GroupEntry>),
    /// Any other kind of value (booleans, dates, lists, ...).
    Other,
}

/// A field value of a row, with the text its `Display` gives.
#[derive(Debug, Clone, PartialEq)]
pub struct FieldValue {
    pub kind: FieldKind,
    pub shown: String,
}

/// A named field value of a row.
#[derive(Debug, Clone, PartialEq)]
pub struct RowEntry {
    pub name: String,
    pub value: FieldValue,
}

} // verus!
