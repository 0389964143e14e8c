//! The description of a schema as a decoder hands it over: what the tree
//! builder reads of an object, an array, a primitive, a reference or a
//! composition.

use vstd::prelude::*;

verus! {

/// Either a pointer to a named schema or a schema written in place.
#[derive(Debug)]
pub enum SchemaRef {
    /// A reference such as `#/components/schemas/Pet`.
    Reference { reference: String },
    Item(Box<Schema>),
}

/// A schema: what every schema may carry, and what its kind adds.
#[derive(Debug)]
pub struct Schema {
    pub data: SchemaData,
    pub kind: SchemaKind,
}

/// What a schema of any kind may carry.
#[derive(Debug)]
pub struct SchemaData {
    pub description: Option<String>,
    pub example: Option<serde_json::Value>,
    pub default: Option<serde_json::Value>,
}

/// The shape of a schema.
#[derive(Debug)]
pub enum SchemaKind {
    Object(ObjectType),
    Array(ArrayType),
    Str(StringType),
    Integer(IntegerType),
    Number(NumberType),
    Boolean,
    AllOf { all_of: Vec<SchemaRef> },
    OneOf { one_of: Vec<SchemaRef> },
    AnyOf { any_of: Vec<SchemaRef> },
    /// The negation of a schema.
    Not,
    /// A schema that is none of the others: without a type, or with a mix of
    /// what belongs to several.
    Any,
}

/// An object: its properties in the order of their declaration.
#[derive(Debug)]
pub struct ObjectType {
    pub properties: Vec<(String, SchemaRef)>,
    pub required: Vec<String>,
    pub min_properties: Option<usize>,
    pub max_properties: Option<usize>,
}

/// An array: the schema of its items, if it names one, and its bounds.
#[derive(Debug)]
pub struct ArrayType {
    pub items: Option<SchemaRef>,
    pub min_items: Option<usize>,
    pub max_items: Option<usize>,
    pub unique_items: bool,
}

/// A format: one that is known, another word, or none.
#[derive(Debug)]
pub enum Format<T> {
    Known(T),
    Other(String),
    Absent,
}

/// The formats of a string that have a name of their own.
#[derive(Debug, Clone, Copy)]
pub enum StringFormat {
    Date,
    DateTime,
    Password,
    Byte,
    Binary,
}

/// The widths of an integer.
#[derive(Debug, Clone, Copy)]
pub enum IntegerFormat {
    Int32,
    Int64,
}

/// The precisions of a number.
#[derive(Debug, Clone, Copy)]
pub enum NumberFormat {
    Float,
    Double,
}

/// A string: its format, its pattern, its permitted values and the bounds
/// of its length.
#[derive(Debug)]
pub struct StringType {
    pub format: Format<StringFormat>,
    pub pattern: Option<String>,
    /// The permitted values; `None` stands for a null among them.
    pub enumeration: Vec<Option<String>>,
    pub min_length: Option<usize>,
    pub max_length: Option<usize>,
}

/// An integer: its format, its bounds and whether they are exclusive, the
/// number it must be a multiple of, and its permitted values.
#[derive(Debug)]
pub struct IntegerType {
    pub format: Format<IntegerFormat>,
    pub multiple_of: Option<i64>,
    pub exclusive_minimum: bool,
    pub exclusive_maximum: bool,
    pub minimum: Option<i64>,
    pub maximum: Option<i64>,
    pub enumeration: Vec<Option<i64>>,
}

/// A number with a fraction. Each of its numbers is held as the text that
/// shows it.
#[derive(Debug)]
pub struct NumberType {
    pub format: Format<NumberFormat>,
    pub multiple_of: Option<String>,
    pub exclusive_minimum: bool,
    pub exclusive_maximum: bool,
    pub minimum: Option<String>,
    pub maximum: Option<String>,
    pub enumeration: Vec<Option<String>>,
}

} // verus!
