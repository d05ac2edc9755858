//! Runtime type descriptions and a decode engine guided by them.
//!
//! A `Description` maps type names to schemas. A `SchemaDecoder` resolves
//! named positions in it; a `SchemaDeserializer` decides, for each structural
//! request that a target type makes, whether the schema allows it and what
//! the underlying format decoder must be asked for. `Content` is an
//! in-memory format on which the whole decode runs.

pub mod content;
pub mod describe;
pub mod deserializer;
pub mod name;
pub mod schema;

pub use content::Content;
pub use describe::{Describe, Description};
pub use deserializer::{
    Ask, DecodeError, DeserializerOptions, EnumFormat, FieldCursor, FieldMatcher, Payload,
    Request, SchemaDecode, SchemaDecodeItem, SchemaDecodeItems, SchemaDecoder,
    SchemaDeserializer, Step, StructFormat, TupleCursor, VariantCursor,
};
pub use name::SchemaName;
pub use schema::{
    EnumRepr, EnumSchema, Expected, FieldsSchema, MapSchema, NamedFieldSchema,
    NamedFieldsSchema, OptionSchema, RenameAll, Schema, SchemaItem, SeqSchema,
    SimpleSchema, StructSchema, TupleSchema, VariantSchema,
};
