use vstd::prelude::*;

use crate::describe::{find_registered, item_names, registered, Description};
use crate::name::SchemaName;
use crate::schema::{
    decimal, decimal_text, schema_text, simple_text, EnumRepr, EnumSchema, FieldsSchema,
    NamedFieldSchema, Schema, SchemaItem, SimpleSchema, StructSchema, VariantSchema,
};

verus! {

/// How enums are laid out by the underlying format.
#[derive(Clone, Copy, Debug, PartialEq, Eq, Structural)]
pub enum EnumFormat {
    /// A pair: the index of the variant in declaration order, then its payload.
    Tuple,
    /// A map, following the enum's own `EnumRepr`.
    Mapping,
}

/// How structs are laid out by the underlying format.
#[derive(Clone, Copy, Debug, PartialEq, Eq, Structural)]
pub enum StructFormat {
    /// The field values in declaration order.
    Tuple,
    /// A map from field names to values.
    Mapping,
}

/// The decode configuration.
#[derive(Clone, Copy, Debug, PartialEq, Eq, Structural)]
pub struct DeserializerOptions {
    pub enum_format: EnumFormat,
    pub struct_format: StructFormat,
    /// Ask for borrowed strings and bytes rather than owned ones.
    pub borrowing: bool,
}

impl DeserializerOptions {
    /// For self-describing text formats: structs and enums are maps.
    pub fn text() -> (r: DeserializerOptions)
        ensures
            r == (DeserializerOptions {
                enum_format: EnumFormat::Mapping,
                struct_format: StructFormat::Mapping,
                borrowing: false,
            }),
    {
        DeserializerOptions {
            enum_format: EnumFormat::Mapping,
            struct_format: StructFormat::Mapping,
            borrowing: false,
        }
    }

    /// For binary formats: structs and enums are positional.
    pub fn binary() -> (r: DeserializerOptions)
        ensures
            r == (DeserializerOptions {
                enum_format: EnumFormat::Tuple,
                struct_format: StructFormat::Tuple,
                borrowing: false,
            }),
    {
        DeserializerOptions {
            enum_format: EnumFormat::Tuple,
            struct_format: StructFormat::Tuple,
            borrowing: false,
        }
    }

    /// The same options, asking for borrowed strings and bytes.
    pub fn borrowing(self) -> (r: DeserializerOptions)
        ensures
            r == (DeserializerOptions { borrowing: true, ..self }),
    {
        let mut r = self;
        r.borrowing = true;
        r
    }
}

/// A structural request made by the target of a decode.
#[derive(Clone, Copy, Debug)]
pub enum Request<'r> {
    /// Whatever the schema says.
    Any,
    Bool,
    I8,
    I16,
    I32,
    I64,
    I128,
    U8,
    U16,
    U32,
    U64,
    U128,
    F32,
    F64,
    Char,
    Str,
    String,
    Bytes,
    ByteBuf,
    Unit,
    UnitStruct,
    NewtypeStruct,
    Option,
    Sequence,
    Tuple(usize),
    TupleStruct(usize),
    Mapping,
    Struct(&'r str),
    Enum(&'r str),
    Identifier,
    IgnoredAny,
}

/// A primitive request passed on to the underlying format decoder.
#[derive(Clone, Copy, Debug, PartialEq, Eq, Structural)]
pub enum Ask {
    Unit,
    Bool,
    U8,
    U16,
    U32,
    U64,
    U128,
    I8,
    I16,
    I32,
    I64,
    I128,
    F32,
    F64,
    Char,
    Str,
    String,
    Bytes,
    ByteBuf,
    UnitStruct,
    Identifier,
}

/// Why a value could not be decoded.
#[derive(Debug, PartialEq, Eq)]
pub enum DecodeError {
    /// The request, or the input, does not fit the schema position.
    InvalidType { found: String, expected: String },
    /// A map-shaped struct holds a key that is none of its fields.
    UnknownField(String),
    /// A map-shaped struct lacks one of its fields.
    MissingField(String),
    /// An enum tag names no declared variant.
    InvalidVariant,
    /// The input ended before an enum's tag.
    MissingTag,
    /// The input ended before a payload or a positional value.
    MissingValue,
    /// The input holds more entries than the schema has positions for.
    TrailingInput,
    /// A value was asked of a keyed cursor before its key.
    CursorMisuse,
    /// A named reference that the registry does not hold.
    UnknownName,
}

/// The rank of a signed integer kind by width.
pub open spec fn signed_rank(k: SimpleSchema) -> Option<nat> {
    match k {
        SimpleSchema::I8 => Some(0),
        SimpleSchema::I16 => Some(1),
        SimpleSchema::I32 => Some(2),
        SimpleSchema::I64 => Some(3),
        SimpleSchema::I128 => Some(4),
        _ => None,
    }
}

/// The rank of an unsigned integer kind by width.
pub open spec fn unsigned_rank(k: SimpleSchema) -> Option<nat> {
    match k {
        SimpleSchema::U8 => Some(0),
        SimpleSchema::U16 => Some(1),
        SimpleSchema::U32 => Some(2),
        SimpleSchema::U64 => Some(3),
        SimpleSchema::U128 => Some(4),
        _ => None,
    }
}

/// Whether a schema declared as `declared` satisfies a request for
/// `requested`: the same kind, or an integer of the same signedness and no
/// greater width, or a 32-bit float for a 64-bit one.
pub open spec fn widens(declared: SimpleSchema, requested: SimpleSchema) -> bool {
    ||| declared == requested
    ||| (signed_rank(declared) matches Some(d) && signed_rank(requested) matches Some(r) && d <= r)
    ||| (unsigned_rank(declared) matches Some(d) && unsigned_rank(requested) matches Some(r) && d <= r)
    ||| (declared == SimpleSchema::F32 && requested == SimpleSchema::F64)
}

/// The primitive kind that a request names, if it names one whose schema
/// may be a narrower kind.
pub open spec fn numeric_request(req: Request) -> Option<SimpleSchema> {
    match req {
        Request::Bool => Some(SimpleSchema::Bool),
        Request::I8 => Some(SimpleSchema::I8),
        Request::I16 => Some(SimpleSchema::I16),
        Request::I32 => Some(SimpleSchema::I32),
        Request::I64 => Some(SimpleSchema::I64),
        Request::I128 => Some(SimpleSchema::I128),
        Request::U8 => Some(SimpleSchema::U8),
        Request::U16 => Some(SimpleSchema::U16),
        Request::U32 => Some(SimpleSchema::U32),
        Request::U64 => Some(SimpleSchema::U64),
        Request::U128 => Some(SimpleSchema::U128),
        Request::F32 => Some(SimpleSchema::F32),
        Request::F64 => Some(SimpleSchema::F64),
        Request::Char => Some(SimpleSchema::Char),
        _ => None,
    }
}

/// The underlying request that reads a primitive of kind `k`.
pub open spec fn ask_of(k: SimpleSchema, borrowing: bool) -> Ask {
    match k {
        SimpleSchema::Unit => Ask::Unit,
        SimpleSchema::Bool => Ask::Bool,
        SimpleSchema::U8 => Ask::U8,
        SimpleSchema::U16 => Ask::U16,
        SimpleSchema::U32 => Ask::U32,
        SimpleSchema::U64 => Ask::U64,
        SimpleSchema::U128 => Ask::U128,
        SimpleSchema::I8 => Ask::I8,
        SimpleSchema::I16 => Ask::I16,
        SimpleSchema::I32 => Ask::I32,
        SimpleSchema::I64 => Ask::I64,
        SimpleSchema::I128 => Ask::I128,
        SimpleSchema::F32 => Ask::F32,
        SimpleSchema::F64 => Ask::F64,
        SimpleSchema::Char => Ask::Char,
        SimpleSchema::String => if borrowing { Ask::Str } else { Ask::String },
        SimpleSchema::Bytes => if borrowing { Ask::Bytes } else { Ask::ByteBuf },
    }
}

fn ask_for(k: SimpleSchema, borrowing: bool) -> (r: Ask)
    ensures
        r == ask_of(k, borrowing),
{
    match k {
        SimpleSchema::Unit => Ask::Unit,
        SimpleSchema::Bool => Ask::Bool,
        SimpleSchema::U8 => Ask::U8,
        SimpleSchema::U16 => Ask::U16,
        SimpleSchema::U32 => Ask::U32,
        SimpleSchema::U64 => Ask::U64,
        SimpleSchema::U128 => Ask::U128,
        SimpleSchema::I8 => Ask::I8,
        SimpleSchema::I16 => Ask::I16,
        SimpleSchema::I32 => Ask::I32,
        SimpleSchema::I64 => Ask::I64,
        SimpleSchema::I128 => Ask::I128,
        SimpleSchema::F32 => Ask::F32,
        SimpleSchema::F64 => Ask::F64,
        SimpleSchema::Char => Ask::Char,
        SimpleSchema::String => if borrowing { Ask::Str } else { Ask::String },
        SimpleSchema::Bytes => if borrowing { Ask::Bytes } else { Ask::ByteBuf },
    }
}

/// What to do for a request: a primitive to ask the underlying decoder for,
/// or a structural protocol whose nested positions carry the given schemas.
#[derive(Clone, Copy, Debug)]
pub enum Step<'a> {
    /// Ask the underlying decoder for this primitive.
    Ask(Ask),
    /// Use the underlying option protocol; a present value is at this item.
    Option(&'a SchemaItem),
    /// The schema has no optionality: the value is present, at the same position.
    Present,
    /// A newtype wrapper: its content is at the same position.
    Newtype,
    /// A sequence whose elements are at this item.
    Sequence(&'a SchemaItem),
    /// A map whose keys and values are at these items.
    Mapping(&'a SchemaItem, &'a SchemaItem),
    /// A tuple with these positions.
    Tuple(&'a Vec<SchemaItem>),
    /// A tuple struct with these positions.
    TupleStruct(&'a Vec<SchemaItem>),
    /// A struct read positionally, offered to the target as keyed by field name.
    StructTuple(&'a Vec<NamedFieldSchema>),
    /// A struct read as a map whose keys are field names.
    StructMapping(&'a Vec<NamedFieldSchema>),
    /// An enum read as the index of its variant, then the payload.
    EnumTuple(&'a Vec<VariantSchema>),
    /// An enum read as a map whose one key names the variant.
    EnumExternal(&'a Vec<VariantSchema>),
    /// An enum read as a map whose field `tag` names the variant.
    EnumInternal(&'a String, &'a Vec<VariantSchema>),
    /// An enum read as a map with the variant name under `tag` and the
    /// payload under `content`.
    EnumAdjacent(&'a String, &'a String, &'a Vec<VariantSchema>),
}

/// The text that names what a request asks for, as in a type-mismatch message.
pub open spec fn request_text(req: Request) -> Seq<char> {
    match req {
        Request::Str | Request::String | Request::Identifier => "string"@,
        Request::Bytes | Request::ByteBuf => "bytes"@,
        Request::Unit | Request::UnitStruct => "unit"@,
        Request::Sequence => "sequence"@,
        Request::Tuple(n) | Request::TupleStruct(n) => decimal_text(n as nat) + "-element tuple"@,
        Request::Mapping => "map"@,
        Request::Struct(name) => "struct "@ + name@,
        Request::Enum(name) => "enum "@ + name@,
        Request::Option => "option"@,
        _ => match numeric_request(req) {
            Some(k) => simple_text(k),
            None => "any"@,
        },
    }
}

/// The step for a struct, by the configured struct layout.
pub open spec fn struct_step<'a>(st: &'a StructSchema, opts: DeserializerOptions) -> Step<'a> {
    match &st.fields {
        FieldsSchema::Tuple(t) => Step::TupleStruct(&t.values),
        FieldsSchema::Named(nf) => match opts.struct_format {
            StructFormat::Tuple => Step::StructTuple(&nf.fields),
            StructFormat::Mapping => Step::StructMapping(&nf.fields),
        },
    }
}

/// The step for an enum, by the configured enum layout and the enum's tagging.
pub open spec fn enum_step<'a>(en: &'a EnumSchema, opts: DeserializerOptions) -> Step<'a> {
    match opts.enum_format {
        EnumFormat::Tuple => Step::EnumTuple(&en.variants),
        EnumFormat::Mapping => match &en.repr {
            EnumRepr::ExternallyTagged => Step::EnumExternal(&en.variants),
            EnumRepr::InternallyTagged { tag } => Step::EnumInternal(tag, &en.variants),
            EnumRepr::AdjacentlyTagged { tag, content } => Step::EnumAdjacent(
                tag,
                content,
                &en.variants,
            ),
        },
    }
}

/// The step that the schema alone dictates.
pub open spec fn any_step<'a>(s: &'a Schema, opts: DeserializerOptions) -> Step<'a> {
    match s {
        Schema::Simple(k) => Step::Ask(ask_of(*k, opts.borrowing)),
        Schema::Option(o) => Step::Option(&o.value),
        Schema::Sequence(q) => Step::Sequence(&q.value),
        Schema::Mapping(m) => Step::Mapping(&m.key, &m.value),
        Schema::Tuple(t) => Step::Tuple(&t.values),
        Schema::Struct(st) => struct_step(st, opts),
        Schema::Enum(en) => enum_step(en, opts),
    }
}

/// The step for a request at a schema position, or `None` where the request
/// does not fit the schema.
pub open spec fn accepts<'a>(s: &'a Schema, opts: DeserializerOptions, req: Request) -> Option<
    Step<'a>,
> {
    match req {
        Request::Any | Request::IgnoredAny => Some(any_step(s, opts)),
        Request::Option => match s {
            Schema::Option(o) => Some(Step::Option(&o.value)),
            _ => Some(Step::Present),
        },
        Request::NewtypeStruct => Some(Step::Newtype),
        Request::Str => if *s == Schema::Simple(SimpleSchema::String) {
            Some(Step::Ask(Ask::Str))
        } else {
            None
        },
        Request::String => if *s == Schema::Simple(SimpleSchema::String) {
            Some(Step::Ask(Ask::String))
        } else {
            None
        },
        Request::Identifier => if *s == Schema::Simple(SimpleSchema::String) {
            Some(Step::Ask(Ask::Identifier))
        } else {
            None
        },
        Request::Bytes => if *s == Schema::Simple(SimpleSchema::Bytes) {
            Some(Step::Ask(Ask::Bytes))
        } else {
            None
        },
        Request::ByteBuf => if *s == Schema::Simple(SimpleSchema::Bytes) {
            Some(Step::Ask(Ask::ByteBuf))
        } else {
            None
        },
        Request::Unit => if *s == Schema::Simple(SimpleSchema::Unit) {
            Some(Step::Ask(Ask::Unit))
        } else {
            None
        },
        Request::UnitStruct => if *s == Schema::Simple(SimpleSchema::Unit) {
            Some(Step::Ask(Ask::UnitStruct))
        } else {
            None
        },
        Request::Sequence => match s {
            Schema::Sequence(q) => Some(Step::Sequence(&q.value)),
            _ => None,
        },
        Request::Tuple(_) => match s {
            Schema::Tuple(t) => Some(Step::Tuple(&t.values)),
            _ => None,
        },
        Request::TupleStruct(_) => match s {
            Schema::Tuple(t) => Some(Step::TupleStruct(&t.values)),
            Schema::Struct(st) => match &st.fields {
                FieldsSchema::Tuple(t) => Some(Step::TupleStruct(&t.values)),
                FieldsSchema::Named(_) => None,
            },
            _ => None,
        },
        Request::Mapping => match s {
            Schema::Mapping(m) => Some(Step::Mapping(&m.key, &m.value)),
            _ => None,
        },
        Request::Struct(_) => match s {
            Schema::Struct(st) => Some(struct_step(st, opts)),
            _ => None,
        },
        Request::Enum(_) => match s {
            Schema::Enum(en) => Some(enum_step(en, opts)),
            _ => None,
        },
        _ => match (numeric_request(req), s) {
            (Some(k), Schema::Simple(d)) => if widens(*d, k) {
                Some(Step::Ask(ask_of(*d, opts.borrowing)))
            } else {
                None
            },
            _ => None,
        },
    }
}

/// The text of what a request asks for.
pub fn request_string(req: Request) -> (r: String)
    ensures
        r@ == request_text(req),
{
    match req {
        Request::Str | Request::String | Request::Identifier => String::from_str("string"),
        Request::Bytes | Request::ByteBuf => String::from_str("bytes"),
        Request::Unit | Request::UnitStruct => String::from_str("unit"),
        Request::Sequence => String::from_str("sequence"),
        Request::Tuple(n) | Request::TupleStruct(n) => decimal(n).concat("-element tuple"),
        Request::Mapping => String::from_str("map"),
        Request::Struct(name) => String::from_str("struct ").concat(name),
        Request::Enum(name) => String::from_str("enum ").concat(name),
        Request::Option => String::from_str("option"),
        Request::Bool => SimpleSchema::Bool.to_string(),
        Request::I8 => SimpleSchema::I8.to_string(),
        Request::I16 => SimpleSchema::I16.to_string(),
        Request::I32 => SimpleSchema::I32.to_string(),
        Request::I64 => SimpleSchema::I64.to_string(),
        Request::I128 => SimpleSchema::I128.to_string(),
        Request::U8 => SimpleSchema::U8.to_string(),
        Request::U16 => SimpleSchema::U16.to_string(),
        Request::U32 => SimpleSchema::U32.to_string(),
        Request::U64 => SimpleSchema::U64.to_string(),
        Request::U128 => SimpleSchema::U128.to_string(),
        Request::F32 => SimpleSchema::F32.to_string(),
        Request::F64 => SimpleSchema::F64.to_string(),
        Request::Char => SimpleSchema::Char.to_string(),
        _ => String::from_str("any"),
    }
}

/// The type-mismatch error for a request at a schema position.
pub fn mismatch(s: &Schema, req: Request) -> (e: DecodeError)
    ensures
        e matches DecodeError::InvalidType { found, expected } && found@ == schema_text(*s)
            && expected@ == request_text(req),
{
    DecodeError::InvalidType { found: s.kind_text(), expected: request_string(req) }
}

fn struct_plan<'a>(st: &'a StructSchema, opts: DeserializerOptions) -> (r: Step<'a>)
    ensures
        r == struct_step(st, opts),
{
    match &st.fields {
        FieldsSchema::Tuple(t) => Step::TupleStruct(&t.values),
        FieldsSchema::Named(nf) => match opts.struct_format {
            StructFormat::Tuple => Step::StructTuple(&nf.fields),
            StructFormat::Mapping => Step::StructMapping(&nf.fields),
        },
    }
}

fn enum_plan<'a>(en: &'a EnumSchema, opts: DeserializerOptions) -> (r: Step<'a>)
    ensures
        r == enum_step(en, opts),
{
    match opts.enum_format {
        EnumFormat::Tuple => Step::EnumTuple(&en.variants),
        EnumFormat::Mapping => match &en.repr {
            EnumRepr::ExternallyTagged => Step::EnumExternal(&en.variants),
            EnumRepr::InternallyTagged { tag } => Step::EnumInternal(tag, &en.variants),
            EnumRepr::AdjacentlyTagged { tag, content } => Step::EnumAdjacent(
                tag,
                content,
                &en.variants,
            ),
        },
    }
}

/// The step that the schema alone dictates, for a target that takes
/// whatever the schema says.
pub fn any_plan<'a>(s: &'a Schema, opts: DeserializerOptions) -> (r: Step<'a>)
    ensures
        r == any_step(s, opts),
{
    match s {
        Schema::Simple(k) => Step::Ask(ask_for(*k, opts.borrowing)),
        Schema::Option(o) => Step::Option(&o.value),
        Schema::Sequence(q) => Step::Sequence(&q.value),
        Schema::Mapping(m) => Step::Mapping(&m.key, &m.value),
        Schema::Tuple(t) => Step::Tuple(&t.values),
        Schema::Struct(st) => struct_plan(st, opts),
        Schema::Enum(en) => enum_plan(en, opts),
    }
}

fn simple_is(s: &Schema, k: SimpleSchema) -> (r: bool)
    ensures
        r == (*s == Schema::Simple(k)),
{
    match s {
        Schema::Simple(d) => *d == k,
        _ => false,
    }
}

fn exact<'a>(s: &'a Schema, k: SimpleSchema, ask: Ask, req: Request) -> (r: Result<
    Step<'a>,
    DecodeError,
>)
    ensures
        *s == Schema::Simple(k) ==> r == Ok::<Step, DecodeError>(Step::Ask(ask)),
        *s != Schema::Simple(k) ==> (r matches Err(DecodeError::InvalidType { found, expected })
            && found@ == schema_text(*s) && expected@ == request_text(req)),
{
    if simple_is(s, k) {
        Ok(Step::Ask(ask))
    } else {
        Err(mismatch(s, req))
    }
}

fn signed_rank_of(k: SimpleSchema) -> (r: Option<u8>)
    ensures
        match signed_rank(k) {
            Some(n) => r == Some(n as u8),
            None => r is None,
        },
{
    match k {
        SimpleSchema::I8 => Some(0),
        SimpleSchema::I16 => Some(1),
        SimpleSchema::I32 => Some(2),
        SimpleSchema::I64 => Some(3),
        SimpleSchema::I128 => Some(4),
        _ => None,
    }
}

fn unsigned_rank_of(k: SimpleSchema) -> (r: Option<u8>)
    ensures
        match unsigned_rank(k) {
            Some(n) => r == Some(n as u8),
            None => r is None,
        },
{
    match k {
        SimpleSchema::U8 => Some(0),
        SimpleSchema::U16 => Some(1),
        SimpleSchema::U32 => Some(2),
        SimpleSchema::U64 => Some(3),
        SimpleSchema::U128 => Some(4),
        _ => None,
    }
}

/// Whether a schema of kind `declared` satisfies a request for `requested`.
pub fn widens_to(declared: SimpleSchema, requested: SimpleSchema) -> (r: bool)
    ensures
        r == widens(declared, requested),
{
    if declared == requested {
        return true;
    }
    match (signed_rank_of(declared), signed_rank_of(requested)) {
        (Some(d), Some(q)) => {
            return d <= q;
        },
        _ => {},
    }
    match (unsigned_rank_of(declared), unsigned_rank_of(requested)) {
        (Some(d), Some(q)) => {
            return d <= q;
        },
        _ => {},
    }
    declared == SimpleSchema::F32 && requested == SimpleSchema::F64
}

fn numeric<'a>(s: &'a Schema, k: SimpleSchema, opts: DeserializerOptions, req: Request) -> (r:
    Result<Step<'a>, DecodeError>)
    requires
        numeric_request(req) == Some(k),
    ensures
        match accepts(s, opts, req) {
            Some(st) => r == Ok::<Step, DecodeError>(st),
            None => r matches Err(DecodeError::InvalidType { found, expected }) && found@
                == schema_text(*s) && expected@ == request_text(req),
        },
{
    match s {
        Schema::Simple(d) => if widens_to(*d, k) {
            Ok(Step::Ask(ask_for(*d, opts.borrowing)))
        } else {
            Err(mismatch(s, req))
        },
        _ => Err(mismatch(s, req)),
    }
}

/// Decides a request at a schema position: the step to take, or the
/// type-mismatch error that names the schema's kind and the request.
pub fn plan_step<'a>(s: &'a Schema, opts: DeserializerOptions, req: Request) -> (r: Result<
    Step<'a>,
    DecodeError,
>)
    ensures
        match accepts(s, opts, req) {
            Some(st) => r == Ok::<Step, DecodeError>(st),
            None => r matches Err(DecodeError::InvalidType { found, expected }) && found@
                == schema_text(*s) && expected@ == request_text(req),
        },
{
    match req {
        Request::Any | Request::IgnoredAny => Ok(any_plan(s, opts)),
        Request::Option => match s {
            Schema::Option(o) => Ok(Step::Option(&o.value)),
            _ => Ok(Step::Present),
        },
        Request::NewtypeStruct => Ok(Step::Newtype),
        Request::Str => exact(s, SimpleSchema::String, Ask::Str, req),
        Request::String => exact(s, SimpleSchema::String, Ask::String, req),
        Request::Identifier => exact(s, SimpleSchema::String, Ask::Identifier, req),
        Request::Bytes => exact(s, SimpleSchema::Bytes, Ask::Bytes, req),
        Request::ByteBuf => exact(s, SimpleSchema::Bytes, Ask::ByteBuf, req),
        Request::Unit => exact(s, SimpleSchema::Unit, Ask::Unit, req),
        Request::UnitStruct => exact(s, SimpleSchema::Unit, Ask::UnitStruct, req),
        Request::Sequence => match s {
            Schema::Sequence(q) => Ok(Step::Sequence(&q.value)),
            _ => Err(mismatch(s, req)),
        },
        Request::Tuple(_) => match s {
            Schema::Tuple(t) => Ok(Step::Tuple(&t.values)),
            _ => Err(mismatch(s, req)),
        },
        Request::TupleStruct(_) => match s {
            Schema::Tuple(t) => Ok(Step::TupleStruct(&t.values)),
            Schema::Struct(st) => match &st.fields {
                FieldsSchema::Tuple(t) => Ok(Step::TupleStruct(&t.values)),
                FieldsSchema::Named(_) => Err(mismatch(s, req)),
            },
            _ => Err(mismatch(s, req)),
        },
        Request::Mapping => match s {
            Schema::Mapping(m) => Ok(Step::Mapping(&m.key, &m.value)),
            _ => Err(mismatch(s, req)),
        },
        Request::Struct(_) => match s {
            Schema::Struct(st) => Ok(struct_plan(st, opts)),
            _ => Err(mismatch(s, req)),
        },
        Request::Enum(_) => match s {
            Schema::Enum(en) => Ok(enum_plan(en, opts)),
            _ => Err(mismatch(s, req)),
        },
        Request::Bool => numeric(s, SimpleSchema::Bool, opts, req),
        Request::I8 => numeric(s, SimpleSchema::I8, opts, req),
        Request::I16 => numeric(s, SimpleSchema::I16, opts, req),
        Request::I32 => numeric(s, SimpleSchema::I32, opts, req),
        Request::I64 => numeric(s, SimpleSchema::I64, opts, req),
        Request::I128 => numeric(s, SimpleSchema::I128, opts, req),
        Request::U8 => numeric(s, SimpleSchema::U8, opts, req),
        Request::U16 => numeric(s, SimpleSchema::U16, opts, req),
        Request::U32 => numeric(s, SimpleSchema::U32, opts, req),
        Request::U64 => numeric(s, SimpleSchema::U64, opts, req),
        Request::U128 => numeric(s, SimpleSchema::U128, opts, req),
        Request::F32 => numeric(s, SimpleSchema::F32, opts, req),
        Request::F64 => numeric(s, SimpleSchema::F64, opts, req),
        Request::Char => numeric(s, SimpleSchema::Char, opts, req),
    }
}

/// The table that named references are resolved in.
pub type SchemaDecodeItems = Vec<(SchemaName, Schema)>;

/// A resolved schema position.
#[derive(Clone, Copy, Debug)]
pub enum SchemaDecode<'a> {
    /// A schema written out in place.
    Inline(&'a Schema),
    /// A schema found in the table under this name.
    Registered(&'a SchemaName, &'a Schema),
}

/// A schema position before resolution.
#[derive(Debug)]
pub enum SchemaDecodeItem<'a> {
    Decode(Box<SchemaDecode<'a>>),
    Named(&'a SchemaName),
}

/// The schema that a resolved position stands for.
pub open spec fn decode_schema(d: SchemaDecode) -> Schema {
    match d {
        SchemaDecode::Inline(s) => *s,
        SchemaDecode::Registered(_, s) => *s,
    }
}

/// The schema that a sub-schema stands for in a table, if it resolves.
pub open spec fn resolve_item(items: Seq<(SchemaName, Schema)>, item: SchemaItem) -> Option<Schema> {
    match item {
        SchemaItem::Schema(b) => Some(*b),
        SchemaItem::Named(n) => registered(items, n@),
    }
}

impl<'a> SchemaDecode<'a> {
    /// The position of a schema written out in place.
    pub fn new(schema: &'a Schema) -> (r: SchemaDecode<'a>)
        ensures
            r == SchemaDecode::Inline(schema),
    {
        SchemaDecode::Inline(schema)
    }

    /// The schema at this position.
    pub fn schema(&self) -> (r: &'a Schema)
        ensures
            *r == decode_schema(*self),
    {
        match self {
            SchemaDecode::Inline(s) => s,
            SchemaDecode::Registered(_, s) => s,
        }
    }
}

/// Resolves a sub-schema in a table: an inline schema stands for itself, a
/// name for what the table holds under it.
pub fn resolve<'a>(items: &'a SchemaDecodeItems, item: &'a SchemaItem) -> (r: Result<
    SchemaDecode<'a>,
    DecodeError,
>)
    requires
        item_names(items@).no_duplicates(),
    ensures
        match resolve_item(items@, *item) {
            Some(s) => r matches Ok(d) && decode_schema(d) == s,
            None => r matches Err(DecodeError::UnknownName),
        },
{
    match item {
        SchemaItem::Schema(b) => Ok(SchemaDecode::Inline(&**b)),
        SchemaItem::Named(n) => match find_registered(items, n) {
            Some(s) => Ok(SchemaDecode::Registered(n, s)),
            None => Err(DecodeError::UnknownName),
        },
    }
}

impl<'a> SchemaDecodeItem<'a> {
    /// The unresolved form of a sub-schema.
    pub fn new(item: &'a SchemaItem) -> (r: SchemaDecodeItem<'a>)
        ensures
            match *item {
                SchemaItem::Schema(b) => r matches SchemaDecodeItem::Decode(d) && *d
                    == SchemaDecode::Inline(&*b),
                SchemaItem::Named(n) => r == SchemaDecodeItem::Named(&n),
            },
    {
        match item {
            SchemaItem::Schema(b) => SchemaDecodeItem::Decode(Box::new(SchemaDecode::Inline(&**b))),
            SchemaItem::Named(n) => SchemaDecodeItem::Named(n),
        }
    }

    /// The resolved position, or `None` for a name that the table lacks.
    pub fn lookup(&self, items: &'a SchemaDecodeItems) -> (r: Option<SchemaDecode<'a>>)
        requires
            item_names(items@).no_duplicates(),
        ensures
            match *self {
                SchemaDecodeItem::Decode(d) => r == Some(*d),
                SchemaDecodeItem::Named(n) => match registered(items@, n@) {
                    Some(s) => r == Some(SchemaDecode::Registered(n, &s)),
                    None => r is None,
                },
            },
    {
        match self {
            SchemaDecodeItem::Decode(d) => Some(**d),
            SchemaDecodeItem::Named(n) => match find_registered(items, n) {
                Some(s) => Some(SchemaDecode::Registered(n, s)),
                None => None,
            },
        }
    }
}

/// A description made ready for decoding: the root position and the table
/// of named schemas, shared read-only by every decode.
#[derive(Debug)]
pub struct SchemaDecoder<'a> {
    pub schema: SchemaDecodeItem<'a>,
    pub items: &'a SchemaDecodeItems,
}

impl<'a> SchemaDecoder<'a> {
    /// No name occurs twice in the table.
    pub open spec fn wf(&self) -> bool {
        item_names(self.items@).no_duplicates()
    }

    /// Prepares a well-formed description for decoding.
    pub fn new(descr: &'a Description) -> (r: SchemaDecoder<'a>)
        requires
            descr.wf(),
        ensures
            r.wf(),
            r.items == descr.items,
            match descr.schema {
                SchemaItem::Schema(b) => r.schema matches SchemaDecodeItem::Decode(d) && *d
                    == SchemaDecode::Inline(&*b),
                SchemaItem::Named(n) => r.schema == SchemaDecodeItem::Named(&n),
            },
    {
        SchemaDecoder { schema: SchemaDecodeItem::new(&descr.schema), items: &descr.items }
    }

    /// Resolves a sub-schema in this decoder's table.
    pub fn resolve(&self, item: &'a SchemaItem) -> (r: Result<SchemaDecode<'a>, DecodeError>)
        requires
            self.wf(),
        ensures
            match resolve_item(self.items@, *item) {
                Some(s) => r matches Ok(d) && decode_schema(d) == s,
                None => r matches Err(DecodeError::UnknownName),
            },
    {
        resolve(self.items, item)
    }
}

/// The decode engine at one schema position, over an underlying format
/// decoder `D`: it decides each request of the target against the schema.
pub struct SchemaDeserializer<'a, D> {
    pub schema: SchemaDecode<'a>,
    pub items: &'a SchemaDecodeItems,
    pub opts: DeserializerOptions,
    pub deserializer: D,
}

impl<'a, D> SchemaDeserializer<'a, D> {
    /// No name occurs twice in the table.
    pub open spec fn wf(&self) -> bool {
        item_names(self.items@).no_duplicates()
    }

    /// The engine at the root of a decoder; fails when the root is a name
    /// that the table lacks.
    pub fn new(decoder: &'a SchemaDecoder<'a>, opts: DeserializerOptions, deserializer: D) -> (r:
        Result<SchemaDeserializer<'a, D>, DecodeError>)
        requires
            decoder.wf(),
        ensures
            match decoder.schema {
                SchemaDecodeItem::Decode(d) => r matches Ok(e) && e.schema == *d,
                SchemaDecodeItem::Named(n) => match registered(decoder.items@, n@) {
                    Some(s) => r matches Ok(e) && decode_schema(e.schema) == s,
                    None => r matches Err(DecodeError::UnknownName),
                },
            },
            r matches Ok(e) ==> e.wf() && e.items == decoder.items && e.opts == opts
                && e.deserializer == deserializer,
    {
        match decoder.schema.lookup(decoder.items) {
            Some(schema) => Ok(SchemaDeserializer {
                schema,
                items: decoder.items,
                opts,
                deserializer,
            }),
            None => Err(DecodeError::UnknownName),
        }
    }

    /// The engine at a nested position, over another underlying decoder.
    pub fn nested<E>(&self, item: &'a SchemaItem, deserializer: E) -> (r: Result<
        SchemaDeserializer<'a, E>,
        DecodeError,
    >)
        requires
            self.wf(),
        ensures
            match resolve_item(self.items@, *item) {
                Some(s) => r matches Ok(e) && decode_schema(e.schema) == s && e.wf() && e.items
                    == self.items && e.opts == self.opts && e.deserializer == deserializer,
                None => r matches Err(DecodeError::UnknownName),
            },
    {
        match resolve(self.items, item) {
            Ok(schema) => Ok(SchemaDeserializer {
                schema,
                items: self.items,
                opts: self.opts,
                deserializer,
            }),
            Err(e) => Err(e),
        }
    }

    /// Decides a request of the target at this position.
    pub fn plan(&self, req: Request) -> (r: Result<Step<'a>, DecodeError>)
        ensures
            match accepts(&decode_schema(self.schema), self.opts, req) {
                Some(st) => r == Ok::<Step, DecodeError>(st),
                None => r matches Err(DecodeError::InvalidType { found, expected }) && found@
                    == schema_text(decode_schema(self.schema)) && expected@ == request_text(req),
            },
    {
        plan_step(self.schema.schema(), self.opts, req)
    }

    /// Gives back the underlying decoder.
    pub fn into_inner(self) -> (r: D)
        ensures
            r == self.deserializer,
    {
        self.deserializer
    }
}

/// The payload of an enum variant.
#[derive(Clone, Copy, Debug)]
pub enum Payload<'a> {
    /// No payload.
    Unit,
    /// One value at this item.
    Newtype(&'a SchemaItem),
    /// Positional values.
    Tuple(&'a Vec<SchemaItem>),
    /// Named fields.
    Struct(&'a Vec<NamedFieldSchema>),
}

/// The payload of a variant, by its shape.
pub open spec fn payload_of<'a>(v: &'a VariantSchema) -> Payload<'a> {
    match &v.fields {
        FieldsSchema::Tuple(t) => if t.values.len() == 0 {
            Payload::Unit
        } else if t.values.len() == 1 {
            Payload::Newtype(&t.values[0])
        } else {
            Payload::Tuple(&t.values)
        },
        FieldsSchema::Named(nf) => Payload::Struct(&nf.fields),
    }
}

/// The payload of a variant.
pub fn payload<'a>(v: &'a VariantSchema) -> (r: Payload<'a>)
    ensures
        r == payload_of(v),
{
    match &v.fields {
        FieldsSchema::Tuple(t) => if t.values.len() == 0 {
            Payload::Unit
        } else if t.values.len() == 1 {
            Payload::Newtype(&t.values[0])
        } else {
            Payload::Tuple(&t.values)
        },
        FieldsSchema::Named(nf) => Payload::Struct(&nf.fields),
    }
}

/// The variant at a position in declaration order.
pub fn variant_at<'a>(variants: &'a Vec<VariantSchema>, index: u64) -> (r: Result<
    &'a VariantSchema,
    DecodeError,
>)
    ensures
        index < variants@.len() ==> r == Ok::<&VariantSchema, DecodeError>(&variants@[index as int]),
        index >= variants@.len() ==> r matches Err(DecodeError::InvalidVariant),
{
    if index < variants.len() as u64 {
        Ok(&variants[index as usize])
    } else {
        Err(DecodeError::InvalidVariant)
    }
}

/// The index of the first variant from `from` on whose name is `name`.
pub open spec fn variant_index(variants: Seq<VariantSchema>, name: Seq<char>, from: int) -> Option<
    int,
>
    decreases variants.len() - from,
{
    if from < 0 || from >= variants.len() {
        None
    } else if variants[from].name@ == name {
        Some(from)
    } else {
        variant_index(variants, name, from + 1)
    }
}

/// The first variant with the given name.
pub fn variant_named<'a>(variants: &'a Vec<VariantSchema>, name: &str) -> (r: Result<
    &'a VariantSchema,
    DecodeError,
>)
    ensures
        match variant_index(variants@, name@, 0) {
            Some(i) => r == Ok::<&VariantSchema, DecodeError>(&variants@[i]),
            None => r matches Err(DecodeError::InvalidVariant),
        },
{
    let wanted = String::from_str(name);
    let mut i: usize = 0;
    while i < variants.len()
        invariant
            i <= variants.len(),
            wanted@ == name@,
            variant_index(variants@, name@, 0) == variant_index(variants@, name@, i as int),
        decreases variants.len() - i,
    {
        if variants[i].name == wanted {
            return Ok(&variants[i]);
        }
        i = i + 1;
    }
    Err(DecodeError::InvalidVariant)
}

/// The index of the first field from `from` on whose name is `name`.
pub open spec fn field_index(fields: Seq<NamedFieldSchema>, name: Seq<char>, from: int) -> Option<
    int,
>
    decreases fields.len() - from,
{
    if from < 0 || from >= fields.len() {
        None
    } else if fields[from].name@ == name {
        Some(from)
    } else {
        field_index(fields, name, from + 1)
    }
}

/// The first field with the given name.
pub fn field_named<'a>(fields: &'a Vec<NamedFieldSchema>, name: &str) -> (r: Option<
    &'a NamedFieldSchema,
>)
    ensures
        match field_index(fields@, name@, 0) {
            Some(i) => r == Some(&fields@[i]),
            None => r is None,
        },
{
    let wanted = String::from_str(name);
    let mut i: usize = 0;
    while i < fields.len()
        invariant
            i <= fields.len(),
            wanted@ == name@,
            field_index(fields@, name@, 0) == field_index(fields@, name@, i as int),
        decreases fields.len() - i,
    {
        if fields[i].name == wanted {
            return Some(&fields[i]);
        }
        i = i + 1;
    }
    None
}

/// Hands out the positions of a tuple in order.
#[derive(Debug)]
pub struct TupleCursor<'a> {
    pub values: &'a Vec<SchemaItem>,
    pub next: usize,
}

impl<'a> TupleCursor<'a> {
    pub fn new(values: &'a Vec<SchemaItem>) -> (r: TupleCursor<'a>)
        ensures
            r.values == values,
            r.next == 0,
    {
        TupleCursor { values, next: 0 }
    }

    /// The next position, or `None` when all have been handed out.
    pub fn next_element(&mut self) -> (r: Option<&'a SchemaItem>)
        ensures
            final(self).values == old(self).values,
            old(self).next < old(self).values@.len() ==> r == Some(&old(self).values@[old(
                self,
            ).next as int]) && final(self).next == old(self).next + 1,
            old(self).next >= old(self).values@.len() ==> r is None && final(self).next == old(
                self,
            ).next,
    {
        if self.next < self.values.len() {
            let item = &self.values[self.next];
            self.next = self.next + 1;
            Some(item)
        } else {
            None
        }
    }
}

/// Offers positional struct fields to the target as a keyed cursor: each
/// key is the next field's name, and its value is read at that field.
#[derive(Debug)]
pub struct FieldCursor<'a> {
    pub fields: &'a Vec<NamedFieldSchema>,
    pub next: usize,
    pub pending: Option<&'a SchemaItem>,
}

impl<'a> FieldCursor<'a> {
    pub fn new(fields: &'a Vec<NamedFieldSchema>) -> (r: FieldCursor<'a>)
        ensures
            r.fields == fields,
            r.next == 0,
            r.pending is None,
    {
        FieldCursor { fields, next: 0, pending: None }
    }

    /// The next field's name, or `None` after the last field.
    pub fn next_key(&mut self) -> (r: Option<&'a String>)
        ensures
            final(self).fields == old(self).fields,
            old(self).next < old(self).fields@.len() ==> {
                let f = old(self).fields@[old(self).next as int];
                &&& r == Some(&f.name)
                &&& final(self).next == old(self).next + 1
                &&& final(self).pending == Some(&f.value)
            },
            old(self).next >= old(self).fields@.len() ==> r is None && final(self).next == old(
                self,
            ).next && final(self).pending == old(self).pending,
    {
        if self.next < self.fields.len() {
            let f = &self.fields[self.next];
            self.next = self.next + 1;
            self.pending = Some(&f.value);
            Some(&f.name)
        } else {
            None
        }
    }

    /// The position of the value of the key just handed out.
    pub fn next_value(&mut self) -> (r: Result<&'a SchemaItem, DecodeError>)
        ensures
            final(self).fields == old(self).fields,
            final(self).next == old(self).next,
            final(self).pending is None,
            match old(self).pending {
                Some(v) => r == Ok::<&SchemaItem, DecodeError>(v),
                None => r matches Err(DecodeError::CursorMisuse),
            },
    {
        match self.pending.take() {
            Some(v) => Ok(v),
            None => Err(DecodeError::CursorMisuse),
        }
    }
}

/// Matches the keys of a map-shaped struct against its declared fields.
#[derive(Debug)]
pub struct FieldMatcher<'a> {
    pub fields: &'a Vec<NamedFieldSchema>,
    pub pending: Option<&'a SchemaItem>,
}

impl<'a> FieldMatcher<'a> {
    pub fn new(fields: &'a Vec<NamedFieldSchema>) -> (r: FieldMatcher<'a>)
        ensures
            r.fields == fields,
            r.pending is None,
    {
        FieldMatcher { fields, pending: None }
    }

    /// Takes a key read from the input: the field of that name becomes the
    /// position of the next value; a key that names no field is an error.
    pub fn key(&mut self, key: &str) -> (r: Result<(), DecodeError>)
        ensures
            final(self).fields == old(self).fields,
            match field_index(old(self).fields@, key@, 0) {
                Some(i) => r is Ok && final(self).pending == Some(&old(self).fields@[i].value),
                None => r matches Err(DecodeError::UnknownField(k)) && k@ == key@
                    && final(self).pending == old(self).pending,
            },
    {
        match field_named(self.fields, key) {
            Some(f) => {
                self.pending = Some(&f.value);
                Ok(())
            },
            None => Err(DecodeError::UnknownField(String::from_str(key))),
        }
    }

    /// The position of the value of the key just taken.
    pub fn next_value(&mut self) -> (r: Result<&'a SchemaItem, DecodeError>)
        ensures
            final(self).fields == old(self).fields,
            final(self).pending is None,
            match old(self).pending {
                Some(v) => r == Ok::<&SchemaItem, DecodeError>(v),
                None => r matches Err(DecodeError::CursorMisuse),
            },
    {
        match self.pending.take() {
            Some(v) => Ok(v),
            None => Err(DecodeError::CursorMisuse),
        }
    }
}

/// Offers a chosen enum variant to the target as a map with one entry: the
/// variant's name, then its payload.
#[derive(Debug)]
pub struct VariantCursor<'a> {
    pub tag: Option<&'a String>,
    pub value: Option<Payload<'a>>,
}

impl<'a> VariantCursor<'a> {
    pub fn new(variant: &'a VariantSchema) -> (r: VariantCursor<'a>)
        ensures
            r.tag == Some(&variant.name),
            r.value == Some(payload_of(variant)),
    {
        VariantCursor { tag: Some(&variant.name), value: Some(payload(variant)) }
    }

    /// The variant's name the first time, then `None`.
    pub fn next_key(&mut self) -> (r: Option<&'a String>)
        ensures
            r == old(self).tag,
            final(self).tag is None,
            final(self).value == old(self).value,
    {
        self.tag.take()
    }

    /// The payload, once.
    pub fn next_value(&mut self) -> (r: Result<Payload<'a>, DecodeError>)
        ensures
            final(self).tag == old(self).tag,
            final(self).value is None,
            match old(self).value {
                Some(p) => r == Ok::<Payload, DecodeError>(p),
                None => r matches Err(DecodeError::CursorMisuse),
            },
    {
        match self.value.take() {
            Some(p) => Ok(p),
            None => Err(DecodeError::CursorMisuse),
        }
    }
}

/// The mathematical form of a `DecodeError`.
pub enum Fault {
    InvalidType { found: Seq<char>, expected: Seq<char> },
    UnknownField(Seq<char>),
    MissingField(Seq<char>),
    InvalidVariant,
    MissingTag,
    MissingValue,
    TrailingInput,
    CursorMisuse,
    UnknownName,
}

impl DecodeError {
    pub open spec fn view(&self) -> Fault {
        match self {
            DecodeError::InvalidType { found, expected } => Fault::InvalidType {
                found: found@,
                expected: expected@,
            },
            DecodeError::UnknownField(k) => Fault::UnknownField(k@),
            DecodeError::MissingField(k) => Fault::MissingField(k@),
            DecodeError::InvalidVariant => Fault::InvalidVariant,
            DecodeError::MissingTag => Fault::MissingTag,
            DecodeError::MissingValue => Fault::MissingValue,
            DecodeError::TrailingInput => Fault::TrailingInput,
            DecodeError::CursorMisuse => Fault::CursorMisuse,
            DecodeError::UnknownName => Fault::UnknownName,
        }
    }

    /// A message for the error, as handed to an underlying decoder's own
    /// error type.
    pub fn message(&self) -> (r: String)
        ensures
            self matches DecodeError::InvalidType { found, expected } ==> r@ == "invalid type "@
                + found@ + ", expected "@ + expected@,
            self matches DecodeError::UnknownField(k) ==> r@ == "unknown field "@ + k@,
    {
        match self {
            DecodeError::InvalidType { found, expected } => String::from_str(
                "invalid type ",
            ).concat(found.as_str()).concat(", expected ").concat(expected.as_str()),
            DecodeError::UnknownField(k) => String::from_str("unknown field ").concat(k.as_str()),
            DecodeError::MissingField(k) => String::from_str("missing field ").concat(k.as_str()),
            DecodeError::InvalidVariant => String::from_str("invalid variant"),
            DecodeError::MissingTag => String::from_str("missing tag"),
            DecodeError::MissingValue => String::from_str("missing value"),
            DecodeError::TrailingInput => String::from_str("trailing input"),
            DecodeError::CursorMisuse => String::from_str("invalid use of next_value_seed"),
            DecodeError::UnknownName => String::from_str("unknown schema name"),
        }
    }
}

} // verus!
