use vstd::prelude::*;

use crate::describe::{item_names, registered};
use crate::deserializer::{
    accepts, decode_schema, field_index, field_named, payload, payload_of, plan_step,
    request_text, resolve, resolve_item, signed_rank, unsigned_rank, variant_at, variant_index,
    variant_named, widens, widens_to, Ask, DecodeError, DeserializerOptions, Fault, Payload,
    Request, SchemaDecodeItem, SchemaDecodeItems, SchemaDecoder, Step,
};
use crate::name::SchemaName;
use crate::schema::{
    decimal, decimal_text, schema_text, simple_text, NamedFieldSchema, Schema, SchemaItem,
    SimpleSchema,
};

verus! {

/// A self-describing value held in memory, used as an underlying format.
/// A primitive ask is answered by a value of the asked kind, or by a number
/// of the same family that is no wider; a decode yields the value that a
/// target taking whatever it is offered would build: primitives as they
/// are, structs and enum variants as maps keyed by name.
#[derive(Debug, PartialEq, Eq)]
pub enum Content {
    Unit,
    Bool(bool),
    U8(u8),
    U16(u16),
    U32(u32),
    U64(u64),
    U128(u128),
    I8(i8),
    I16(i16),
    I32(i32),
    I64(i64),
    I128(i128),
    Char(char),
    String(String),
    Bytes(Vec<u8>),
    Option(Option<Box<Content>>),
    Sequence(Vec<Content>),
    Mapping(Vec<(Content, Content)>),
}

/// The mathematical form of a `Content`.
pub enum ContentView {
    Unit,
    Bool(bool),
    U8(u8),
    U16(u16),
    U32(u32),
    U64(u64),
    U128(u128),
    I8(i8),
    I16(i16),
    I32(i32),
    I64(i64),
    I128(i128),
    Char(char),
    String(Seq<char>),
    Bytes(Seq<u8>),
    Option(Option<Box<ContentView>>),
    Sequence(Seq<ContentView>),
    Mapping(Seq<(ContentView, ContentView)>),
}

impl Content {
    pub open spec fn view(&self) -> ContentView
        decreases self,
    {
        match self {
            Content::Unit => ContentView::Unit,
            Content::Bool(b) => ContentView::Bool(*b),
            Content::U8(n) => ContentView::U8(*n),
            Content::U16(n) => ContentView::U16(*n),
            Content::U32(n) => ContentView::U32(*n),
            Content::U64(n) => ContentView::U64(*n),
            Content::U128(n) => ContentView::U128(*n),
            Content::I8(n) => ContentView::I8(*n),
            Content::I16(n) => ContentView::I16(*n),
            Content::I32(n) => ContentView::I32(*n),
            Content::I64(n) => ContentView::I64(*n),
            Content::I128(n) => ContentView::I128(*n),
            Content::Char(c) => ContentView::Char(*c),
            Content::String(s) => ContentView::String(s@),
            Content::Bytes(b) => ContentView::Bytes(b@),
            Content::Option(None) => ContentView::Option(None),
            Content::Option(Some(b)) => ContentView::Option(Some(Box::new((**b).view()))),
            Content::Sequence(vs) => ContentView::Sequence(
                Seq::new(
                    vs.len() as nat,
                    |i: int|
                        if 0 <= i < vs.len() {
                            vs[i].view()
                        } else {
                            ContentView::Unit
                        },
                ),
            ),
            Content::Mapping(es) => ContentView::Mapping(
                Seq::new(
                    es.len() as nat,
                    |i: int|
                        if 0 <= i < es.len() {
                            (es[i].0.view(), es[i].1.view())
                        } else {
                            (ContentView::Unit, ContentView::Unit)
                        },
                ),
            ),
        }
    }
}

/// The text that names the kind of a value.
pub open spec fn content_text(v: ContentView) -> Seq<char> {
    match v {
        ContentView::Unit => "unit"@,
        ContentView::Bool(_) => "bool"@,
        ContentView::U8(_) => "u8"@,
        ContentView::U16(_) => "u16"@,
        ContentView::U32(_) => "u32"@,
        ContentView::U64(_) => "u64"@,
        ContentView::U128(_) => "u128"@,
        ContentView::I8(_) => "i8"@,
        ContentView::I16(_) => "i16"@,
        ContentView::I32(_) => "i32"@,
        ContentView::I64(_) => "i64"@,
        ContentView::I128(_) => "i128"@,
        ContentView::Char(_) => "char"@,
        ContentView::String(_) => "string"@,
        ContentView::Bytes(_) => "bytes"@,
        ContentView::Option(_) => "option"@,
        ContentView::Sequence(_) => "sequence"@,
        ContentView::Mapping(_) => "map"@,
    }
}

/// The text that names what a primitive ask reads.
pub open spec fn ask_text(a: Ask) -> Seq<char> {
    match a {
        Ask::Unit | Ask::UnitStruct => "unit"@,
        Ask::Bool => "bool"@,
        Ask::U8 => "u8"@,
        Ask::U16 => "u16"@,
        Ask::U32 => "u32"@,
        Ask::U64 => "u64"@,
        Ask::U128 => "u128"@,
        Ask::I8 => "i8"@,
        Ask::I16 => "i16"@,
        Ask::I32 => "i32"@,
        Ask::I64 => "i64"@,
        Ask::I128 => "i128"@,
        Ask::F32 => "f32"@,
        Ask::F64 => "f64"@,
        Ask::Char => "char"@,
        Ask::Str | Ask::String | Ask::Identifier => "string"@,
        Ask::Bytes | Ask::ByteBuf => "bytes"@,
    }
}

/// The primitive kind that a value is encoded as, if it is a primitive.
pub open spec fn encoded_kind(v: ContentView) -> Option<SimpleSchema> {
    match v {
        ContentView::Unit => Some(SimpleSchema::Unit),
        ContentView::Bool(_) => Some(SimpleSchema::Bool),
        ContentView::U8(_) => Some(SimpleSchema::U8),
        ContentView::U16(_) => Some(SimpleSchema::U16),
        ContentView::U32(_) => Some(SimpleSchema::U32),
        ContentView::U64(_) => Some(SimpleSchema::U64),
        ContentView::U128(_) => Some(SimpleSchema::U128),
        ContentView::I8(_) => Some(SimpleSchema::I8),
        ContentView::I16(_) => Some(SimpleSchema::I16),
        ContentView::I32(_) => Some(SimpleSchema::I32),
        ContentView::I64(_) => Some(SimpleSchema::I64),
        ContentView::I128(_) => Some(SimpleSchema::I128),
        ContentView::Char(_) => Some(SimpleSchema::Char),
        ContentView::String(_) => Some(SimpleSchema::String),
        ContentView::Bytes(_) => Some(SimpleSchema::Bytes),
        _ => None,
    }
}

/// The primitive kind that an ask reads.
pub open spec fn ask_kind(a: Ask) -> SimpleSchema {
    match a {
        Ask::Unit | Ask::UnitStruct => SimpleSchema::Unit,
        Ask::Bool => SimpleSchema::Bool,
        Ask::U8 => SimpleSchema::U8,
        Ask::U16 => SimpleSchema::U16,
        Ask::U32 => SimpleSchema::U32,
        Ask::U64 => SimpleSchema::U64,
        Ask::U128 => SimpleSchema::U128,
        Ask::I8 => SimpleSchema::I8,
        Ask::I16 => SimpleSchema::I16,
        Ask::I32 => SimpleSchema::I32,
        Ask::I64 => SimpleSchema::I64,
        Ask::I128 => SimpleSchema::I128,
        Ask::F32 => SimpleSchema::F32,
        Ask::F64 => SimpleSchema::F64,
        Ask::Char => SimpleSchema::Char,
        Ask::Str | Ask::String | Ask::Identifier => SimpleSchema::String,
        Ask::Bytes | Ask::ByteBuf => SimpleSchema::Bytes,
    }
}

/// Whether a value answers a primitive ask: a primitive of the asked kind,
/// or a number of the same family that is no wider.
pub open spec fn fits(a: Ask, v: ContentView) -> bool {
    encoded_kind(v) matches Some(k) && widens(k, ask_kind(a))
}

/// The variant index that a value holds, when it is an unsigned integer.
pub open spec fn tag_of(v: ContentView) -> Option<int> {
    match v {
        ContentView::U8(n) => Some(n as int),
        ContentView::U16(n) => Some(n as int),
        ContentView::U32(n) => Some(n as int),
        ContentView::U64(n) => Some(n as int),
        _ => None,
    }
}

/// The results in order, or the first error among them.
pub open spec fn collect<T>(rs: Seq<Result<T, Fault>>) -> Result<Seq<T>, Fault>
    decreases rs.len(),
{
    if rs.len() == 0 {
        Ok(Seq::empty())
    } else {
        match collect(rs.drop_last()) {
            Err(e) => Err(e),
            Ok(xs) => match rs.last() {
                Ok(x) => Ok(xs.push(x)),
                Err(e) => Err(e),
            },
        }
    }
}

/// The index of the first entry from `from` on whose key is the string `key`.
pub open spec fn entry_index(es: Seq<(ContentView, ContentView)>, key: Seq<char>, from: int) -> Option<
    int,
>
    decreases es.len() - from,
{
    if from < 0 || from >= es.len() {
        None
    } else if es[from].0 == ContentView::String(key) {
        Some(from)
    } else {
        entry_index(es, key, from + 1)
    }
}

/// Requests that decode the same input again, at the same position, for
/// whatever the schema says.
pub open spec fn request_rank(req: Request) -> nat {
    match req {
        Request::Option | Request::NewtypeStruct => 1,
        _ => 0,
    }
}

/// The type mismatch of an input value against what was asked of it.
pub open spec fn mismatch_view(found: ContentView, expected: Seq<char>) -> Fault {
    Fault::InvalidType { found: content_text(found), expected }
}

/// Decoding `input` at the schema position `item`, for a target that takes
/// whatever the schema says.
pub open spec fn decode_at(
    items: Seq<(SchemaName, Schema)>,
    opts: DeserializerOptions,
    item: SchemaItem,
    input: ContentView,
) -> Result<ContentView, Fault>
    decreases input, 2nat,
{
    match resolve_item(items, item) {
        None => Err(Fault::UnknownName),
        Some(s) => decode_view(items, opts, s, Request::Any, input),
    }
}

/// The result of decoding each element of a sequence at one position.
pub open spec fn element_results(
    items: Seq<(SchemaName, Schema)>,
    opts: DeserializerOptions,
    item: SchemaItem,
    vs: Seq<ContentView>,
) -> Seq<Result<ContentView, Fault>>
    decreases vs, 3nat,
{
    Seq::new(
        vs.len(),
        |i: int|
            if 0 <= i < vs.len() {
                decode_at(items, opts, item, vs[i])
            } else {
                Err(Fault::MissingValue)
            },
    )
}

/// Decoding each element of a sequence at one position.
pub open spec fn decode_elements(
    items: Seq<(SchemaName, Schema)>,
    opts: DeserializerOptions,
    item: SchemaItem,
    vs: Seq<ContentView>,
) -> Result<Seq<ContentView>, Fault>
    decreases vs, 4nat,
{
    collect(element_results(items, opts, item, vs))
}

/// The result of decoding each entry of a map, key then value.
pub open spec fn entry_results(
    items: Seq<(SchemaName, Schema)>,
    opts: DeserializerOptions,
    key: SchemaItem,
    value: SchemaItem,
    es: Seq<(ContentView, ContentView)>,
) -> Seq<Result<(ContentView, ContentView), Fault>>
    decreases es, 3nat,
{
    Seq::new(
        es.len(),
        |i: int|
            if 0 <= i < es.len() {
                match decode_at(items, opts, key, es[i].0) {
                    Err(e) => Err(e),
                    Ok(k) => match decode_at(items, opts, value, es[i].1) {
                        Err(e) => Err(e),
                        Ok(v) => Ok((k, v)),
                    },
                }
            } else {
                Err(Fault::MissingValue)
            },
    )
}

/// Decoding each entry of a map, keys and values at their positions.
pub open spec fn decode_entries(
    items: Seq<(SchemaName, Schema)>,
    opts: DeserializerOptions,
    key: SchemaItem,
    value: SchemaItem,
    es: Seq<(ContentView, ContentView)>,
) -> Result<Seq<(ContentView, ContentView)>, Fault>
    decreases es, 4nat,
{
    collect(entry_results(items, opts, key, value, es))
}

/// The result of decoding each positional value at its own position.
pub open spec fn position_results(
    items: Seq<(SchemaName, Schema)>,
    opts: DeserializerOptions,
    values: Seq<SchemaItem>,
    vs: Seq<ContentView>,
) -> Seq<Result<ContentView, Fault>>
    decreases vs, 3nat,
{
    Seq::new(
        vs.len(),
        |i: int|
            if 0 <= i < vs.len() {
                decode_at(items, opts, values[i], vs[i])
            } else {
                Err(Fault::MissingValue)
            },
    )
}

/// Decoding positional values, one per position, all present and no more.
pub open spec fn decode_positions(
    items: Seq<(SchemaName, Schema)>,
    opts: DeserializerOptions,
    values: Seq<SchemaItem>,
    vs: Seq<ContentView>,
) -> Result<Seq<ContentView>, Fault>
    decreases vs, 4nat,
{
    if vs.len() < values.len() {
        Err(Fault::MissingValue)
    } else if vs.len() > values.len() {
        Err(Fault::TrailingInput)
    } else {
        collect(position_results(items, opts, values, vs))
    }
}

/// The result of decoding each positional struct field, keyed by its name.
pub open spec fn field_results(
    items: Seq<(SchemaName, Schema)>,
    opts: DeserializerOptions,
    fields: Seq<NamedFieldSchema>,
    vs: Seq<ContentView>,
) -> Seq<Result<(ContentView, ContentView), Fault>>
    decreases vs, 3nat,
{
    Seq::new(
        vs.len(),
        |i: int|
            if 0 <= i < vs.len() {
                match decode_at(items, opts, fields[i].value, vs[i]) {
                    Err(e) => Err(e),
                    Ok(v) => Ok((ContentView::String(fields[i].name@), v)),
                }
            } else {
                Err(Fault::MissingValue)
            },
    )
}

/// Decoding struct fields given positionally, as entries keyed by field name.
pub open spec fn decode_fields_positional(
    items: Seq<(SchemaName, Schema)>,
    opts: DeserializerOptions,
    fields: Seq<NamedFieldSchema>,
    vs: Seq<ContentView>,
) -> Result<Seq<(ContentView, ContentView)>, Fault>
    decreases vs, 4nat,
{
    if vs.len() < fields.len() {
        Err(Fault::MissingValue)
    } else if vs.len() > fields.len() {
        Err(Fault::TrailingInput)
    } else {
        collect(field_results(items, opts, fields, vs))
    }
}

/// Decoding one map entry of a struct given by field name.
pub open spec fn decode_named_entry(
    items: Seq<(SchemaName, Schema)>,
    opts: DeserializerOptions,
    fields: Seq<NamedFieldSchema>,
    entry: (ContentView, ContentView),
) -> Result<(ContentView, ContentView), Fault>
    decreases entry, 2nat,
{
    match entry.0 {
        ContentView::String(k) => match field_index(fields, k, 0) {
            None => Err(Fault::UnknownField(k)),
            Some(f) => match decode_at(items, opts, fields[f].value, entry.1) {
                Err(e) => Err(e),
                Ok(v) => Ok((entry.0, v)),
            },
        },
        _ => Err(mismatch_view(entry.0, "string"@)),
    }
}

/// The result of decoding each entry of a struct given as a map; the entry
/// at `skip`, if any, is the enum tag and is kept as it is.
pub open spec fn named_results(
    items: Seq<(SchemaName, Schema)>,
    opts: DeserializerOptions,
    fields: Seq<NamedFieldSchema>,
    es: Seq<(ContentView, ContentView)>,
    skip: int,
) -> Seq<Result<(ContentView, ContentView), Fault>>
    decreases es, 3nat,
{
    Seq::new(
        es.len(),
        |i: int|
            if 0 <= i < es.len() {
                if i == skip {
                    Ok(es[i])
                } else {
                    decode_named_entry(items, opts, fields, es[i])
                }
            } else {
                Err(Fault::MissingValue)
            },
    )
}

/// The first field from `from` on that no entry of `es` names.
pub open spec fn missing_field(
    fields: Seq<NamedFieldSchema>,
    es: Seq<(ContentView, ContentView)>,
    from: int,
) -> Option<int>
    decreases fields.len() - from,
{
    if from < 0 || from >= fields.len() {
        None
    } else if entry_index(es, fields[from].name@, 0) is None {
        Some(from)
    } else {
        missing_field(fields, es, from + 1)
    }
}

/// Decoding struct fields given as a map keyed by field name: every entry
/// must name a field, and every field must be there.
pub open spec fn decode_fields_named(
    items: Seq<(SchemaName, Schema)>,
    opts: DeserializerOptions,
    fields: Seq<NamedFieldSchema>,
    es: Seq<(ContentView, ContentView)>,
    skip: int,
) -> Result<Seq<(ContentView, ContentView)>, Fault>
    decreases es, 4nat,
{
    match collect(named_results(items, opts, fields, es, skip)) {
        Err(e) => Err(e),
        Ok(out) => match missing_field(fields, es, 0) {
            Some(f) => Err(Fault::MissingField(fields[f].name@)),
            None => Ok(out),
        },
    }
}

/// Decoding an enum payload read positionally.
pub open spec fn decode_payload_positional(
    items: Seq<(SchemaName, Schema)>,
    opts: DeserializerOptions,
    p: Payload,
    v: ContentView,
) -> Result<ContentView, Fault>
    decreases v, 5nat,
{
    match p {
        Payload::Unit => if v is Unit {
            Ok(ContentView::Unit)
        } else {
            Err(mismatch_view(v, "unit"@))
        },
        Payload::Newtype(item) => decode_at(items, opts, *item, v),
        Payload::Tuple(values) => match v {
            ContentView::Sequence(ws) => match decode_positions(items, opts, values@, ws) {
                Err(e) => Err(e),
                Ok(out) => Ok(ContentView::Sequence(out)),
            },
            _ => Err(mismatch_view(v, decimal_text(values@.len()) + "-element tuple"@)),
        },
        Payload::Struct(fields) => match v {
            ContentView::Sequence(ws) => match decode_fields_positional(items, opts, fields@, ws) {
                Err(e) => Err(e),
                Ok(out) => Ok(ContentView::Mapping(out)),
            },
            _ => Err(mismatch_view(v, "sequence"@)),
        },
    }
}

/// Decoding an enum payload read from a map-shaped encoding.
pub open spec fn decode_payload_named(
    items: Seq<(SchemaName, Schema)>,
    opts: DeserializerOptions,
    p: Payload,
    v: ContentView,
) -> Result<ContentView, Fault>
    decreases v, 5nat,
{
    match p {
        Payload::Unit => if v is Unit {
            Ok(ContentView::Unit)
        } else {
            Err(mismatch_view(v, "unit"@))
        },
        Payload::Newtype(item) => decode_at(items, opts, *item, v),
        Payload::Tuple(values) => match v {
            ContentView::Sequence(ws) => match decode_positions(items, opts, values@, ws) {
                Err(e) => Err(e),
                Ok(out) => Ok(ContentView::Sequence(out)),
            },
            _ => Err(mismatch_view(v, decimal_text(values@.len()) + "-element tuple"@)),
        },
        Payload::Struct(fields) => match v {
            ContentView::Mapping(es) => match decode_fields_named(items, opts, fields@, es, -1) {
                Err(e) => Err(e),
                Ok(out) => Ok(ContentView::Mapping(out)),
            },
            _ => Err(mismatch_view(v, "map"@)),
        },
    }
}

/// A map with one entry: a variant's name and its decoded payload.
pub open spec fn tagged(name: Seq<char>, payload: ContentView) -> ContentView {
    ContentView::Mapping(Seq::empty().push((ContentView::String(name), payload)))
}

/// Decoding `input` at schema `s` for the target's request `req`: the
/// request is decided against the schema, and the step it leads to is
/// carried out on the input.
pub open spec fn decode_view(
    items: Seq<(SchemaName, Schema)>,
    opts: DeserializerOptions,
    s: Schema,
    req: Request,
    input: ContentView,
) -> Result<ContentView, Fault>
    decreases input, request_rank(req),
{
    match accepts(&s, opts, req) {
        None => Err(Fault::InvalidType { found: schema_text(s), expected: request_text(req) }),
        Some(step) => match step {
            Step::Ask(a) => if fits(a, input) {
                Ok(input)
            } else {
                Err(mismatch_view(input, ask_text(a)))
            },
            Step::Present => match decode_view(items, opts, s, Request::Any, input) {
                Err(e) => Err(e),
                Ok(v) => Ok(ContentView::Option(Some(Box::new(v)))),
            },
            Step::Newtype => decode_view(items, opts, s, Request::Any, input),
            Step::Option(item) => match input {
                ContentView::Option(None) => Ok(ContentView::Option(None)),
                ContentView::Option(Some(b)) => match decode_at(items, opts, *item, *b) {
                    Err(e) => Err(e),
                    Ok(v) => Ok(ContentView::Option(Some(Box::new(v)))),
                },
                _ => Err(mismatch_view(input, "option"@)),
            },
            Step::Sequence(item) => match input {
                ContentView::Sequence(vs) => match decode_elements(items, opts, *item, vs) {
                    Err(e) => Err(e),
                    Ok(out) => Ok(ContentView::Sequence(out)),
                },
                _ => Err(mismatch_view(input, "sequence"@)),
            },
            Step::Mapping(k, v) => match input {
                ContentView::Mapping(es) => match decode_entries(items, opts, *k, *v, es) {
                    Err(e) => Err(e),
                    Ok(out) => Ok(ContentView::Mapping(out)),
                },
                _ => Err(mismatch_view(input, "map"@)),
            },
            Step::Tuple(values) | Step::TupleStruct(values) => match input {
                ContentView::Sequence(vs) => match decode_positions(items, opts, values@, vs) {
                    Err(e) => Err(e),
                    Ok(out) => Ok(ContentView::Sequence(out)),
                },
                _ => Err(mismatch_view(input, decimal_text(values@.len()) + "-element tuple"@)),
            },
            Step::StructTuple(fields) => match input {
                ContentView::Sequence(vs) => match decode_fields_positional(
                    items,
                    opts,
                    fields@,
                    vs,
                ) {
                    Err(e) => Err(e),
                    Ok(out) => Ok(ContentView::Mapping(out)),
                },
                _ => Err(mismatch_view(input, "sequence"@)),
            },
            Step::StructMapping(fields) => match input {
                ContentView::Mapping(es) => match decode_fields_named(items, opts, fields@, es, -1) {
                    Err(e) => Err(e),
                    Ok(out) => Ok(ContentView::Mapping(out)),
                },
                _ => Err(mismatch_view(input, "map"@)),
            },
            Step::EnumTuple(variants) => match input {
                ContentView::Sequence(vs) => if vs.len() == 0 {
                    Err(Fault::MissingTag)
                } else {
                    match tag_of(vs[0]) {
                        None => Err(mismatch_view(vs[0], "u64"@)),
                        Some(t) => if t >= variants@.len() {
                            Err(Fault::InvalidVariant)
                        } else if vs.len() < 2 {
                            Err(Fault::MissingValue)
                        } else if vs.len() > 2 {
                            Err(Fault::TrailingInput)
                        } else {
                            match decode_payload_positional(
                                items,
                                opts,
                                payload_of(&variants@[t]),
                                vs[1],
                            ) {
                                Err(e) => Err(e),
                                Ok(p) => Ok(tagged(variants@[t].name@, p)),
                            }
                        },
                    }
                },
                _ => Err(mismatch_view(input, "sequence"@)),
            },
            Step::EnumExternal(variants) => match input {
                ContentView::Mapping(es) => if es.len() == 0 {
                    Err(Fault::MissingTag)
                } else {
                    match es[0].0 {
                        ContentView::String(k) => match variant_index(variants@, k, 0) {
                            None => Err(Fault::InvalidVariant),
                            Some(t) => if es.len() > 1 {
                                Err(Fault::TrailingInput)
                            } else {
                                match decode_payload_named(
                                    items,
                                    opts,
                                    payload_of(&variants@[t]),
                                    es[0].1,
                                ) {
                                    Err(e) => Err(e),
                                    Ok(p) => Ok(tagged(variants@[t].name@, p)),
                                }
                            },
                        },
                        _ => Err(mismatch_view(es[0].0, "string"@)),
                    }
                },
                _ => Err(mismatch_view(input, "map"@)),
            },
            Step::EnumInternal(tag, variants) => match input {
                ContentView::Mapping(es) => match entry_index(es, tag@, 0) {
                    None => Err(Fault::MissingTag),
                    Some(ti) => match es[ti].1 {
                        ContentView::String(name) => match variant_index(variants@, name, 0) {
                            None => Err(Fault::InvalidVariant),
                            Some(t) => match payload_of(&variants@[t]) {
                                Payload::Unit => if es.len() == 1 {
                                    Ok(tagged(variants@[t].name@, ContentView::Unit))
                                } else {
                                    Err(Fault::TrailingInput)
                                },
                                Payload::Struct(fields) => match decode_fields_named(
                                    items,
                                    opts,
                                    fields@,
                                    es,
                                    ti,
                                ) {
                                    Err(e) => Err(e),
                                    Ok(out) => Ok(
                                        tagged(variants@[t].name@, ContentView::Mapping(out)),
                                    ),
                                },
                                _ => Err(mismatch_view(input, "unit or struct variant"@)),
                            },
                        },
                        _ => Err(mismatch_view(es[ti].1, "string"@)),
                    },
                },
                _ => Err(mismatch_view(input, "map"@)),
            },
            Step::EnumAdjacent(tag, content, variants) => match input {
                ContentView::Mapping(es) => match entry_index(es, tag@, 0) {
                    None => Err(Fault::MissingTag),
                    Some(ti) => match es[ti].1 {
                        ContentView::String(name) => match variant_index(variants@, name, 0) {
                            None => Err(Fault::InvalidVariant),
                            Some(t) => match entry_index(es, content@, 0) {
                                None => if payload_of(&variants@[t]) is Unit && es.len() == 1 {
                                    Ok(tagged(variants@[t].name@, ContentView::Unit))
                                } else {
                                    Err(Fault::MissingValue)
                                },
                                Some(ci) => if es.len() > 2 {
                                    Err(Fault::TrailingInput)
                                } else if !(0 <= ci < es.len()) {
                                    Err(Fault::MissingValue)
                                } else {
                                    match decode_payload_named(
                                        items,
                                        opts,
                                        payload_of(&variants@[t]),
                                        es[ci].1,
                                    ) {
                                        Err(e) => Err(e),
                                        Ok(p) => Ok(tagged(variants@[t].name@, p)),
                                    }
                                },
                            },
                        },
                        _ => Err(mismatch_view(es[ti].1, "string"@)),
                    },
                },
                _ => Err(mismatch_view(input, "map"@)),
            },
        },
    }
}

/// The mathematical form of a decode result.
pub open spec fn result_view(r: Result<Content, DecodeError>) -> Result<ContentView, Fault> {
    match r {
        Ok(c) => Ok(c@),
        Err(e) => Err(e@),
    }
}

/// The views of a sequence of values.
pub open spec fn views(cs: Seq<Content>) -> Seq<ContentView> {
    Seq::new(cs.len(), |i: int| cs[i]@)
}

/// The views of a sequence of entries.
pub open spec fn entry_views(es: Seq<(Content, Content)>) -> Seq<(ContentView, ContentView)> {
    Seq::new(es.len(), |i: int| (es[i].0@, es[i].1@))
}

proof fn lemma_sequence_view(vs: Vec<Content>)
    ensures
        Content::Sequence(vs)@ == ContentView::Sequence(views(vs@)),
{
    assert(Content::Sequence(vs)@->Sequence_0 =~= views(vs@));
}

proof fn lemma_mapping_view(es: Vec<(Content, Content)>)
    ensures
        Content::Mapping(es)@ == ContentView::Mapping(entry_views(es@)),
{
    assert(Content::Mapping(es)@->Mapping_0 =~= entry_views(es@));
}

proof fn lemma_collect_step<T>(rs: Seq<Result<T, Fault>>, i: int)
    requires
        0 <= i < rs.len(),
    ensures
        collect(rs.take(i + 1)) == match collect(rs.take(i)) {
            Err(e) => Err(e),
            Ok(xs) => match rs[i] {
                Ok(x) => Ok(xs.push(x)),
                Err(e) => Err(e),
            },
        },
{
    assert(rs.take(i + 1).drop_last() =~= rs.take(i));
    assert(rs.take(i + 1).last() == rs[i]);
}

proof fn lemma_collect_error<T>(rs: Seq<Result<T, Fault>>, k: int)
    requires
        0 <= k <= rs.len(),
        collect(rs.take(k)) is Err,
    ensures
        collect(rs) == collect(rs.take(k)),
    decreases rs.len() - k,
{
    if k < rs.len() {
        lemma_collect_step(rs, k);
        lemma_collect_error(rs, k + 1);
    } else {
        assert(rs.take(k) =~= rs);
    }
}

proof fn lemma_collect_none<T>(rs: Seq<Result<T, Fault>>)
    ensures
        collect(rs.take(0)) == Ok::<Seq<T>, Fault>(Seq::empty()),
{
    assert(rs.take(0) =~= Seq::empty());
}

proof fn lemma_collect_all<T>(rs: Seq<Result<T, Fault>>)
    ensures
        collect(rs.take(rs.len() as int)) == collect(rs),
{
    assert(rs.take(rs.len() as int) =~= rs);
}

/// A copy of a value.
pub fn copy(c: &Content) -> (r: Content)
    ensures
        r@ == c@,
    decreases c,
{
    match c {
        Content::Unit => Content::Unit,
        Content::Bool(b) => Content::Bool(*b),
        Content::U8(n) => Content::U8(*n),
        Content::U16(n) => Content::U16(*n),
        Content::U32(n) => Content::U32(*n),
        Content::U64(n) => Content::U64(*n),
        Content::U128(n) => Content::U128(*n),
        Content::I8(n) => Content::I8(*n),
        Content::I16(n) => Content::I16(*n),
        Content::I32(n) => Content::I32(*n),
        Content::I64(n) => Content::I64(*n),
        Content::I128(n) => Content::I128(*n),
        Content::Char(ch) => Content::Char(*ch),
        Content::String(s) => Content::String(s.clone()),
        Content::Bytes(b) => {
            let mut out: Vec<u8> = Vec::new();
            let mut i: usize = 0;
            while i < b.len()
                invariant
                    i <= b.len(),
                    out@ == b@.take(i as int),
                decreases b.len() - i,
            {
                out.push(b[i]);
                i = i + 1;
                assert(out@ =~= b@.take(i as int));
            }
            assert(b@.take(b.len() as int) =~= b@);
            Content::Bytes(out)
        },
        Content::Option(None) => Content::Option(None),
        Content::Option(Some(inner)) => Content::Option(Some(Box::new(copy(&**inner)))),
        Content::Sequence(vs) => {
            let out = copy_all(vs);
            proof {
                lemma_sequence_view(out);
                lemma_sequence_view(*vs);
            }
            Content::Sequence(out)
        },
        Content::Mapping(es) => {
            let out = copy_entries(es);
            proof {
                lemma_mapping_view(out);
                lemma_mapping_view(*es);
            }
            Content::Mapping(out)
        },
    }
}

fn copy_all(vs: &Vec<Content>) -> (r: Vec<Content>)
    ensures
        views(r@) == views(vs@),
    decreases vs,
{
    let mut out: Vec<Content> = Vec::new();
    let mut i: usize = 0;
    while i < vs.len()
        invariant
            i <= vs.len(),
            out@.len() == i,
            forall|j: int| 0 <= j < i ==> out@[j]@ == vs@[j]@,
        decreases vs.len() - i,
    {
        let x = copy(&vs[i]);
        out.push(x);
        i = i + 1;
    }
    assert(views(out@) =~= views(vs@));
    out
}

fn copy_entries(es: &Vec<(Content, Content)>) -> (r: Vec<(Content, Content)>)
    ensures
        entry_views(r@) == entry_views(es@),
    decreases es,
{
    let mut out: Vec<(Content, Content)> = Vec::new();
    let mut i: usize = 0;
    while i < es.len()
        invariant
            i <= es.len(),
            out@.len() == i,
            forall|j: int| 0 <= j < i ==> out@[j].0@ == es@[j].0@ && out@[j].1@ == es@[j].1@,
        decreases es.len() - i,
    {
        let k = copy(&es[i].0);
        let v = copy(&es[i].1);
        out.push((k, v));
        i = i + 1;
    }
    assert(entry_views(out@) =~= entry_views(es@));
    out
}

/// The mathematical form of a result holding values.
pub open spec fn values_result(r: Result<Vec<Content>, DecodeError>) -> Result<
    Seq<ContentView>,
    Fault,
> {
    match r {
        Ok(cs) => Ok(views(cs@)),
        Err(e) => Err(e@),
    }
}

/// The mathematical form of a result holding entries.
pub open spec fn entries_result(r: Result<Vec<(Content, Content)>, DecodeError>) -> Result<
    Seq<(ContentView, ContentView)>,
    Fault,
> {
    match r {
        Ok(es) => Ok(entry_views(es@)),
        Err(e) => Err(e@),
    }
}

/// The mathematical form of a result holding one entry.
pub open spec fn entry_result(r: Result<(Content, Content), DecodeError>) -> Result<
    (ContentView, ContentView),
    Fault,
> {
    match r {
        Ok(e) => Ok((e.0@, e.1@)),
        Err(e) => Err(e@),
    }
}

/// The text that names the kind of a value.
pub fn content_kind(c: &Content) -> (r: String)
    ensures
        r@ == content_text(c@),
{
    let s = match c {
        Content::Unit => "unit",
        Content::Bool(_) => "bool",
        Content::U8(_) => "u8",
        Content::U16(_) => "u16",
        Content::U32(_) => "u32",
        Content::U64(_) => "u64",
        Content::U128(_) => "u128",
        Content::I8(_) => "i8",
        Content::I16(_) => "i16",
        Content::I32(_) => "i32",
        Content::I64(_) => "i64",
        Content::I128(_) => "i128",
        Content::Char(_) => "char",
        Content::String(_) => "string",
        Content::Bytes(_) => "bytes",
        Content::Option(_) => "option",
        Content::Sequence(_) => "sequence",
        Content::Mapping(_) => "map",
    };
    String::from_str(s)
}

fn ask_string(a: Ask) -> (r: String)
    ensures
        r@ == ask_text(a),
{
    let s = match a {
        Ask::Unit | Ask::UnitStruct => "unit",
        Ask::Bool => "bool",
        Ask::U8 => "u8",
        Ask::U16 => "u16",
        Ask::U32 => "u32",
        Ask::U64 => "u64",
        Ask::U128 => "u128",
        Ask::I8 => "i8",
        Ask::I16 => "i16",
        Ask::I32 => "i32",
        Ask::I64 => "i64",
        Ask::I128 => "i128",
        Ask::F32 => "f32",
        Ask::F64 => "f64",
        Ask::Char => "char",
        Ask::Str | Ask::String | Ask::Identifier => "string",
        Ask::Bytes | Ask::ByteBuf => "bytes",
    };
    String::from_str(s)
}

fn kind_of(c: &Content) -> (r: Option<SimpleSchema>)
    ensures
        r == encoded_kind(c@),
{
    match c {
        Content::Unit => Some(SimpleSchema::Unit),
        Content::Bool(_) => Some(SimpleSchema::Bool),
        Content::U8(_) => Some(SimpleSchema::U8),
        Content::U16(_) => Some(SimpleSchema::U16),
        Content::U32(_) => Some(SimpleSchema::U32),
        Content::U64(_) => Some(SimpleSchema::U64),
        Content::U128(_) => Some(SimpleSchema::U128),
        Content::I8(_) => Some(SimpleSchema::I8),
        Content::I16(_) => Some(SimpleSchema::I16),
        Content::I32(_) => Some(SimpleSchema::I32),
        Content::I64(_) => Some(SimpleSchema::I64),
        Content::I128(_) => Some(SimpleSchema::I128),
        Content::Char(_) => Some(SimpleSchema::Char),
        Content::String(_) => Some(SimpleSchema::String),
        Content::Bytes(_) => Some(SimpleSchema::Bytes),
        _ => None,
    }
}

fn ask_kind_of(a: Ask) -> (r: SimpleSchema)
    ensures
        r == ask_kind(a),
{
    match a {
        Ask::Unit | Ask::UnitStruct => SimpleSchema::Unit,
        Ask::Bool => SimpleSchema::Bool,
        Ask::U8 => SimpleSchema::U8,
        Ask::U16 => SimpleSchema::U16,
        Ask::U32 => SimpleSchema::U32,
        Ask::U64 => SimpleSchema::U64,
        Ask::U128 => SimpleSchema::U128,
        Ask::I8 => SimpleSchema::I8,
        Ask::I16 => SimpleSchema::I16,
        Ask::I32 => SimpleSchema::I32,
        Ask::I64 => SimpleSchema::I64,
        Ask::I128 => SimpleSchema::I128,
        Ask::F32 => SimpleSchema::F32,
        Ask::F64 => SimpleSchema::F64,
        Ask::Char => SimpleSchema::Char,
        Ask::Str | Ask::String | Ask::Identifier => SimpleSchema::String,
        Ask::Bytes | Ask::ByteBuf => SimpleSchema::Bytes,
    }
}

fn fits_ask(a: Ask, c: &Content) -> (r: bool)
    ensures
        r == fits(a, c@),
{
    match kind_of(c) {
        Some(k) => widens_to(k, ask_kind_of(a)),
        None => false,
    }
}

fn invalid(c: &Content, expected: &str) -> (e: DecodeError)
    ensures
        e@ == mismatch_view(c@, expected@),
{
    DecodeError::InvalidType { found: content_kind(c), expected: String::from_str(expected) }
}

fn tag_value(c: &Content) -> (r: Option<u64>)
    ensures
        match tag_of(c@) {
            Some(t) => r == Some(t as u64),
            None => r is None,
        },
{
    match c {
        Content::U8(n) => Some(*n as u64),
        Content::U16(n) => Some(*n as u64),
        Content::U32(n) => Some(*n as u64),
        Content::U64(n) => Some(*n),
        _ => None,
    }
}

fn find_entry(es: &Vec<(Content, Content)>, key: &String) -> (r: Option<usize>)
    ensures
        match entry_index(entry_views(es@), key@, 0) {
            Some(i) => r == Some(i as usize) && 0 <= i < es@.len(),
            None => r is None,
        },
{
    let ghost ev = entry_views(es@);
    let mut i: usize = 0;
    while i < es.len()
        invariant
            i <= es.len(),
            ev == entry_views(es@),
            entry_index(ev, key@, 0) == entry_index(ev, key@, i as int),
        decreases es.len() - i,
    {
        let hit = match &es[i].0 {
            Content::String(k) => *k == *key,
            _ => false,
        };
        assert(hit == (ev[i as int].0 == ContentView::String(key@)));
        if hit {
            return Some(i);
        }
        i = i + 1;
    }
    None
}

fn singleton(name: &String, payload: Content) -> (r: Content)
    ensures
        r@ == tagged(name@, payload@),
{
    let mut es: Vec<(Content, Content)> = Vec::new();
    es.push((Content::String(name.clone()), payload));
    proof {
        lemma_mapping_view(es);
        assert(entry_views(es@) =~= Seq::empty().push((ContentView::String(name@), payload@)));
    }
    Content::Mapping(es)
}

fn decode_item<'a>(
    items: &'a SchemaDecodeItems,
    opts: DeserializerOptions,
    item: &'a SchemaItem,
    input: &Content,
) -> (r: Result<Content, DecodeError>)
    requires
        item_names(items@).no_duplicates(),
    ensures
        result_view(r) == decode_at(items@, opts, *item, input@),
    decreases input, 2nat,
{
    match resolve(items, item) {
        Err(e) => Err(e),
        Ok(d) => decode(items, opts, d.schema(), Request::Any, input),
    }
}

fn decode_all<'a>(
    items: &'a SchemaDecodeItems,
    opts: DeserializerOptions,
    item: &'a SchemaItem,
    vs: &Vec<Content>,
) -> (r: Result<Vec<Content>, DecodeError>)
    requires
        item_names(items@).no_duplicates(),
    ensures
        values_result(r) == decode_elements(items@, opts, *item, views(vs@)),
    decreases vs, 4nat,
{
    let ghost rs = element_results(items@, opts, *item, views(vs@));
    let mut out: Vec<Content> = Vec::new();
    let mut i: usize = 0;
    proof {
        lemma_collect_none(rs);
        assert(views(out@) =~= Seq::<ContentView>::empty());
    }
    while i < vs.len()
        invariant
            i <= vs.len(),
            item_names(items@).no_duplicates(),
            rs == element_results(items@, opts, *item, views(vs@)),
            collect(rs.take(i as int)) == Ok::<Seq<ContentView>, Fault>(views(out@)),
        decreases vs.len() - i,
    {
        let r = decode_item(items, opts, item, &vs[i]);
        proof {
            lemma_collect_step(rs, i as int);
        }
        match r {
            Err(e) => {
                proof {
                    lemma_collect_error(rs, i + 1);
                }
                return Err(e);
            },
            Ok(x) => {
                let ghost before = views(out@);
                out.push(x);
                assert(views(out@) =~= before.push(x@));
            },
        }
        i = i + 1;
    }
    proof {
        lemma_collect_all(rs);
    }
    Ok(out)
}

fn decode_all_entries<'a>(
    items: &'a SchemaDecodeItems,
    opts: DeserializerOptions,
    key: &'a SchemaItem,
    value: &'a SchemaItem,
    es: &Vec<(Content, Content)>,
) -> (r: Result<Vec<(Content, Content)>, DecodeError>)
    requires
        item_names(items@).no_duplicates(),
    ensures
        entries_result(r) == decode_entries(items@, opts, *key, *value, entry_views(es@)),
    decreases es, 4nat,
{
    let ghost rs = entry_results(items@, opts, *key, *value, entry_views(es@));
    let mut out: Vec<(Content, Content)> = Vec::new();
    let mut i: usize = 0;
    proof {
        lemma_collect_none(rs);
        assert(entry_views(out@) =~= Seq::<(ContentView, ContentView)>::empty());
    }
    while i < es.len()
        invariant
            i <= es.len(),
            item_names(items@).no_duplicates(),
            rs == entry_results(items@, opts, *key, *value, entry_views(es@)),
            collect(rs.take(i as int)) == Ok::<Seq<(ContentView, ContentView)>, Fault>(
                entry_views(out@),
            ),
        decreases es.len() - i,
    {
        proof {
            lemma_collect_step(rs, i as int);
        }
        let k = match decode_item(items, opts, key, &es[i].0) {
            Err(e) => {
                proof {
                    lemma_collect_error(rs, i + 1);
                }
                return Err(e);
            },
            Ok(k) => k,
        };
        let v = match decode_item(items, opts, value, &es[i].1) {
            Err(e) => {
                proof {
                    lemma_collect_error(rs, i + 1);
                }
                return Err(e);
            },
            Ok(v) => v,
        };
        let ghost before = entry_views(out@);
        out.push((k, v));
        assert(entry_views(out@) =~= before.push((k@, v@)));
        i = i + 1;
    }
    proof {
        lemma_collect_all(rs);
    }
    Ok(out)
}

fn decode_all_positions<'a>(
    items: &'a SchemaDecodeItems,
    opts: DeserializerOptions,
    values: &'a Vec<SchemaItem>,
    vs: &Vec<Content>,
) -> (r: Result<Vec<Content>, DecodeError>)
    requires
        item_names(items@).no_duplicates(),
    ensures
        values_result(r) == decode_positions(items@, opts, values@, views(vs@)),
    decreases vs, 4nat,
{
    if vs.len() < values.len() {
        return Err(DecodeError::MissingValue);
    }
    if vs.len() > values.len() {
        return Err(DecodeError::TrailingInput);
    }
    let ghost rs = position_results(items@, opts, values@, views(vs@));
    let mut out: Vec<Content> = Vec::new();
    let mut i: usize = 0;
    proof {
        lemma_collect_none(rs);
        assert(views(out@) =~= Seq::<ContentView>::empty());
    }
    while i < vs.len()
        invariant
            i <= vs.len(),
            vs.len() == values.len(),
            item_names(items@).no_duplicates(),
            rs == position_results(items@, opts, values@, views(vs@)),
            collect(rs.take(i as int)) == Ok::<Seq<ContentView>, Fault>(views(out@)),
        decreases vs.len() - i,
    {
        let r = decode_item(items, opts, &values[i], &vs[i]);
        proof {
            lemma_collect_step(rs, i as int);
        }
        match r {
            Err(e) => {
                proof {
                    lemma_collect_error(rs, i + 1);
                }
                return Err(e);
            },
            Ok(x) => {
                let ghost before = views(out@);
                out.push(x);
                assert(views(out@) =~= before.push(x@));
            },
        }
        i = i + 1;
    }
    proof {
        lemma_collect_all(rs);
    }
    Ok(out)
}

fn decode_all_fields<'a>(
    items: &'a SchemaDecodeItems,
    opts: DeserializerOptions,
    fields: &'a Vec<NamedFieldSchema>,
    vs: &Vec<Content>,
) -> (r: Result<Vec<(Content, Content)>, DecodeError>)
    requires
        item_names(items@).no_duplicates(),
    ensures
        entries_result(r) == decode_fields_positional(items@, opts, fields@, views(vs@)),
    decreases vs, 4nat,
{
    if vs.len() < fields.len() {
        return Err(DecodeError::MissingValue);
    }
    if vs.len() > fields.len() {
        return Err(DecodeError::TrailingInput);
    }
    let ghost rs = field_results(items@, opts, fields@, views(vs@));
    let mut out: Vec<(Content, Content)> = Vec::new();
    let mut i: usize = 0;
    proof {
        lemma_collect_none(rs);
        assert(entry_views(out@) =~= Seq::<(ContentView, ContentView)>::empty());
    }
    while i < vs.len()
        invariant
            i <= vs.len(),
            vs.len() == fields.len(),
            item_names(items@).no_duplicates(),
            rs == field_results(items@, opts, fields@, views(vs@)),
            collect(rs.take(i as int)) == Ok::<Seq<(ContentView, ContentView)>, Fault>(
                entry_views(out@),
            ),
        decreases vs.len() - i,
    {
        let field = &fields[i];
        let r = decode_item(items, opts, &field.value, &vs[i]);
        proof {
            lemma_collect_step(rs, i as int);
        }
        match r {
            Err(e) => {
                proof {
                    lemma_collect_error(rs, i + 1);
                }
                return Err(e);
            },
            Ok(x) => {
                let ghost before = entry_views(out@);
                let k = Content::String(field.name.clone());
                out.push((k, x));
                assert(entry_views(out@) =~= before.push((ContentView::String(field.name@), x@)));
            },
        }
        i = i + 1;
    }
    proof {
        lemma_collect_all(rs);
    }
    Ok(out)
}

fn decode_entry<'a>(
    items: &'a SchemaDecodeItems,
    opts: DeserializerOptions,
    fields: &'a Vec<NamedFieldSchema>,
    entry: &(Content, Content),
) -> (r: Result<(Content, Content), DecodeError>)
    requires
        item_names(items@).no_duplicates(),
    ensures
        entry_result(r) == decode_named_entry(items@, opts, fields@, (entry.0@, entry.1@)),
    decreases entry, 2nat,
{
    match &entry.0 {
        Content::String(k) => match field_named(fields, k.as_str()) {
            None => Err(DecodeError::UnknownField(k.clone())),
            Some(f) => match decode_item(items, opts, &f.value, &entry.1) {
                Err(e) => Err(e),
                Ok(v) => Ok((Content::String(k.clone()), v)),
            },
        },
        _ => Err(invalid(&entry.0, "string")),
    }
}

/// The index that `skip` stands for, or -1 for none.
pub open spec fn skip_index(skip: Option<usize>) -> int {
    match skip {
        Some(i) => i as int,
        None => -1,
    }
}

fn decode_all_named<'a>(
    items: &'a SchemaDecodeItems,
    opts: DeserializerOptions,
    fields: &'a Vec<NamedFieldSchema>,
    es: &Vec<(Content, Content)>,
    skip: Option<usize>,
) -> (r: Result<Vec<(Content, Content)>, DecodeError>)
    requires
        item_names(items@).no_duplicates(),
    ensures
        entries_result(r) == decode_fields_named(
            items@,
            opts,
            fields@,
            entry_views(es@),
            skip_index(skip),
        ),
    decreases es, 4nat,
{
    let ghost rs = named_results(items@, opts, fields@, entry_views(es@), skip_index(skip));
    let mut out: Vec<(Content, Content)> = Vec::new();
    let mut i: usize = 0;
    proof {
        lemma_collect_none(rs);
        assert(entry_views(out@) =~= Seq::<(ContentView, ContentView)>::empty());
    }
    while i < es.len()
        invariant
            i <= es.len(),
            item_names(items@).no_duplicates(),
            rs == named_results(items@, opts, fields@, entry_views(es@), skip_index(skip)),
            collect(rs.take(i as int)) == Ok::<Seq<(ContentView, ContentView)>, Fault>(
                entry_views(out@),
            ),
        decreases es.len() - i,
    {
        let r = if skip == Some(i) {
            Ok((copy(&es[i].0), copy(&es[i].1)))
        } else {
            decode_entry(items, opts, fields, &es[i])
        };
        proof {
            lemma_collect_step(rs, i as int);
        }
        match r {
            Err(e) => {
                proof {
                    lemma_collect_error(rs, i + 1);
                }
                return Err(e);
            },
            Ok(x) => {
                let ghost before = entry_views(out@);
                let ghost xv = (x.0@, x.1@);
                out.push(x);
                assert(entry_views(out@) =~= before.push(xv));
            },
        }
        i = i + 1;
    }
    proof {
        lemma_collect_all(rs);
    }
    let mut f: usize = 0;
    while f < fields.len()
        invariant
            f <= fields.len(),
            rs == named_results(items@, opts, fields@, entry_views(es@), skip_index(skip)),
            collect(rs) == Ok::<Seq<(ContentView, ContentView)>, Fault>(entry_views(out@)),
            missing_field(fields@, entry_views(es@), 0) == missing_field(
                fields@,
                entry_views(es@),
                f as int,
            ),
        decreases fields.len() - f,
    {
        if find_entry(es, &fields[f].name).is_none() {
            return Err(DecodeError::MissingField(fields[f].name.clone()));
        }
        f = f + 1;
    }
    Ok(out)
}

fn decode_payload_in_sequence<'a>(
    items: &'a SchemaDecodeItems,
    opts: DeserializerOptions,
    p: Payload<'a>,
    v: &Content,
) -> (r: Result<Content, DecodeError>)
    requires
        item_names(items@).no_duplicates(),
    ensures
        result_view(r) == decode_payload_positional(items@, opts, p, v@),
    decreases v, 5nat,
{
    match p {
        Payload::Unit => match v {
            Content::Unit => Ok(Content::Unit),
            _ => Err(invalid(v, "unit")),
        },
        Payload::Newtype(item) => decode_item(items, opts, item, v),
        Payload::Tuple(values) => match v {
            Content::Sequence(ws) => {
                proof {
                    lemma_sequence_view(*ws);
                }
                match decode_all_positions(items, opts, values, ws) {
                    Err(e) => Err(e),
                    Ok(out) => {
                        proof {
                            lemma_sequence_view(out);
                        }
                        Ok(Content::Sequence(out))
                    },
                }
            },
            _ => Err(
                DecodeError::InvalidType {
                    found: content_kind(v),
                    expected: decimal(values.len()).concat("-element tuple"),
                },
            ),
        },
        Payload::Struct(fields) => match v {
            Content::Sequence(ws) => {
                proof {
                    lemma_sequence_view(*ws);
                }
                match decode_all_fields(items, opts, fields, ws) {
                    Err(e) => Err(e),
                    Ok(out) => {
                        proof {
                            lemma_mapping_view(out);
                        }
                        Ok(Content::Mapping(out))
                    },
                }
            },
            _ => Err(invalid(v, "sequence")),
        },
    }
}

fn decode_payload_in_map<'a>(
    items: &'a SchemaDecodeItems,
    opts: DeserializerOptions,
    p: Payload<'a>,
    v: &Content,
) -> (r: Result<Content, DecodeError>)
    requires
        item_names(items@).no_duplicates(),
    ensures
        result_view(r) == decode_payload_named(items@, opts, p, v@),
    decreases v, 6nat,
{
    match p {
        Payload::Struct(fields) => match v {
            Content::Mapping(es) => {
                proof {
                    lemma_mapping_view(*es);
                }
                match decode_all_named(items, opts, fields, es, None) {
                    Err(e) => Err(e),
                    Ok(out) => {
                        proof {
                            lemma_mapping_view(out);
                        }
                        Ok(Content::Mapping(out))
                    },
                }
            },
            _ => Err(invalid(v, "map")),
        },
        _ => decode_payload_in_sequence(items, opts, p, v),
    }
}

/// Decodes `input` at schema `s` for the target's request `req`: decides
/// the request against the schema, then carries out the step on the input,
/// resolving named positions in `items`.
pub fn decode<'a>(
    items: &'a SchemaDecodeItems,
    opts: DeserializerOptions,
    s: &'a Schema,
    req: Request,
    input: &Content,
) -> (r: Result<Content, DecodeError>)
    requires
        item_names(items@).no_duplicates(),
    ensures
        result_view(r) == decode_view(items@, opts, *s, req, input@),
    decreases input, request_rank(req),
{
    let step = match plan_step(s, opts, req) {
        Ok(step) => step,
        Err(e) => {
            return Err(e);
        },
    };
    match step {
        Step::Ask(a) => if fits_ask(a, input) {
            Ok(copy(input))
        } else {
            Err(DecodeError::InvalidType { found: content_kind(input), expected: ask_string(a) })
        },
        Step::Present => match decode(items, opts, s, Request::Any, input) {
            Err(e) => Err(e),
            Ok(v) => Ok(Content::Option(Some(Box::new(v)))),
        },
        Step::Newtype => decode(items, opts, s, Request::Any, input),
        Step::Option(item) => match input {
            Content::Option(None) => Ok(Content::Option(None)),
            Content::Option(Some(b)) => match decode_item(items, opts, item, &**b) {
                Err(e) => Err(e),
                Ok(v) => Ok(Content::Option(Some(Box::new(v)))),
            },
            _ => Err(invalid(input, "option")),
        },
        Step::Sequence(item) => match input {
            Content::Sequence(vs) => {
                proof {
                    lemma_sequence_view(*vs);
                }
                match decode_all(items, opts, item, vs) {
                    Err(e) => Err(e),
                    Ok(out) => {
                        proof {
                            lemma_sequence_view(out);
                        }
                        Ok(Content::Sequence(out))
                    },
                }
            },
            _ => Err(invalid(input, "sequence")),
        },
        Step::Mapping(k, v) => match input {
            Content::Mapping(es) => {
                proof {
                    lemma_mapping_view(*es);
                }
                match decode_all_entries(items, opts, k, v, es) {
                    Err(e) => Err(e),
                    Ok(out) => {
                        proof {
                            lemma_mapping_view(out);
                        }
                        Ok(Content::Mapping(out))
                    },
                }
            },
            _ => Err(invalid(input, "map")),
        },
        Step::Tuple(values) | Step::TupleStruct(values) => match input {
            Content::Sequence(vs) => {
                proof {
                    lemma_sequence_view(*vs);
                }
                match decode_all_positions(items, opts, values, vs) {
                    Err(e) => Err(e),
                    Ok(out) => {
                        proof {
                            lemma_sequence_view(out);
                        }
                        Ok(Content::Sequence(out))
                    },
                }
            },
            _ => Err(
                DecodeError::InvalidType {
                    found: content_kind(input),
                    expected: decimal(values.len()).concat("-element tuple"),
                },
            ),
        },
        Step::StructTuple(fields) => match input {
            Content::Sequence(vs) => {
                proof {
                    lemma_sequence_view(*vs);
                }
                match decode_all_fields(items, opts, fields, vs) {
                    Err(e) => Err(e),
                    Ok(out) => {
                        proof {
                            lemma_mapping_view(out);
                        }
                        Ok(Content::Mapping(out))
                    },
                }
            },
            _ => Err(invalid(input, "sequence")),
        },
        Step::StructMapping(fields) => match input {
            Content::Mapping(es) => {
                proof {
                    lemma_mapping_view(*es);
                }
                match decode_all_named(items, opts, fields, es, None) {
                    Err(e) => Err(e),
                    Ok(out) => {
                        proof {
                            lemma_mapping_view(out);
                        }
                        Ok(Content::Mapping(out))
                    },
                }
            },
            _ => Err(invalid(input, "map")),
        },
        Step::EnumTuple(variants) => match input {
            Content::Sequence(vs) => {
                proof {
                    lemma_sequence_view(*vs);
                }
                if vs.len() == 0 {
                    return Err(DecodeError::MissingTag);
                }
                let t = match tag_value(&vs[0]) {
                    None => {
                        return Err(invalid(&vs[0], "u64"));
                    },
                    Some(t) => t,
                };
                let variant = match variant_at(variants, t) {
                    Err(e) => {
                        return Err(e);
                    },
                    Ok(v) => v,
                };
                if vs.len() < 2 {
                    return Err(DecodeError::MissingValue);
                }
                if vs.len() > 2 {
                    return Err(DecodeError::TrailingInput);
                }
                match decode_payload_in_sequence(items, opts, payload(variant), &vs[1]) {
                    Err(e) => Err(e),
                    Ok(p) => Ok(singleton(&variant.name, p)),
                }
            },
            _ => Err(invalid(input, "sequence")),
        },
        Step::EnumExternal(variants) => match input {
            Content::Mapping(es) => {
                proof {
                    lemma_mapping_view(*es);
                }
                if es.len() == 0 {
                    return Err(DecodeError::MissingTag);
                }
                let variant = match &es[0].0 {
                    Content::String(k) => match variant_named(variants, k.as_str()) {
                        Err(e) => {
                            return Err(e);
                        },
                        Ok(v) => v,
                    },
                    _ => {
                        return Err(invalid(&es[0].0, "string"));
                    },
                };
                if es.len() > 1 {
                    return Err(DecodeError::TrailingInput);
                }
                match decode_payload_in_map(items, opts, payload(variant), &es[0].1) {
                    Err(e) => Err(e),
                    Ok(p) => Ok(singleton(&variant.name, p)),
                }
            },
            _ => Err(invalid(input, "map")),
        },
        Step::EnumInternal(tag, variants) => match input {
            Content::Mapping(es) => {
                proof {
                    lemma_mapping_view(*es);
                }
                let ti = match find_entry(es, tag) {
                    None => {
                        return Err(DecodeError::MissingTag);
                    },
                    Some(ti) => ti,
                };
                let variant = match &es[ti].1 {
                    Content::String(name) => match variant_named(variants, name.as_str()) {
                        Err(e) => {
                            return Err(e);
                        },
                        Ok(v) => v,
                    },
                    _ => {
                        return Err(invalid(&es[ti].1, "string"));
                    },
                };
                match payload(variant) {
                    Payload::Unit => if es.len() == 1 {
                        Ok(singleton(&variant.name, Content::Unit))
                    } else {
                        Err(DecodeError::TrailingInput)
                    },
                    Payload::Struct(fields) => match decode_all_named(
                        items,
                        opts,
                        fields,
                        es,
                        Some(ti),
                    ) {
                        Err(e) => Err(e),
                        Ok(out) => {
                            proof {
                                lemma_mapping_view(out);
                            }
                            Ok(singleton(&variant.name, Content::Mapping(out)))
                        },
                    },
                    _ => Err(invalid(input, "unit or struct variant")),
                }
            },
            _ => Err(invalid(input, "map")),
        },
        Step::EnumAdjacent(tag, content, variants) => match input {
            Content::Mapping(es) => {
                proof {
                    lemma_mapping_view(*es);
                }
                let ti = match find_entry(es, tag) {
                    None => {
                        return Err(DecodeError::MissingTag);
                    },
                    Some(ti) => ti,
                };
                let variant = match &es[ti].1 {
                    Content::String(name) => match variant_named(variants, name.as_str()) {
                        Err(e) => {
                            return Err(e);
                        },
                        Ok(v) => v,
                    },
                    _ => {
                        return Err(invalid(&es[ti].1, "string"));
                    },
                };
                let p = payload(variant);
                match find_entry(es, content) {
                    None => if matches!(p, Payload::Unit) && es.len() == 1 {
                        Ok(singleton(&variant.name, Content::Unit))
                    } else {
                        Err(DecodeError::MissingValue)
                    },
                    Some(ci) => if es.len() > 2 {
                        Err(DecodeError::TrailingInput)
                    } else {
                        match decode_payload_in_map(items, opts, p, &es[ci].1) {
                            Err(e) => Err(e),
                            Ok(v) => Ok(singleton(&variant.name, v)),
                        }
                    },
                }
            },
            _ => Err(invalid(input, "map")),
        },
    }
}

impl<'a> SchemaDecoder<'a> {
    /// Decodes `input` at the root of this decoder for the target's request
    /// `req`; fails with `UnknownName` when the root is a name that the
    /// table lacks.
    pub fn decode(&self, opts: DeserializerOptions, req: Request, input: &Content) -> (r: Result<
        Content,
        DecodeError,
    >)
        requires
            self.wf(),
        ensures
            match self.schema {
                SchemaDecodeItem::Decode(d) => result_view(r) == decode_view(
                    self.items@,
                    opts,
                    decode_schema(*d),
                    req,
                    input@,
                ),
                SchemaDecodeItem::Named(n) => match registered(self.items@, n@) {
                    Some(s) => result_view(r) == decode_view(self.items@, opts, s, req, input@),
                    None => r matches Err(DecodeError::UnknownName),
                },
            },
    {
        match self.schema.lookup(self.items) {
            None => Err(DecodeError::UnknownName),
            Some(d) => decode(self.items, opts, d.schema(), req, input),
        }
    }
}

/// The request that names a primitive kind.
pub open spec fn request_of(k: SimpleSchema) -> Request<'static> {
    match k {
        SimpleSchema::Unit => Request::Unit,
        SimpleSchema::Bool => Request::Bool,
        SimpleSchema::U8 => Request::U8,
        SimpleSchema::U16 => Request::U16,
        SimpleSchema::U32 => Request::U32,
        SimpleSchema::U64 => Request::U64,
        SimpleSchema::U128 => Request::U128,
        SimpleSchema::I8 => Request::I8,
        SimpleSchema::I16 => Request::I16,
        SimpleSchema::I32 => Request::I32,
        SimpleSchema::I64 => Request::I64,
        SimpleSchema::I128 => Request::I128,
        SimpleSchema::F32 => Request::F32,
        SimpleSchema::F64 => Request::F64,
        SimpleSchema::Char => Request::Char,
        SimpleSchema::String => Request::String,
        SimpleSchema::Bytes => Request::ByteBuf,
    }
}

/// For every primitive kind, a request for that kind at a schema of that
/// kind is accepted, and the underlying decoder is asked for that kind.
pub proof fn lemma_simple_request_accepted(opts: DeserializerOptions, k: SimpleSchema)
    ensures
        accepts(&Schema::Simple(k), opts, request_of(k)) matches Some(Step::Ask(a)) && ask_kind(a)
            == k,
{
}

/// A value encoded as exactly the primitive kind of its schema decodes to
/// itself, whether the target asks for that kind or for whatever the schema
/// says.
pub proof fn lemma_simple_round_trip(
    items: Seq<(SchemaName, Schema)>,
    opts: DeserializerOptions,
    k: SimpleSchema,
    v: ContentView,
)
    requires
        encoded_kind(v) == Some(k),
    ensures
        decode_view(items, opts, Schema::Simple(k), request_of(k), v) == Ok::<ContentView, Fault>(v),
        decode_view(items, opts, Schema::Simple(k), Request::Any, v) == Ok::<ContentView, Fault>(v),
{
}

/// Widening: an 8-bit signed value decodes against a signed schema of any
/// width, for a request of that width or wider and for whatever the schema
/// says, to the same value; a request narrower than the schema fails with a
/// type mismatch that names both.
pub proof fn lemma_signed_widening(
    items: Seq<(SchemaName, Schema)>,
    opts: DeserializerOptions,
    n: i8,
    declared: SimpleSchema,
    requested: SimpleSchema,
)
    requires
        signed_rank(declared) is Some,
        signed_rank(requested) is Some,
    ensures
        decode_view(items, opts, Schema::Simple(declared), Request::Any, ContentView::I8(n))
            == Ok::<ContentView, Fault>(ContentView::I8(n)),
        signed_rank(declared)->0 <= signed_rank(requested)->0 ==> decode_view(
            items,
            opts,
            Schema::Simple(declared),
            request_of(requested),
            ContentView::I8(n),
        ) == Ok::<ContentView, Fault>(ContentView::I8(n)),
        signed_rank(declared)->0 > signed_rank(requested)->0 ==> decode_view(
            items,
            opts,
            Schema::Simple(declared),
            request_of(requested),
            ContentView::I8(n),
        ) == Err::<ContentView, Fault>(
            Fault::InvalidType { found: simple_text(declared), expected: simple_text(requested) },
        ),
{
}

/// No signed request is satisfied by an unsigned schema, whatever the
/// widths: the decode fails with a type mismatch that names both.
pub proof fn lemma_no_cross_signedness(
    items: Seq<(SchemaName, Schema)>,
    opts: DeserializerOptions,
    n: i8,
    declared: SimpleSchema,
    requested: SimpleSchema,
)
    requires
        unsigned_rank(declared) is Some,
        signed_rank(requested) is Some,
    ensures
        decode_view(
            items,
            opts,
            Schema::Simple(declared),
            request_of(requested),
            ContentView::I8(n),
        ) == Err::<ContentView, Fault>(
            Fault::InvalidType { found: simple_text(declared), expected: simple_text(requested) },
        ),
{
}

/// Decoding depends on the table, the options, the schema, the request and
/// the input alone: two decodes of the same input against the same shared
/// table give the same value or the same error.
pub proof fn lemma_decode_deterministic(
    items: Seq<(SchemaName, Schema)>,
    opts: DeserializerOptions,
    s: Schema,
    req: Request,
    input: Content,
    first: Result<Content, DecodeError>,
    second: Result<Content, DecodeError>,
)
    requires
        result_view(first) == decode_view(items, opts, s, req, input@),
        result_view(second) == decode_view(items, opts, s, req, input@),
    ensures
        result_view(first) == result_view(second),
{
}

} // verus!
