use vstd::prelude::*;

use crate::name::SchemaName;

verus! {

/// Declares `serde_value::Value`, the dynamic value of the serde-value crate,
/// so that a field's declared default can be carried in a schema. Nothing
/// here reads it; it is opaque.
#[verifier::external_type_specification]
#[verifier::external_body]
pub struct ExValue(serde_value::Value);

/// The primitive kinds.
#[derive(Clone, Copy, Debug, PartialEq, Eq, Structural)]
pub enum SimpleSchema {
    Unit,
    Bool,
    U8,
    U16,
    U32,
    U64,
    U128,
    I8,
    I16,
    I32,
    I64,
    I128,
    F32,
    F64,
    Char,
    String,
    Bytes,
}

/// The text that names a primitive kind.
pub open spec fn simple_text(k: SimpleSchema) -> Seq<char> {
    match k {
        SimpleSchema::Unit => "unit"@,
        SimpleSchema::Bool => "bool"@,
        SimpleSchema::U8 => "u8"@,
        SimpleSchema::U16 => "u16"@,
        SimpleSchema::U32 => "u32"@,
        SimpleSchema::U64 => "u64"@,
        SimpleSchema::U128 => "u128"@,
        SimpleSchema::I8 => "i8"@,
        SimpleSchema::I16 => "i16"@,
        SimpleSchema::I32 => "i32"@,
        SimpleSchema::I64 => "i64"@,
        SimpleSchema::I128 => "i128"@,
        SimpleSchema::F32 => "f32"@,
        SimpleSchema::F64 => "f64"@,
        SimpleSchema::Char => "char"@,
        SimpleSchema::String => "string"@,
        SimpleSchema::Bytes => "bytes"@,
    }
}

impl SimpleSchema {
    /// The name of the kind, as it appears in messages.
    pub fn as_str(&self) -> (r: &'static str)
        ensures
            r@ == simple_text(*self),
    {
        match self {
            SimpleSchema::Unit => "unit",
            SimpleSchema::Bool => "bool",
            SimpleSchema::U8 => "u8",
            SimpleSchema::U16 => "u16",
            SimpleSchema::U32 => "u32",
            SimpleSchema::U64 => "u64",
            SimpleSchema::U128 => "u128",
            SimpleSchema::I8 => "i8",
            SimpleSchema::I16 => "i16",
            SimpleSchema::I32 => "i32",
            SimpleSchema::I64 => "i64",
            SimpleSchema::I128 => "i128",
            SimpleSchema::F32 => "f32",
            SimpleSchema::F64 => "f64",
            SimpleSchema::Char => "char",
            SimpleSchema::String => "string",
            SimpleSchema::Bytes => "bytes",
        }
    }

    /// The name of the kind as an owned string.
    pub fn to_string(&self) -> (r: String)
        ensures
            r@ == simple_text(*self),
    {
        String::from_str(self.as_str())
    }
}

/// A sub-schema: written out inline, or a reference by name into a
/// `Description`, which lets recursive and shared types be described.
#[derive(Debug)]
pub enum SchemaItem {
    Schema(Box<Schema>),
    Named(SchemaName),
}

impl SchemaItem {
    /// An inline sub-schema.
    pub fn inline(schema: Schema) -> (r: SchemaItem)
        ensures
            r == SchemaItem::Schema(Box::new(schema)),
    {
        SchemaItem::Schema(Box::new(schema))
    }

    /// A reference to a registered name.
    pub fn named(name: SchemaName) -> (r: SchemaItem)
        ensures
            r == SchemaItem::Named(name),
    {
        SchemaItem::Named(name)
    }

    /// An inline primitive.
    pub fn simple(kind: SimpleSchema) -> (r: SchemaItem)
        ensures
            r == SchemaItem::Schema(Box::new(Schema::Simple(kind))),
    {
        SchemaItem::Schema(Box::new(Schema::Simple(kind)))
    }
}

/// The shape of a value.
#[derive(Debug)]
pub enum Schema {
    Simple(SimpleSchema),
    Option(OptionSchema),
    Tuple(TupleSchema),
    Sequence(SeqSchema),
    Mapping(MapSchema),
    Struct(StructSchema),
    Enum(EnumSchema),
}

/// A value that may be absent.
#[derive(Debug)]
pub struct OptionSchema {
    pub value: SchemaItem,
}

impl OptionSchema {
    pub fn new(value: SchemaItem) -> (r: OptionSchema)
        ensures
            r.value == value,
    {
        OptionSchema { value }
    }
}

/// A sequence of any length whose elements share one schema.
#[derive(Debug)]
pub struct SeqSchema {
    pub value: SchemaItem,
}

impl SeqSchema {
    pub fn new(value: SchemaItem) -> (r: SeqSchema)
        ensures
            r.value == value,
    {
        SeqSchema { value }
    }
}

/// A map with one schema for keys and one for values.
#[derive(Debug)]
pub struct MapSchema {
    pub key: SchemaItem,
    pub value: SchemaItem,
}

impl MapSchema {
    pub fn new(key: SchemaItem, value: SchemaItem) -> (r: MapSchema)
        ensures
            r.key == key,
            r.value == value,
    {
        MapSchema { key, value }
    }
}

/// A fixed number of positions, each with its own schema.
#[derive(Debug)]
pub struct TupleSchema {
    pub values: Vec<SchemaItem>,
}

impl TupleSchema {
    /// The tuple with no positions.
    pub fn new() -> (r: TupleSchema)
        ensures
            r.values@.len() == 0,
    {
        TupleSchema { values: Vec::new() }
    }

    /// The same tuple with one more position at the end.
    pub fn element(self, value: SchemaItem) -> (r: TupleSchema)
        ensures
            r.values@ == self.values@.push(value),
    {
        let mut r = self;
        r.values.push(value);
        r
    }
}

/// A struct: a name, its fields, and how its names are spelt.
#[derive(Debug)]
pub struct StructSchema {
    pub name: String,
    pub fields: FieldsSchema,
    pub rename: Option<String>,
    pub rename_all: Option<RenameAll>,
}

impl StructSchema {
    pub fn new(name: String, fields: FieldsSchema) -> (r: StructSchema)
        ensures
            r.name == name,
            r.fields == fields,
            r.rename is None,
            r.rename_all is None,
    {
        StructSchema { name, fields, rename: None, rename_all: None }
    }
}

/// The fields of a struct or of an enum variant: positional or named.
#[derive(Debug)]
pub enum FieldsSchema {
    Tuple(TupleSchema),
    Named(NamedFieldsSchema),
}

/// Named fields, in declaration order.
#[derive(Debug)]
pub struct NamedFieldsSchema {
    pub fields: Vec<NamedFieldSchema>,
}

impl NamedFieldsSchema {
    /// No fields.
    pub fn new() -> (r: NamedFieldsSchema)
        ensures
            r.fields@.len() == 0,
    {
        NamedFieldsSchema { fields: Vec::new() }
    }

    /// The same fields with one more at the end.
    pub fn field(self, field: NamedFieldSchema) -> (r: NamedFieldsSchema)
        ensures
            r.fields@ == self.fields@.push(field),
    {
        let mut r = self;
        r.fields.push(field);
        r
    }
}

/// One named field. `default` is carried along but not used in decoding.
#[derive(Debug)]
pub struct NamedFieldSchema {
    pub name: String,
    pub value: SchemaItem,
    pub rename: Option<String>,
    pub aliases: Vec<String>,
    pub default: Option<serde_value::Value>,
    pub flatten: bool,
}

impl NamedFieldSchema {
    pub fn new(name: String, value: SchemaItem) -> (r: NamedFieldSchema)
        ensures
            r.name == name,
            r.value == value,
            r.rename is None,
            r.aliases@.len() == 0,
            r.default is None,
            !r.flatten,
    {
        NamedFieldSchema {
            name,
            value,
            rename: None,
            aliases: Vec::new(),
            default: None,
            flatten: false,
        }
    }
}

/// An enum: a name, its variants in declaration order, and how the chosen
/// variant is tagged.
#[derive(Debug)]
pub struct EnumSchema {
    pub name: String,
    pub variants: Vec<VariantSchema>,
    pub repr: EnumRepr,
    pub rename: Option<String>,
    pub rename_all: Option<RenameAll>,
}

impl EnumSchema {
    /// An externally tagged enum without variants.
    pub fn new(name: String) -> (r: EnumSchema)
        ensures
            r.name == name,
            r.variants@.len() == 0,
            r.repr is ExternallyTagged,
            r.rename is None,
            r.rename_all is None,
    {
        EnumSchema {
            name,
            variants: Vec::new(),
            repr: EnumRepr::ExternallyTagged,
            rename: None,
            rename_all: None,
        }
    }

    /// The same enum with one more variant at the end.
    pub fn variant(self, variant: VariantSchema) -> (r: EnumSchema)
        ensures
            r.name == self.name,
            r.variants@ == self.variants@.push(variant),
            r.repr == self.repr,
            r.rename == self.rename,
            r.rename_all == self.rename_all,
    {
        let mut r = self;
        r.variants.push(variant);
        r
    }
}

/// One enum variant. Its shape follows from its fields: no positional
/// fields is a unit variant, one is a newtype variant, more are a tuple
/// variant, and named fields are a struct variant.
#[derive(Debug)]
pub struct VariantSchema {
    pub name: String,
    pub fields: FieldsSchema,
    pub id: Option<usize>,
    pub rename: Option<String>,
    pub aliases: Vec<String>,
    pub other: bool,
}

impl VariantSchema {
    pub fn new(name: String, fields: FieldsSchema) -> (r: VariantSchema)
        ensures
            r.name == name,
            r.fields == fields,
            r.id is None,
            r.rename is None,
            r.aliases@.len() == 0,
            !r.other,
    {
        VariantSchema { name, fields, id: None, rename: None, aliases: Vec::new(), other: false }
    }
}

/// How the variant of an enum is marked in a map-shaped encoding.
#[derive(Debug)]
pub enum EnumRepr {
    /// The variant name is the only key of a map whose value is the payload.
    ExternallyTagged,
    /// A field named `tag` holds the variant name beside the payload's fields.
    InternallyTagged { tag: String },
    /// A field named `tag` holds the variant name, one named `content` the payload.
    AdjacentlyTagged { tag: String, content: String },
}

/// A casing convention for names.
#[derive(Clone, Copy, Debug, PartialEq, Eq, Structural)]
pub enum RenameAll {
    Lower,
    Upper,
    Pascal,
    Camel,
    Snake,
    ScreamingSnake,
    Kebab,
    ScreamingKebab,
}

/// What a schema position is, as named in a type-mismatch message.
#[derive(Clone, Copy, Debug)]
pub enum Expected<'a> {
    Simple(SimpleSchema),
    Option,
    Tuple(usize),
    Sequence,
    Mapping,
    Struct(&'a str),
    Enum(&'a str),
}

/// The text of one decimal digit.
pub open spec fn digit_text(d: nat) -> Seq<char> {
    if d == 0 {
        "0"@
    } else if d == 1 {
        "1"@
    } else if d == 2 {
        "2"@
    } else if d == 3 {
        "3"@
    } else if d == 4 {
        "4"@
    } else if d == 5 {
        "5"@
    } else if d == 6 {
        "6"@
    } else if d == 7 {
        "7"@
    } else if d == 8 {
        "8"@
    } else {
        "9"@
    }
}

/// The decimal text of a number, without leading zeros.
pub open spec fn decimal_text(n: nat) -> Seq<char>
    decreases n,
{
    if n < 10 {
        digit_text(n)
    } else {
        decimal_text(n / 10) + digit_text(n % 10)
    }
}

fn digit(d: usize) -> (r: &'static str)
    requires
        d < 10,
    ensures
        r@ == digit_text(d as nat),
{
    match d {
        0 => "0",
        1 => "1",
        2 => "2",
        3 => "3",
        4 => "4",
        5 => "5",
        6 => "6",
        7 => "7",
        8 => "8",
        _ => "9",
    }
}

/// The decimal text of `n`.
pub fn decimal(n: usize) -> (r: String)
    ensures
        r@ == decimal_text(n as nat),
    decreases n,
{
    if n < 10 {
        String::from_str(digit(n))
    } else {
        let high = decimal(n / 10);
        high.concat(digit(n % 10))
    }
}

/// The text of an `Expected`.
pub open spec fn expected_text(e: Expected) -> Seq<char> {
    match e {
        Expected::Simple(k) => simple_text(k),
        Expected::Option => "option"@,
        Expected::Tuple(n) => decimal_text(n as nat) + "-element tuple"@,
        Expected::Sequence => "sequence"@,
        Expected::Mapping => "map"@,
        Expected::Struct(name) => "struct "@ + name@,
        Expected::Enum(name) => "enum "@ + name@,
    }
}

/// The text that names the kind of a schema.
pub open spec fn schema_text(s: Schema) -> Seq<char> {
    match s {
        Schema::Simple(k) => simple_text(k),
        Schema::Option(_) => "option"@,
        Schema::Tuple(t) => decimal_text(t.values.len() as nat) + "-element tuple"@,
        Schema::Sequence(_) => "sequence"@,
        Schema::Mapping(_) => "map"@,
        Schema::Struct(st) => "struct "@ + st.name@,
        Schema::Enum(en) => "enum "@ + en.name@,
    }
}

impl<'a> Expected<'a> {
    /// The text of this kind, as in a type-mismatch message.
    pub fn to_string(&self) -> (r: String)
        ensures
            r@ == expected_text(*self),
    {
        match self {
            Expected::Simple(k) => k.to_string(),
            Expected::Option => String::from_str("option"),
            Expected::Tuple(n) => decimal(*n).concat("-element tuple"),
            Expected::Sequence => String::from_str("sequence"),
            Expected::Mapping => String::from_str("map"),
            Expected::Struct(name) => String::from_str("struct ").concat(name),
            Expected::Enum(name) => String::from_str("enum ").concat(name),
        }
    }
}

impl Schema {
    /// The kind of this schema, as named in messages.
    pub fn expected(&self) -> (r: Expected)
        ensures
            expected_text(r) == schema_text(*self),
            match *self {
                Schema::Simple(k) => r == Expected::Simple(k),
                Schema::Option(_) => r is Option,
                Schema::Tuple(t) => r == Expected::Tuple(t.values.len()),
                Schema::Sequence(_) => r is Sequence,
                Schema::Mapping(_) => r is Mapping,
                Schema::Struct(st) => r matches Expected::Struct(n) && n@ == st.name@,
                Schema::Enum(en) => r matches Expected::Enum(n) && n@ == en.name@,
            },
    {
        match self {
            Schema::Simple(k) => Expected::Simple(*k),
            Schema::Option(_) => Expected::Option,
            Schema::Tuple(t) => Expected::Tuple(t.values.len()),
            Schema::Sequence(_) => Expected::Sequence,
            Schema::Mapping(_) => Expected::Mapping,
            Schema::Struct(st) => Expected::Struct(st.name.as_str()),
            Schema::Enum(en) => Expected::Enum(en.name.as_str()),
        }
    }

    /// The text of this schema's kind, as in a type-mismatch message.
    pub fn kind_text(&self) -> (r: String)
        ensures
            r@ == schema_text(*self),
    {
        self.expected().to_string()
    }
}

/// Whether a value equals its type's default (an attribute left unset).
pub fn is_default<T: Default + PartialEq>(value: &T) -> (r: bool) {
    let d = T::default();
    value.eq(&d)
}

} // verus!
