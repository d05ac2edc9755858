use serde_descr::{
    Content, DecodeError, DeserializerOptions, Description, EnumRepr, EnumSchema, FieldsSchema,
    MapSchema, NamedFieldSchema, NamedFieldsSchema, OptionSchema, Request, Schema, SchemaDecoder,
    SchemaItem, SchemaName, SeqSchema, SimpleSchema, StructSchema, TupleSchema, VariantSchema,
};

fn text(s: &str) -> Content {
    Content::String(s.to_string())
}

fn person() -> Schema {
    Schema::Struct(StructSchema::new(
        "Person".to_string(),
        FieldsSchema::Named(
            NamedFieldsSchema::new()
                .field(NamedFieldSchema::new(
                    "name".to_string(),
                    SchemaItem::simple(SimpleSchema::String),
                ))
                .field(NamedFieldSchema::new(
                    "age".to_string(),
                    SchemaItem::simple(SimpleSchema::U64),
                )),
        ),
    ))
}

fn run(schema: Schema, opts: DeserializerOptions, req: Request, input: &Content) -> Result<Content, DecodeError> {
    let descr = Description::new(SchemaItem::inline(schema));
    let decoder = SchemaDecoder::new(&descr);
    decoder.decode(opts, req, input)
}

fn newtype_enum(repr: EnumRepr) -> Schema {
    let mut e = EnumSchema::new("E".to_string()).variant(VariantSchema::new(
        "A".to_string(),
        FieldsSchema::Tuple(TupleSchema::new().element(SchemaItem::simple(SimpleSchema::String))),
    ));
    e.repr = repr;
    Schema::Enum(e)
}

fn two_variants() -> Schema {
    Schema::Enum(
        EnumSchema::new("E".to_string())
            .variant(VariantSchema::new(
                "A".to_string(),
                FieldsSchema::Tuple(TupleSchema::new()),
            ))
            .variant(VariantSchema::new(
                "B".to_string(),
                FieldsSchema::Tuple(
                    TupleSchema::new().element(SchemaItem::simple(SimpleSchema::String)),
                ),
            )),
    )
}

#[test]
fn struct_map_fields_by_name_in_any_order() {
    let input = Content::Mapping(vec![
        (text("age"), Content::U64(30)),
        (text("name"), text("Ann")),
    ]);
    let out = run(person(), DeserializerOptions::text(), Request::Struct("Person"), &input);
    assert_eq!(
        out,
        Ok(Content::Mapping(vec![
            (text("age"), Content::U64(30)),
            (text("name"), text("Ann")),
        ]))
    );
}

#[test]
fn struct_map_unknown_field() {
    let input = Content::Mapping(vec![(text("name"), text("Ann")), (text("extra"), Content::U64(1))]);
    let out = run(person(), DeserializerOptions::text(), Request::Struct("Person"), &input);
    assert_eq!(out, Err(DecodeError::UnknownField("extra".to_string())));
    assert_eq!(out.unwrap_err().message(), "unknown field extra");
}

#[test]
fn struct_tuple_positional() {
    let input = Content::Sequence(vec![text("Ann"), Content::U64(30)]);
    let out = run(person(), DeserializerOptions::binary(), Request::Struct("Person"), &input);
    assert_eq!(
        out,
        Ok(Content::Mapping(vec![
            (text("name"), text("Ann")),
            (text("age"), Content::U64(30)),
        ]))
    );
}

#[test]
fn struct_tuple_wrong_order_fails_on_first_position() {
    let input = Content::Sequence(vec![Content::U64(30), text("Ann")]);
    let out = run(person(), DeserializerOptions::binary(), Request::Struct("Person"), &input);
    assert_eq!(
        out,
        Err(DecodeError::InvalidType { found: "u64".to_string(), expected: "string".to_string() })
    );
}

#[test]
fn struct_tuple_short_and_long_inputs() {
    let short = Content::Sequence(vec![text("Ann")]);
    let long = Content::Sequence(vec![text("Ann"), Content::U64(1), Content::U64(2)]);
    let opts = DeserializerOptions::binary();
    assert_eq!(run(person(), opts, Request::Struct("Person"), &short), Err(DecodeError::MissingValue));
    assert_eq!(run(person(), opts, Request::Struct("Person"), &long), Err(DecodeError::TrailingInput));
}

#[test]
fn struct_request_against_other_schema() {
    let out = run(
        Schema::Simple(SimpleSchema::Bool),
        DeserializerOptions::text(),
        Request::Struct("Person"),
        &Content::Bool(true),
    );
    let err = out.unwrap_err();
    assert_eq!(
        err,
        DecodeError::InvalidType { found: "bool".to_string(), expected: "struct Person".to_string() }
    );
    assert_eq!(err.message(), "invalid type bool, expected struct Person");
}

#[test]
fn externally_tagged_newtype_variant() {
    let input = Content::Mapping(vec![(text("A"), text("x"))]);
    let out = run(newtype_enum(EnumRepr::ExternallyTagged), DeserializerOptions::text(), Request::Enum("E"), &input);
    assert_eq!(out, Ok(Content::Mapping(vec![(text("A"), text("x"))])));
}

#[test]
fn externally_tagged_unknown_variant() {
    let input = Content::Mapping(vec![(text("B"), text("x"))]);
    let out = run(newtype_enum(EnumRepr::ExternallyTagged), DeserializerOptions::text(), Request::Enum("E"), &input);
    assert_eq!(out, Err(DecodeError::InvalidVariant));
}

#[test]
fn externally_tagged_missing_tag() {
    let out = run(
        newtype_enum(EnumRepr::ExternallyTagged),
        DeserializerOptions::text(),
        Request::Enum("E"),
        &Content::Mapping(vec![]),
    );
    assert_eq!(out, Err(DecodeError::MissingTag));
}

#[test]
fn tuple_tagged_enum_by_index() {
    let input = Content::Sequence(vec![Content::U32(1), text("payload")]);
    let out = run(two_variants(), DeserializerOptions::binary(), Request::Enum("E"), &input);
    assert_eq!(out, Ok(Content::Mapping(vec![(text("B"), text("payload"))])));
    let unit = Content::Sequence(vec![Content::U32(0), Content::Unit]);
    let out = run(two_variants(), DeserializerOptions::binary(), Request::Enum("E"), &unit);
    assert_eq!(out, Ok(Content::Mapping(vec![(text("A"), Content::Unit)])));
}

#[test]
fn tuple_tagged_enum_index_out_of_range() {
    let input = Content::Sequence(vec![Content::U32(5), text("payload")]);
    let out = run(two_variants(), DeserializerOptions::binary(), Request::Enum("E"), &input);
    assert_eq!(out, Err(DecodeError::InvalidVariant));
}

#[test]
fn tuple_tagged_enum_missing_parts() {
    let opts = DeserializerOptions::binary();
    assert_eq!(
        run(two_variants(), opts, Request::Enum("E"), &Content::Sequence(vec![])),
        Err(DecodeError::MissingTag)
    );
    assert_eq!(
        run(two_variants(), opts, Request::Enum("E"), &Content::Sequence(vec![Content::U8(1)])),
        Err(DecodeError::MissingValue)
    );
}

#[test]
fn internally_tagged_struct_variant() {
    let mut e = EnumSchema::new("E".to_string()).variant(VariantSchema::new(
        "S".to_string(),
        FieldsSchema::Named(NamedFieldsSchema::new().field(NamedFieldSchema::new(
            "n".to_string(),
            SchemaItem::simple(SimpleSchema::U8),
        ))),
    ));
    e.repr = EnumRepr::InternallyTagged { tag: "type".to_string() };
    let input = Content::Mapping(vec![(text("n"), Content::U8(7)), (text("type"), text("S"))]);
    let out = run(Schema::Enum(e), DeserializerOptions::text(), Request::Enum("E"), &input);
    assert_eq!(
        out,
        Ok(Content::Mapping(vec![(
            text("S"),
            Content::Mapping(vec![(text("n"), Content::U8(7)), (text("type"), text("S"))])
        )]))
    );
}

#[test]
fn adjacently_tagged_newtype_variant() {
    let schema = newtype_enum(EnumRepr::AdjacentlyTagged {
        tag: "t".to_string(),
        content: "c".to_string(),
    });
    let input = Content::Mapping(vec![(text("t"), text("A")), (text("c"), text("x"))]);
    let out = run(schema, DeserializerOptions::text(), Request::Enum("E"), &input);
    assert_eq!(out, Ok(Content::Mapping(vec![(text("A"), text("x"))])));
}

#[test]
fn adjacently_tagged_missing_content() {
    let schema = newtype_enum(EnumRepr::AdjacentlyTagged {
        tag: "t".to_string(),
        content: "c".to_string(),
    });
    let input = Content::Mapping(vec![(text("t"), text("A"))]);
    let out = run(schema, DeserializerOptions::text(), Request::Enum("E"), &input);
    assert_eq!(out, Err(DecodeError::MissingValue));
}

#[test]
fn every_simple_kind_round_trips() {
    let cases = vec![
        (SimpleSchema::Unit, Request::Unit, Content::Unit),
        (SimpleSchema::Bool, Request::Bool, Content::Bool(true)),
        (SimpleSchema::U8, Request::U8, Content::U8(1)),
        (SimpleSchema::U16, Request::U16, Content::U16(2)),
        (SimpleSchema::U32, Request::U32, Content::U32(3)),
        (SimpleSchema::U64, Request::U64, Content::U64(4)),
        (SimpleSchema::U128, Request::U128, Content::U128(5)),
        (SimpleSchema::I8, Request::I8, Content::I8(-1)),
        (SimpleSchema::I16, Request::I16, Content::I16(-2)),
        (SimpleSchema::I32, Request::I32, Content::I32(-3)),
        (SimpleSchema::I64, Request::I64, Content::I64(-4)),
        (SimpleSchema::I128, Request::I128, Content::I128(-5)),
        (SimpleSchema::Char, Request::Char, Content::Char('z')),
        (SimpleSchema::String, Request::String, text("s")),
        (SimpleSchema::Bytes, Request::ByteBuf, Content::Bytes(vec![1, 2])),
    ];
    for (kind, req, value) in cases {
        let out = run(Schema::Simple(kind), DeserializerOptions::binary(), req, &value);
        assert_eq!(out, Ok(value));
    }
}

#[test]
fn signed_widening() {
    let widths = [SimpleSchema::I8, SimpleSchema::I16, SimpleSchema::I32, SimpleSchema::I64, SimpleSchema::I128];
    for kind in widths {
        let out = run(Schema::Simple(kind), DeserializerOptions::binary(), Request::I128, &Content::I8(-7));
        assert_eq!(out, Ok(Content::I8(-7)));
        let any = run(Schema::Simple(kind), DeserializerOptions::binary(), Request::Any, &Content::I8(-7));
        assert_eq!(any, Ok(Content::I8(-7)));
    }
}

#[test]
fn unsigned_schema_rejects_signed_request() {
    let widths = [SimpleSchema::U8, SimpleSchema::U16, SimpleSchema::U32, SimpleSchema::U64, SimpleSchema::U128];
    for kind in widths {
        let out = run(Schema::Simple(kind), DeserializerOptions::binary(), Request::I128, &Content::I8(-7));
        assert!(matches!(out, Err(DecodeError::InvalidType { .. })));
    }
}

#[test]
fn no_narrowing() {
    let out = run(Schema::Simple(SimpleSchema::I32), DeserializerOptions::binary(), Request::I16, &Content::I8(1));
    assert_eq!(
        out,
        Err(DecodeError::InvalidType { found: "i32".to_string(), expected: "i16".to_string() })
    );
}

#[test]
fn float_widening_at_the_engine() {
    let descr = Description::new(SchemaItem::simple(SimpleSchema::F32));
    let decoder = SchemaDecoder::new(&descr);
    let engine = serde_descr::SchemaDeserializer::new(&decoder, DeserializerOptions::binary(), ()).unwrap();
    assert!(matches!(engine.plan(Request::F64), Ok(serde_descr::Step::Ask(serde_descr::Ask::F32))));
    assert!(engine.plan(Request::F32).is_ok());
    let descr = Description::new(SchemaItem::simple(SimpleSchema::F64));
    let decoder = SchemaDecoder::new(&descr);
    let engine = serde_descr::SchemaDeserializer::new(&decoder, DeserializerOptions::binary(), ()).unwrap();
    assert!(engine.plan(Request::F32).is_err());
}

#[test]
fn decoding_twice_gives_the_same_result() {
    let input = Content::Mapping(vec![(text("name"), text("Ann")), (text("age"), Content::U64(3))]);
    let descr = Description::new(SchemaItem::inline(person()));
    let decoder = SchemaDecoder::new(&descr);
    let first = decoder.decode(DeserializerOptions::text(), Request::Any, &input);
    let second = decoder.decode(DeserializerOptions::text(), Request::Any, &input);
    assert_eq!(first, second);
    let bad = Content::Mapping(vec![(text("x"), text("Ann"))]);
    assert_eq!(
        decoder.decode(DeserializerOptions::text(), Request::Any, &bad),
        decoder.decode(DeserializerOptions::text(), Request::Any, &bad)
    );
}

#[test]
fn option_present_and_absent() {
    let schema = || Schema::Option(OptionSchema::new(SchemaItem::simple(SimpleSchema::U8)));
    let none = Content::Option(None);
    let some = Content::Option(Some(Box::new(Content::U8(4))));
    assert_eq!(run(schema(), DeserializerOptions::binary(), Request::Option, &none), Ok(Content::Option(None)));
    assert_eq!(
        run(schema(), DeserializerOptions::binary(), Request::Option, &some),
        Ok(Content::Option(Some(Box::new(Content::U8(4)))))
    );
}

#[test]
fn option_request_without_schema_optionality_is_present() {
    let out = run(Schema::Simple(SimpleSchema::U8), DeserializerOptions::binary(), Request::Option, &Content::U8(4));
    assert_eq!(out, Ok(Content::Option(Some(Box::new(Content::U8(4))))));
}

#[test]
fn sequences_and_maps() {
    let seq = Schema::Sequence(SeqSchema::new(SchemaItem::simple(SimpleSchema::Bool)));
    let input = Content::Sequence(vec![Content::Bool(true), Content::Bool(false)]);
    assert_eq!(
        run(seq, DeserializerOptions::binary(), Request::Sequence, &input),
        Ok(Content::Sequence(vec![Content::Bool(true), Content::Bool(false)]))
    );
    let empty = Schema::Sequence(SeqSchema::new(SchemaItem::simple(SimpleSchema::Bool)));
    assert_eq!(
        run(empty, DeserializerOptions::binary(), Request::Sequence, &Content::Sequence(vec![])),
        Ok(Content::Sequence(vec![]))
    );
    let map = Schema::Mapping(MapSchema::new(
        SchemaItem::simple(SimpleSchema::String),
        SchemaItem::simple(SimpleSchema::I32),
    ));
    let input = Content::Mapping(vec![(text("k"), Content::I32(9))]);
    assert_eq!(
        run(map, DeserializerOptions::text(), Request::Mapping, &input),
        Ok(Content::Mapping(vec![(text("k"), Content::I32(9))]))
    );
}

#[test]
fn sequence_request_against_map_schema() {
    let map = Schema::Mapping(MapSchema::new(
        SchemaItem::simple(SimpleSchema::String),
        SchemaItem::simple(SimpleSchema::I32),
    ));
    assert_eq!(
        run(map, DeserializerOptions::text(), Request::Sequence, &Content::Sequence(vec![])),
        Err(DecodeError::InvalidType { found: "map".to_string(), expected: "sequence".to_string() })
    );
}

#[test]
fn tuple_mismatch_names_arity() {
    let tuple = Schema::Tuple(
        TupleSchema::new()
            .element(SchemaItem::simple(SimpleSchema::U8))
            .element(SchemaItem::simple(SimpleSchema::U8)),
    );
    assert_eq!(
        run(Schema::Simple(SimpleSchema::Char), DeserializerOptions::binary(), Request::Tuple(12), &Content::Char('a')),
        Err(DecodeError::InvalidType { found: "char".to_string(), expected: "12-element tuple".to_string() })
    );
    assert_eq!(
        run(tuple, DeserializerOptions::binary(), Request::Unit, &Content::Unit),
        Err(DecodeError::InvalidType { found: "2-element tuple".to_string(), expected: "unit".to_string() })
    );
}

#[test]
fn named_reference_resolves_through_the_table() {
    let mut descr = Description::new(SchemaItem::named(SchemaName::new("Person".to_string())));
    descr.add(SchemaName::new("Person".to_string()), person);
    let decoder = SchemaDecoder::new(&descr);
    let input = Content::Sequence(vec![text("Bo"), Content::U64(2)]);
    let out = decoder.decode(DeserializerOptions::binary(), Request::Any, &input);
    assert_eq!(
        out,
        Ok(Content::Mapping(vec![(text("name"), text("Bo")), (text("age"), Content::U64(2))]))
    );
}

#[test]
fn unknown_name_is_reported() {
    let descr = Description::new(SchemaItem::named(SchemaName::new("Missing".to_string())));
    let decoder = SchemaDecoder::new(&descr);
    let out = decoder.decode(DeserializerOptions::binary(), Request::Any, &Content::Unit);
    assert_eq!(out, Err(DecodeError::UnknownName));
}

#[test]
fn borrowing_asks_for_borrowed_strings() {
    let descr = Description::new(SchemaItem::simple(SimpleSchema::String));
    let decoder = SchemaDecoder::new(&descr);
    let owned = serde_descr::SchemaDeserializer::new(&decoder, DeserializerOptions::text(), ()).unwrap();
    assert!(matches!(owned.plan(Request::Any), Ok(serde_descr::Step::Ask(serde_descr::Ask::String))));
    let borrowed =
        serde_descr::SchemaDeserializer::new(&decoder, DeserializerOptions::text().borrowing(), ()).unwrap();
    assert!(matches!(borrowed.plan(Request::Any), Ok(serde_descr::Step::Ask(serde_descr::Ask::Str))));
}

#[test]
fn struct_map_missing_field() {
    let input = Content::Mapping(vec![(text("name"), text("Ann"))]);
    let out = run(person(), DeserializerOptions::text(), Request::Struct("Person"), &input);
    assert_eq!(out, Err(DecodeError::MissingField("age".to_string())));
    assert_eq!(out.unwrap_err().message(), "missing field age");
}
