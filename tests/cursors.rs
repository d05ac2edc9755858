use serde_descr::deserializer::{payload, variant_at, variant_named};
use serde_descr::{
    DecodeError, FieldCursor, FieldMatcher, FieldsSchema, NamedFieldSchema, Payload, SchemaItem,
    SimpleSchema, TupleCursor, TupleSchema, VariantCursor, VariantSchema,
};

fn fields() -> Vec<NamedFieldSchema> {
    vec![
        NamedFieldSchema::new("a".to_string(), SchemaItem::simple(SimpleSchema::U8)),
        NamedFieldSchema::new("b".to_string(), SchemaItem::simple(SimpleSchema::Bool)),
    ]
}

fn is_simple(item: &SchemaItem, kind: SimpleSchema) -> bool {
    matches!(item, SchemaItem::Schema(s) if matches!(**s, serde_descr::Schema::Simple(k) if k == kind))
}

#[test]
fn tuple_cursor_hands_out_positions_in_order() {
    let values = vec![SchemaItem::simple(SimpleSchema::Char), SchemaItem::simple(SimpleSchema::Unit)];
    let mut cursor = TupleCursor::new(&values);
    assert!(is_simple(cursor.next_element().unwrap(), SimpleSchema::Char));
    assert!(is_simple(cursor.next_element().unwrap(), SimpleSchema::Unit));
    assert!(cursor.next_element().is_none());
    assert!(cursor.next_element().is_none());
}

#[test]
fn field_cursor_pairs_keys_and_values() {
    let fields = fields();
    let mut cursor = FieldCursor::new(&fields);
    assert_eq!(cursor.next_value().unwrap_err(), DecodeError::CursorMisuse);
    assert_eq!(cursor.next_key().unwrap(), "a");
    assert!(is_simple(cursor.next_value().unwrap(), SimpleSchema::U8));
    assert_eq!(cursor.next_value().unwrap_err(), DecodeError::CursorMisuse);
    assert_eq!(cursor.next_key().unwrap(), "b");
    assert!(is_simple(cursor.next_value().unwrap(), SimpleSchema::Bool));
    assert!(cursor.next_key().is_none());
}

#[test]
fn field_matcher_matches_by_name() {
    let fields = fields();
    let mut matcher = FieldMatcher::new(&fields);
    assert!(matcher.key("b").is_ok());
    assert!(is_simple(matcher.next_value().unwrap(), SimpleSchema::Bool));
    assert_eq!(matcher.key("zz"), Err(DecodeError::UnknownField("zz".to_string())));
    assert_eq!(matcher.next_value().unwrap_err(), DecodeError::CursorMisuse);
}

#[test]
fn variants_by_index_and_by_name() {
    let variants = vec![
        VariantSchema::new("U".to_string(), FieldsSchema::Tuple(TupleSchema::new())),
        VariantSchema::new(
            "N".to_string(),
            FieldsSchema::Tuple(TupleSchema::new().element(SchemaItem::simple(SimpleSchema::I8))),
        ),
        VariantSchema::new(
            "T".to_string(),
            FieldsSchema::Tuple(
                TupleSchema::new()
                    .element(SchemaItem::simple(SimpleSchema::I8))
                    .element(SchemaItem::simple(SimpleSchema::I8)),
            ),
        ),
    ];
    assert_eq!(variant_at(&variants, 1).unwrap().name, "N");
    assert_eq!(variant_at(&variants, 3).unwrap_err(), DecodeError::InvalidVariant);
    assert_eq!(variant_named(&variants, "T").unwrap().name, "T");
    assert_eq!(variant_named(&variants, "X").unwrap_err(), DecodeError::InvalidVariant);
    assert!(matches!(payload(&variants[0]), Payload::Unit));
    assert!(matches!(payload(&variants[1]), Payload::Newtype(_)));
    assert!(matches!(payload(&variants[2]), Payload::Tuple(v) if v.len() == 2));
}

#[test]
fn variant_cursor_offers_one_entry() {
    let variant = VariantSchema::new("U".to_string(), FieldsSchema::Tuple(TupleSchema::new()));
    let mut cursor = VariantCursor::new(&variant);
    assert_eq!(cursor.next_key().unwrap(), "U");
    assert!(cursor.next_key().is_none());
    assert!(matches!(cursor.next_value(), Ok(Payload::Unit)));
    assert_eq!(cursor.next_value().unwrap_err(), DecodeError::CursorMisuse);
}
