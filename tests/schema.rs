use std::cmp::Ordering;

use serde_descr::{
    Describe, Description, Expected, FieldsSchema, NamedFieldSchema, NamedFieldsSchema, Schema,
    SchemaItem, SchemaName, SimpleSchema, StructSchema, TupleSchema,
};

#[test]
fn name_text_with_arguments() {
    let name = SchemaName::new("Map".to_string())
        .argument(SchemaName::new("str".to_string()))
        .argument(SchemaName::new("Vec".to_string()).argument(SchemaName::new("u8".to_string())));
    assert_eq!(name.to_string(), "Map<str, Vec<u8>>");
    assert_eq!(SchemaName::new("u8".to_string()).to_string(), "u8");
}

#[test]
fn name_equality() {
    let a = SchemaName::new("A".to_string()).argument(SchemaName::new("B".to_string()));
    let b = SchemaName::new("A".to_string()).argument(SchemaName::new("B".to_string()));
    let c = SchemaName::new("A".to_string()).argument(SchemaName::new("C".to_string()));
    assert!(a == b);
    assert!(a != c);
    assert!(a != SchemaName::new("A".to_string()));
}

#[test]
fn simple_kind_names() {
    assert_eq!(SimpleSchema::U128.as_str(), "u128");
    assert_eq!(SimpleSchema::String.to_string(), "string");
    assert_eq!(SimpleSchema::Bytes.as_str(), "bytes");
}

#[test]
fn expected_texts() {
    assert_eq!(Expected::Tuple(3).to_string(), "3-element tuple");
    assert_eq!(Expected::Tuple(0).to_string(), "0-element tuple");
    assert_eq!(Expected::Struct("P").to_string(), "struct P");
    assert_eq!(Expected::Enum("E").to_string(), "enum E");
    assert_eq!(Expected::Sequence.to_string(), "sequence");
    let s = Schema::Struct(StructSchema::new("Point".to_string(), FieldsSchema::Tuple(TupleSchema::new())));
    assert_eq!(s.expected().to_string(), "struct Point");
    assert_eq!(Schema::Simple(SimpleSchema::I16).kind_text(), "i16");
}

#[test]
fn decimal_text() {
    assert_eq!(serde_descr::schema::decimal(0), "0");
    assert_eq!(serde_descr::schema::decimal(1024), "1024");
    assert_eq!(serde_descr::schema::decimal(usize::MAX), usize::MAX.to_string());
}

struct Node;

impl Describe for Node {
    fn schema_name() -> SchemaName {
        SchemaName::new("Node".to_string())
    }

    fn add_schema(map: &mut Description) {
        let added = map.add(Self::schema_name(), || {
            Schema::Struct(StructSchema::new(
                "Node".to_string(),
                FieldsSchema::Named(
                    NamedFieldsSchema::new()
                        .field(NamedFieldSchema::new("value".to_string(), u32::schema()))
                        .field(NamedFieldSchema::new("children".to_string(), Vec::<Node>::schema()))
                        .field(NamedFieldSchema::new("other".to_string(), Other::schema())),
                ),
            ))
        });
        if added {
            Vec::<Node>::add_schema(map);
            Other::add_schema(map);
        }
    }
}

struct Other;

impl Describe for Other {
    fn schema_name() -> SchemaName {
        SchemaName::new("Other".to_string())
    }

    fn add_schema(map: &mut Description) {
        let added = map.add(Self::schema_name(), || {
            Schema::Struct(StructSchema::new(
                "Other".to_string(),
                FieldsSchema::Named(
                    NamedFieldsSchema::new()
                        .field(NamedFieldSchema::new("back".to_string(), Box::<Node>::schema())),
                ),
            ))
        });
        if added {
            Box::<Node>::add_schema(map);
        }
    }
}

#[test]
fn recursive_types_register_once() {
    let descr = Node::describe();
    assert_eq!(descr.items.len(), 2);
    assert_eq!(descr.items[0].0.to_string(), "Node");
    assert_eq!(descr.items[1].0.to_string(), "Other");
    assert!(matches!(descr.schema, SchemaItem::Named(ref n) if n.to_string() == "Node"));
}

#[test]
fn adding_a_registered_name_changes_nothing() {
    let mut descr = Description::new(u8::schema());
    assert!(descr.add(SchemaName::new("A".to_string()), || Schema::Simple(SimpleSchema::Bool)));
    assert!(!descr.add(SchemaName::new("A".to_string()), || Schema::Simple(SimpleSchema::Char)));
    assert_eq!(descr.items.len(), 1);
    assert!(matches!(descr.items[0].1, Schema::Simple(SimpleSchema::Bool)));
    assert!(descr.contains(&SchemaName::new("A".to_string())));
    assert!(!descr.contains(&SchemaName::new("B".to_string())));
}

#[test]
fn builtin_descriptions() {
    assert_eq!(Vec::<u8>::schema_name().to_string(), "std::vec::Vec<u8>");
    assert_eq!(
        std::collections::BTreeMap::<String, i64>::schema_name().to_string(),
        "std::collections::BTreeMap<str, i64>"
    );
    assert!(matches!(usize::schema(), SchemaItem::Schema(ref s) if matches!(**s, Schema::Simple(SimpleSchema::U64))));
    let d = <()>::describe();
    assert_eq!(d.items.len(), 0);
}

#[test]
fn parse_reads_rendered_names() {
    let name = SchemaName::new("Map".to_string())
        .argument(SchemaName::new("str".to_string()))
        .argument(SchemaName::new("Vec".to_string()).argument(SchemaName::new("u8".to_string())));
    let parsed = SchemaName::parse("Map<str, Vec<u8>>").unwrap();
    assert!(parsed == name);
    assert_eq!(parsed.to_string(), "Map<str, Vec<u8>>");
    assert!(SchemaName::parse("std::vec::Vec").unwrap() == SchemaName::new("std::vec::Vec".to_string()));
}

#[test]
fn parse_rejects_malformed_names() {
    assert!(SchemaName::parse("").is_none());
    assert!(SchemaName::parse("A<").is_none());
    assert!(SchemaName::parse("A<B").is_none());
    assert!(SchemaName::parse("A<B,C>").is_none());
    assert!(SchemaName::parse("A<B>>").is_none());
    assert!(SchemaName::parse("<B>").is_none());
}

#[test]
fn well_formedness_of_descriptions() {
    let mut descr = Description::new(u8::schema());
    assert!(descr.is_well_formed());
    descr.add(SchemaName::new("A".to_string()), || Schema::Simple(SimpleSchema::Bool));
    assert!(descr.is_well_formed());
    descr.items.push((SchemaName::new("A".to_string()), Schema::Simple(SimpleSchema::Char)));
    assert!(!descr.is_well_formed());
}

#[test]
fn default_values() {
    assert!(serde_descr::schema::is_default(&false));
    assert!(!serde_descr::schema::is_default(&3u8));
    assert!(serde_descr::schema::is_default(&Option::<String>::None));
}

#[test]
fn names_are_ordered() {
    let a = SchemaName::new("A".to_string());
    let a_b = SchemaName::new("A".to_string()).argument(SchemaName::new("B".to_string()));
    let a_c = SchemaName::new("A".to_string()).argument(SchemaName::new("C".to_string()));
    let b = SchemaName::new("B".to_string());
    assert_eq!(a.compare(&a_b), Ordering::Less);
    assert_eq!(a_b.compare(&a_c), Ordering::Less);
    assert_eq!(a_c.compare(&b), Ordering::Less);
    assert_eq!(b.compare(&a), Ordering::Greater);
    assert_eq!(a_b.compare(&SchemaName::parse("A<B>").unwrap()), Ordering::Equal);
    assert!(a < b);
    let mut registry = std::collections::BTreeMap::new();
    registry.insert(b, 2);
    registry.insert(a, 1);
    let keys: Vec<String> = registry.keys().map(|k| k.to_string()).collect();
    assert_eq!(keys, vec!["A".to_string(), "B".to_string()]);
}
