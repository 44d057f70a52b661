use editor::json2::{parse, JsonValue};
use editor::schema_builder::{
    FieldIdentifier, FieldType, Schema, SchemaPathError, SchemaType, ALL_FIELD_TYPES,
};

fn s(text: &str) -> String {
    text.to_string()
}

fn obj(members: Vec<(&str, JsonValue)>) -> JsonValue {
    JsonValue::Object(members.into_iter().map(|(k, v)| (s(k), v)).collect())
}

fn name(n: &str) -> FieldIdentifier {
    FieldIdentifier::Name(s(n))
}

fn same_id(a: &FieldIdentifier, b: &FieldIdentifier) -> bool {
    match (a, b) {
        (FieldIdentifier::Root, FieldIdentifier::Root) => true,
        (FieldIdentifier::Name(x), FieldIdentifier::Name(y)) => x == y,
        _ => false,
    }
}

fn sample() -> Schema {
    let j = obj(vec![
        ("id", JsonValue::Integer(12)),
        ("user", obj(vec![("nick", JsonValue::String(s("bob"))), ("admin", JsonValue::Bool(true))])),
        ("tags", JsonValue::Array(vec![JsonValue::String(s("t"))])),
        ("none", JsonValue::Null),
    ]);
    Schema::from_parsed_doc_root(&parse(j))
}

#[test]
fn field_type_names() {
    assert_eq!(FieldType::String.to_string(), "String");
    assert_eq!(FieldType::Number.to_string(), "Number");
    assert_eq!(FieldType::Boolean.to_string(), "Boolean");
    assert_eq!(FieldType::Null.to_string(), "Null");
    assert_eq!(FieldType::Object.to_string(), "Object");
}

#[test]
fn all_field_types_in_menu_order() {
    assert_eq!(
        ALL_FIELD_TYPES,
        [FieldType::String, FieldType::Number, FieldType::Boolean, FieldType::Null, FieldType::Object]
    );
}

#[test]
fn fresh_node_of_each_field_type_has_that_type() {
    for ft in ALL_FIELD_TYPES.iter() {
        let schema = Schema { field_id: FieldIdentifier::Root, typ: SchemaType::from_field_type(*ft), optional: false };
        assert_eq!(schema.field_type(), *ft);
    }
    match SchemaType::from_field_type(FieldType::Number) {
        SchemaType::Number { example } => assert_eq!(example, 0),
        _ => panic!("expected a number"),
    }
    match SchemaType::from_field_type(FieldType::String) {
        SchemaType::String { example } => assert_eq!(example, ""),
        _ => panic!("expected a string"),
    }
    match SchemaType::from_field_type(FieldType::Object) {
        SchemaType::Object { map } => assert!(map.is_empty()),
        _ => panic!("expected an object"),
    }
}

#[test]
fn inferred_schema_of_an_object() {
    let schema = sample();
    assert!(matches!(schema.field_id, FieldIdentifier::Root));
    assert!(!schema.optional);
    match &schema.typ {
        SchemaType::Object { map } => {
            assert_eq!(map.len(), 4);
            assert_eq!(map[0].0, "id");
            assert!(same_id(&map[0].1.field_id, &name("id")));
            assert!(matches!(map[0].1.typ, SchemaType::Number { example: 12 }));
            assert_eq!(map[1].1.field_type(), FieldType::Object);
            match &map[2].1.typ {
                SchemaType::List { schema } => {
                    assert!(same_id(&schema.field_id, &name("tags")));
                    assert!(matches!(schema.typ, SchemaType::String { ref example } if example == "t"));
                },
                _ => panic!("expected a list"),
            }
            assert!(matches!(map[3].1.typ, SchemaType::Null));
        },
        _ => panic!("expected an object"),
    }
}

#[test]
fn list_schema_comes_from_the_first_element() {
    let j = JsonValue::Array(vec![JsonValue::Integer(5), JsonValue::Integer(6)]);
    let schema = Schema::from_parsed_doc_root(&parse(j));
    match schema.typ {
        SchemaType::List { schema } => assert!(matches!(schema.typ, SchemaType::Number { example: 5 })),
        _ => panic!("expected a list"),
    }
}

#[test]
fn empty_list_gives_an_unsupported_node() {
    let schema = Schema::from_parsed_doc_root(&parse(JsonValue::Array(vec![])));
    assert!(matches!(schema.typ, SchemaType::CameFromUnsupportedList));
    let mixed = JsonValue::Array(vec![JsonValue::Null, JsonValue::Bool(false)]);
    let schema = Schema::from_parsed_doc_root(&parse(mixed));
    assert!(matches!(schema.typ, SchemaType::CameFromUnsupportedList));
}

#[test]
fn from_parsed_doc_names_the_node() {
    let schema = Schema::from_parsed_doc(&parse(JsonValue::Bool(true)), name("flag"));
    assert!(same_id(&schema.field_id, &name("flag")));
    assert!(matches!(schema.typ, SchemaType::Boolean { example: true }));
}

#[test]
fn walk_lists_nodes_depth_first_with_paths() {
    let schema = sample();
    let walk = schema.iter_dfs_including_self();
    let expected: Vec<Vec<FieldIdentifier>> = vec![
        vec![FieldIdentifier::Root],
        vec![FieldIdentifier::Root, name("id")],
        vec![FieldIdentifier::Root, name("user")],
        vec![FieldIdentifier::Root, name("user"), name("nick")],
        vec![FieldIdentifier::Root, name("user"), name("admin")],
        vec![FieldIdentifier::Root, name("tags")],
        vec![FieldIdentifier::Root, name("none")],
    ];
    assert_eq!(walk.len(), expected.len());
    for ((node, indent), want) in walk.iter().zip(expected.iter()) {
        assert_eq!(indent.len(), want.len());
        for (a, b) in indent.iter().zip(want.iter()) {
            assert!(same_id(a, b));
        }
        assert!(same_id(&node.field_id, want.last().unwrap()));
    }
}

#[test]
fn walk_from_a_given_path() {
    let schema = Schema::from_parsed_doc(&parse(JsonValue::Null), name("x"));
    let walk = schema.iter_dfs_including_self_rec(vec![FieldIdentifier::Root]);
    assert_eq!(walk.len(), 1);
    assert_eq!(walk[0].1.len(), 2);
    assert!(same_id(&walk[0].1[0], &FieldIdentifier::Root));
    assert!(same_id(&walk[0].1[1], &name("x")));
}

#[test]
fn get_mut_with_the_root_alone_gives_the_root() {
    let mut schema = sample();
    let node = schema.get_mut(&[FieldIdentifier::Root]).expect("root");
    assert_eq!(node.field_type(), FieldType::Object);
}

#[test]
fn get_mut_reaches_a_nested_member_and_edits_it() {
    let mut schema = sample();
    {
        let node = schema.get_mut(&[FieldIdentifier::Root, name("user"), name("admin")]).expect("admin");
        assert!(matches!(node.typ, SchemaType::Boolean { example: true }));
        node.optional = true;
    }
    match &schema.typ {
        SchemaType::Object { map } => match &map[1].1.typ {
            SchemaType::Object { map: inner } => {
                assert!(inner[1].1.optional);
                assert!(!inner[0].1.optional);
            },
            _ => panic!("expected an object"),
        },
        _ => panic!("expected an object"),
    }
}

#[test]
fn get_mut_through_a_scalar_is_a_bad_indent() {
    let mut schema = sample();
    let r = schema.get_mut(&[FieldIdentifier::Root, name("id"), name("deeper")]);
    assert_eq!(r.err(), Some(SchemaPathError::BadIndent));
}

#[test]
fn get_mut_through_a_list_is_a_bad_indent() {
    let mut schema = sample();
    let r = schema.get_mut(&[FieldIdentifier::Root, name("tags"), name("tags")]);
    assert_eq!(r.err(), Some(SchemaPathError::BadIndent));
}

#[test]
fn get_mut_with_root_below_the_top_is_a_bad_indent() {
    let mut schema = sample();
    let r = schema.get_mut(&[FieldIdentifier::Root, FieldIdentifier::Root]);
    assert_eq!(r.err(), Some(SchemaPathError::BadIndent));
}

#[test]
fn get_mut_of_a_missing_member_is_no_such_field() {
    let mut schema = sample();
    let r = schema.get_mut(&[FieldIdentifier::Root, name("nope")]);
    assert_eq!(r.err(), Some(SchemaPathError::NoSuchField));
    let r = schema.get_mut(&[FieldIdentifier::Root, name("user"), name("id")]);
    assert_eq!(r.err(), Some(SchemaPathError::NoSuchField));
}

#[test]
fn every_walked_node_is_reached_by_get_mut() {
    let schema = sample();
    let paths: Vec<(Vec<FieldIdentifier>, FieldIdentifier)> = schema
        .iter_dfs_including_self()
        .into_iter()
        .map(|(node, indent)| (indent, node.field_id.clone()))
        .collect();
    let mut editable = sample();
    for (indent, id) in paths {
        let node = editable.get_mut(&indent).expect("walked path");
        assert!(same_id(&node.field_id, &id));
    }
}
