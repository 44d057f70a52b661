use editor::json2::{parse, JsonValue, Nest, ParsedDocument};
use editor::json_http_client_builder::{
    JSONHTTPClientBuilder, ReturnTypeSpec, ScalarTypespecIds, SelectedField, NAME_OF_ROOT,
};
use editor::schema_builder::{FieldIdentifier, Schema, SchemaType};

const IDS: ScalarTypespecIds = ScalarTypespecIds { string: 1, number: 2, boolean: 3, null: 4 };

fn obj(members: Vec<(&str, JsonValue)>) -> JsonValue {
    JsonValue::Object(members.into_iter().map(|(k, v)| (k.to_string(), v)).collect())
}

fn scalar_id(r: &ReturnTypeSpec) -> Option<u128> {
    match r {
        ReturnTypeSpec::Scalar { typespec_id } => Some(*typespec_id),
        _ => None,
    }
}

#[test]
fn root_type_name() {
    assert_eq!(NAME_OF_ROOT, "Response");
}

#[test]
fn new_builder_has_nothing_yet() {
    let b = JSONHTTPClientBuilder::new(77);
    assert!(b.test_run_result.is_none());
    assert!(b.test_run_parsed_doc.is_none());
    assert!(b.external_schema.is_none());
    assert_eq!(b.json_http_client_id, 77);
    assert!(b.selected_fields.is_empty());
}

#[test]
fn successful_test_run_is_parsed_and_described() {
    let mut b = JSONHTTPClientBuilder::new(1);
    b.selected_fields.push(SelectedField { name: "old".to_string(), nesting: vec![Nest::ListElement(0)], typespec_id: 9 });
    b.set_test_result(Ok(obj(vec![("count", JsonValue::Integer(3))])));
    assert!(matches!(b.test_run_result, Some(Ok(JsonValue::Object(_)))));
    match &b.test_run_parsed_doc {
        Some(ParsedDocument::Object { value, .. }) => {
            assert_eq!(value.len(), 1);
            assert_eq!(value[0].0, "count");
        },
        _ => panic!("expected a parsed object"),
    }
    match &b.external_schema {
        Some(s) => match &s.typ {
            SchemaType::Object { map } => {
                assert_eq!(map[0].0, "count");
                assert!(matches!(map[0].1.typ, SchemaType::Number { example: 3 }));
            },
            _ => panic!("expected an object schema"),
        },
        None => panic!("expected a schema"),
    }
    assert!(b.selected_fields.is_empty());
    assert_eq!(b.json_http_client_id, 1);
}

#[test]
fn failed_test_run_keeps_the_error_and_the_old_schema() {
    let mut b = JSONHTTPClientBuilder::new(1);
    b.set_test_result(Ok(JsonValue::Bool(true)));
    b.set_test_result(Err("timed out".to_string()));
    assert!(matches!(b.test_run_result, Some(Err(ref e)) if e == "timed out"));
    assert!(b.test_run_parsed_doc.is_none());
    assert!(matches!(b.external_schema, Some(ref s) if matches!(s.typ, SchemaType::Boolean { example: true })));
}

#[test]
fn scalar_schemas_become_scalar_types() {
    let t = ReturnTypeSpec::from_schema_type(&SchemaType::String { example: String::new() }, false, &IDS);
    assert_eq!(scalar_id(&t), Some(1));
    let t = ReturnTypeSpec::from_schema_type(&SchemaType::Number { example: 5 }, false, &IDS);
    assert_eq!(scalar_id(&t), Some(2));
    let t = ReturnTypeSpec::from_schema_type(&SchemaType::Boolean { example: false }, false, &IDS);
    assert_eq!(scalar_id(&t), Some(3));
    let t = ReturnTypeSpec::from_schema_type(&SchemaType::Null, false, &IDS);
    assert_eq!(scalar_id(&t), Some(4));
}

#[test]
fn optional_schema_is_wrapped() {
    let t = ReturnTypeSpec::from_schema_type(&SchemaType::Null, true, &IDS);
    match t {
        ReturnTypeSpec::Optional(inner) => assert_eq!(scalar_id(&inner), Some(4)),
        _ => panic!("expected an optional"),
    }
}

#[test]
fn object_and_list_schemas_become_struct_and_list_types() {
    let j = obj(vec![
        ("names", JsonValue::Array(vec![JsonValue::String("a".to_string())])),
        ("ok", JsonValue::Bool(true)),
    ]);
    let schema = Schema::from_parsed_doc_root(&parse(j));
    assert!(matches!(schema.field_id, FieldIdentifier::Root));
    let t = ReturnTypeSpec::from_schema_type(&schema.typ, schema.optional, &IDS);
    match t {
        ReturnTypeSpec::Struct(fields) => {
            assert_eq!(fields.len(), 2);
            assert_eq!(fields[0].0, "names");
            match &fields[0].1 {
                ReturnTypeSpec::List(inner) => assert_eq!(scalar_id(inner), Some(1)),
                _ => panic!("expected a list"),
            }
            assert_eq!(fields[1].0, "ok");
            assert_eq!(scalar_id(&fields[1].1), Some(3));
        },
        _ => panic!("expected a struct"),
    }
}

#[test]
fn struct_fields_come_out_sorted_by_name() {
    let member = |name: &str, typ: SchemaType| {
        (name.to_string(), Schema { field_id: FieldIdentifier::Name(name.to_string()), typ, optional: false })
    };
    let map = vec![
        member("b", SchemaType::Null),
        member("a", SchemaType::Boolean { example: true }),
        member("ab", SchemaType::Number { example: 1 }),
    ];
    let t = ReturnTypeSpec::from_schema_type(&SchemaType::Object { map }, false, &IDS);
    match t {
        ReturnTypeSpec::Struct(fields) => {
            let names: Vec<&str> = fields.iter().map(|f| f.0.as_str()).collect();
            assert_eq!(names, vec!["a", "ab", "b"]);
            assert_eq!(scalar_id(&fields[0].1), Some(3));
            assert_eq!(scalar_id(&fields[1].1), Some(2));
            assert_eq!(scalar_id(&fields[2].1), Some(4));
        },
        _ => panic!("expected a struct"),
    }
}

#[test]
fn copies_of_schemas_and_response_types() {
    let schema = Schema::from_parsed_doc_root(&parse(obj(vec![("x", JsonValue::Integer(1))])));
    let copy = schema.clone();
    let a = ReturnTypeSpec::from_schema_type(&schema.typ, false, &IDS);
    let b = ReturnTypeSpec::from_schema_type(&copy.typ, false, &IDS);
    assert_eq!(a, b);
    assert_eq!(a.clone(), a);
    let mut builder = JSONHTTPClientBuilder::new(3);
    builder.set_test_result(Ok(JsonValue::Null));
    let copied = builder.clone();
    assert!(matches!(copied.external_schema, Some(ref s) if matches!(s.typ, SchemaType::Null)));
}
