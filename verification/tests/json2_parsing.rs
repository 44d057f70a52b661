use editor::json2::{parse, try_parse, JsonValue, Nest, ParsedDocument};

fn s(text: &str) -> String {
    text.to_string()
}

fn obj(members: Vec<(&str, JsonValue)>) -> JsonValue {
    JsonValue::Object(members.into_iter().map(|(k, v)| (s(k), v)).collect())
}

fn is_list_element(n: &Nest, i: usize) -> bool {
    matches!(n, Nest::ListElement(k) if *k == i)
}

fn is_map_key(n: &Nest, key: &str) -> bool {
    matches!(n, Nest::MapKey(k) if k == key)
}

#[test]
fn parse_null_is_null_at_the_root() {
    let d = parse(JsonValue::Null);
    assert!(matches!(d, ParsedDocument::Null { ref nesting } if nesting.is_empty()));
}

#[test]
fn parse_bool_keeps_the_value() {
    let d = parse(JsonValue::Bool(true));
    assert!(matches!(d, ParsedDocument::Bool { value: true, .. }));
}

#[test]
fn parse_integer_becomes_a_number() {
    let d = parse(JsonValue::Integer(-42));
    assert!(matches!(d, ParsedDocument::Number { value: -42, .. }));
    let d = parse(JsonValue::Integer(i64::MAX));
    match d {
        ParsedDocument::Number { value, .. } => assert_eq!(value, i64::MAX as i128),
        _ => panic!("expected a number"),
    }
}

#[test]
fn parse_float_becomes_its_text() {
    let d = parse(JsonValue::Float(s("1.5")));
    match d {
        ParsedDocument::String { value, nesting } => {
            assert_eq!(value, "1.5");
            assert!(nesting.is_empty());
        },
        _ => panic!("expected a string"),
    }
}

#[test]
fn parse_string_keeps_the_text() {
    let d = parse(JsonValue::String(s("hello")));
    assert!(matches!(d, ParsedDocument::String { ref value, .. } if value == "hello"));
}

#[test]
fn parse_list_of_numbers_records_element_paths() {
    let d = parse(JsonValue::Array(vec![JsonValue::Integer(1), JsonValue::Integer(2)]));
    match d {
        ParsedDocument::List { value, nesting } => {
            assert!(nesting.is_empty());
            assert_eq!(value.len(), 2);
            for (i, child) in value.iter().enumerate() {
                let n = child.nesting();
                assert_eq!(n.len(), 1);
                assert!(is_list_element(&n[0], i));
                assert!(matches!(child, ParsedDocument::Number { .. }));
            }
        },
        _ => panic!("expected a list"),
    }
}

#[test]
fn parse_empty_list_cannot_be_inferred() {
    let d = parse(JsonValue::Array(vec![]));
    match d {
        ParsedDocument::EmptyCantInfer { value, nesting } => {
            assert!(nesting.is_empty());
            assert!(matches!(value, JsonValue::Array(ref vs) if vs.is_empty()));
        },
        _ => panic!("expected EmptyCantInfer"),
    }
}

#[test]
fn parse_list_of_empty_lists_cannot_be_inferred() {
    let d = parse(JsonValue::Array(vec![JsonValue::Array(vec![]), JsonValue::Array(vec![])]));
    assert!(matches!(d, ParsedDocument::EmptyCantInfer { .. }));
}

#[test]
fn parse_mixed_list_is_non_homogeneous() {
    let d = parse(JsonValue::Array(vec![JsonValue::Integer(1), JsonValue::String(s("a"))]));
    match d {
        ParsedDocument::NonHomogeneousCantParse { value, .. } => match value {
            JsonValue::Array(vs) => assert_eq!(vs.len(), 2),
            _ => panic!("expected the array back"),
        },
        _ => panic!("expected NonHomogeneousCantParse"),
    }
}

#[test]
fn parse_list_ignores_empty_elements_when_inferring() {
    let d = parse(JsonValue::Array(vec![
        JsonValue::Array(vec![]),
        JsonValue::Array(vec![JsonValue::Integer(1)]),
    ]));
    match d {
        ParsedDocument::List { value, .. } => {
            assert_eq!(value.len(), 2);
            assert!(matches!(value[0], ParsedDocument::EmptyCantInfer { .. }));
            assert!(matches!(value[1], ParsedDocument::List { .. }));
        },
        _ => panic!("expected a list"),
    }
}

#[test]
fn try_parse_refuses_a_list_whose_elements_disagree_inside() {
    // the inner list holds an uninferable element beside a list of numbers,
    // so it has no single type as an element of the outer list
    let inner = JsonValue::Array(vec![
        JsonValue::Array(vec![]),
        JsonValue::Array(vec![JsonValue::Integer(1)]),
    ]);
    assert!(try_parse(JsonValue::Array(vec![inner])).is_none());
}

#[test]
fn try_parse_accepts_ordinary_documents() {
    let j = obj(vec![("a", JsonValue::Integer(1)), ("b", JsonValue::Array(vec![]))]);
    assert!(try_parse(j).is_some());
}

#[test]
fn parse_object_keeps_member_order_and_paths() {
    let j = obj(vec![
        ("name", JsonValue::String(s("x"))),
        ("inner", obj(vec![("flag", JsonValue::Bool(false))])),
    ]);
    let d = parse(j);
    match d {
        ParsedDocument::Object { value, nesting } => {
            assert!(nesting.is_empty());
            assert_eq!(value.len(), 2);
            assert_eq!(value[0].0, "name");
            assert_eq!(value[1].0, "inner");
            let n = value[0].1.nesting();
            assert_eq!(n.len(), 1);
            assert!(is_map_key(&n[0], "name"));
            match &value[1].1 {
                ParsedDocument::Object { value: inner, nesting } => {
                    assert_eq!(nesting.len(), 1);
                    assert!(is_map_key(&nesting[0], "inner"));
                    let n = inner[0].1.nesting();
                    assert_eq!(n.len(), 2);
                    assert!(is_map_key(&n[0], "inner"));
                    assert!(is_map_key(&n[1], "flag"));
                },
                _ => panic!("expected an object"),
            }
        },
        _ => panic!("expected an object"),
    }
}

#[test]
fn find_by_empty_nesting_gives_the_root() {
    let d = parse(JsonValue::Array(vec![JsonValue::Integer(7)]));
    let found = d.find(&vec![]).expect("root");
    assert!(matches!(found, ParsedDocument::List { .. }));
}

#[test]
fn find_reaches_a_nested_node() {
    let j = obj(vec![(
        "items",
        JsonValue::Array(vec![JsonValue::Integer(3), JsonValue::Integer(4)]),
    )]);
    let d = parse(j);
    let path = vec![Nest::MapKey(s("items")), Nest::ListElement(1)];
    let found = d.find(&path).expect("the second item");
    assert!(matches!(found, ParsedDocument::Number { value: 4, .. }));
}

#[test]
fn find_of_a_missing_path_is_none() {
    let d = parse(obj(vec![("a", JsonValue::Null)]));
    assert!(d.find(&vec![Nest::MapKey(s("b"))]).is_none());
    assert!(d.find(&vec![Nest::ListElement(0)]).is_none());
}

#[test]
fn every_node_is_found_by_its_own_nesting() {
    let j = obj(vec![
        ("a", JsonValue::Array(vec![obj(vec![("b", JsonValue::Integer(1))])])),
        ("c", JsonValue::Bool(true)),
    ]);
    let d = parse(j);
    let paths: Vec<Vec<Nest>> = vec![
        vec![],
        vec![Nest::MapKey(s("a"))],
        vec![Nest::MapKey(s("a")), Nest::ListElement(0)],
        vec![Nest::MapKey(s("a")), Nest::ListElement(0), Nest::MapKey(s("b"))],
        vec![Nest::MapKey(s("c"))],
    ];
    for p in paths {
        let found = d.find(&p).expect("a node");
        let n = found.nesting();
        assert_eq!(n.len(), p.len());
        for (x, y) in n.iter().zip(p.iter()) {
            match (x, y) {
                (Nest::ListElement(a), Nest::ListElement(b)) => assert_eq!(a, b),
                (Nest::MapKey(a), Nest::MapKey(b)) => assert_eq!(a, b),
                _ => panic!("paths differ"),
            }
        }
    }
}

#[test]
fn find_an_element_inside_a_member() {
    let d = parse(obj(vec![("a", JsonValue::Array(vec![JsonValue::Bool(true)]))]));
    let found = d.find(&vec![Nest::MapKey(s("a")), Nest::ListElement(0)]).expect("the element");
    assert!(matches!(found, ParsedDocument::Bool { value: true, .. }));
}

#[test]
fn copies_of_values_and_documents_are_equal() {
    let j = obj(vec![("k", JsonValue::Array(vec![JsonValue::Float(s("0.5")), JsonValue::Null]))]);
    let c = j.clone();
    assert_eq!(c, j);
    let d = parse(j);
    let e = d.clone();
    match (&d, &e) {
        (ParsedDocument::Object { value: a, .. }, ParsedDocument::Object { value: b, .. }) => {
            assert_eq!(a.len(), b.len());
            assert_eq!(a[0].0, b[0].0);
            assert_eq!(a[0].1.nesting(), b[0].1.nesting());
        },
        _ => panic!("expected objects"),
    }
}
