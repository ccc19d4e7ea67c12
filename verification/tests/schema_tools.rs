use jsonmap::error::DataError;
use jsonmap::schema::{generate_mock_data, generate_schema, validate_json_schema};
use jsonmap::value::{Entry, Val};

fn entry(key: &str, val: Val) -> Entry {
    Entry { key: key.to_string(), val }
}

fn text(s: &str) -> Val {
    Val::Text(s.to_string())
}

fn num(s: &str) -> Val {
    Val::Num(s.to_string())
}

fn sample() -> Val {
    Val::Obj(vec![entry("name", text("test")), entry("age", num("25"))])
}

fn type_of<'a>(schema: &'a Val) -> Option<&'a Val> {
    schema.get("type")
}

#[test]
fn test_infer_schema() {
    let schema = generate_schema(&sample());
    assert_eq!(type_of(&schema), Some(&text("object")));
    let props = schema.get("properties").unwrap();
    assert_eq!(type_of(props.get("name").unwrap()), Some(&text("string")));
    assert_eq!(type_of(props.get("age").unwrap()), Some(&text("number")));
}

#[test]
fn test_infer_schema_array_samples_first_element() {
    let v = Val::Arr(vec![num("1"), text("two")]);
    let schema = generate_schema(&v);
    assert_eq!(type_of(&schema), Some(&text("array")));
    assert_eq!(type_of(schema.get("items").unwrap()), Some(&text("number")));
}

#[test]
fn test_infer_schema_empty_array_has_no_items() {
    let schema = generate_schema(&Val::Arr(vec![]));
    assert_eq!(type_of(&schema), Some(&text("array")));
    assert!(schema.get("items").is_none());
}

#[test]
fn test_mock_data_is_deterministic() {
    let schema = Val::Obj(vec![
        entry("type", text("object")),
        entry(
            "properties",
            Val::Obj(vec![
                entry("id", Val::Obj(vec![entry("type", text("number"))])),
                entry("name", Val::Obj(vec![entry("type", text("string"))])),
                entry("ok", Val::Obj(vec![entry("type", text("boolean"))])),
            ]),
        ),
    ]);
    let mock = generate_mock_data(&schema);
    assert_eq!(mock.get("id"), Some(&num("42")));
    assert_eq!(mock.get("name"), Some(&text("mock_string")));
    assert_eq!(mock.get("ok"), Some(&Val::Bool(true)));
}

#[test]
fn test_mock_without_recognized_type_is_null() {
    assert_eq!(generate_mock_data(&Val::Obj(vec![entry("type", text("whatever"))])), Val::Null);
    assert_eq!(generate_mock_data(&num("3")), Val::Null);
}

#[test]
fn test_mock_shape_round_trip() {
    let schema = generate_schema(&Val::Obj(vec![
        entry("xs", Val::Arr(vec![num("1.5")])),
        entry("who", text("me")),
    ]));
    let mock = generate_mock_data(&schema);
    assert_eq!(generate_schema(&mock), schema);
}

#[test]
fn test_value_conforms_to_inferred_schema() {
    let v = sample();
    let schema = generate_schema(&v);
    let violations = validate_json_schema(&v, &schema).unwrap();
    assert!(violations.is_empty());
}

#[test]
fn test_validation_reports_violations() {
    let schema = Val::Obj(vec![entry("type", text("string"))]);
    let violations = validate_json_schema(&num("5"), &schema).unwrap();
    assert!(!violations.is_empty());
}

#[test]
fn test_bad_schema_is_compile_error() {
    let schema = Val::Obj(vec![entry("type", text("not-a-type"))]);
    let result = validate_json_schema(&Val::Null, &schema);
    assert!(matches!(result, Err(DataError::SchemaCompileError(_))));
}
