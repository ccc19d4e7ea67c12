use jsonmap::error::DataError;
use jsonmap::formats::{convert_format, parse_content, serialize_value};
use jsonmap::value::{Entry, Val};

fn entry(key: &str, val: Val) -> Entry {
    Entry { key: key.to_string(), val }
}

fn num(s: &str) -> Val {
    Val::Num(s.to_string())
}

#[test]
fn test_convert_json_to_yaml() {
    let content = r#"{"name": "test"}"#;
    let result = convert_format(content, "json", "yaml").unwrap();
    assert!(result.contains("name: test"));
}

#[test]
fn test_convert_yaml_to_json() {
    let content = "name: test";
    let result = convert_format(content, "yaml", "json").unwrap();
    assert!(result.contains(r#""name": "test""#));
}

#[test]
fn test_convert_json_to_csv() {
    let content =
        r#"[{"user": {"name": "Alex", "age": 30}}, {"user": {"name": "Bob", "age": 25}}]"#;
    let result = convert_format(content, "json", "csv").unwrap();
    assert!(result.contains("user.age,user.name"));
    assert!(result.contains("30,Alex"));
    assert!(result.contains("25,Bob"));
}

#[test]
fn test_convert_json_to_csv_exact() {
    let content =
        r#"[{"user": {"name": "Alex", "age": 30}}, {"user": {"name": "Bob", "age": 25}}]"#;
    let result = convert_format(content, "json", "csv").unwrap();
    assert_eq!(result, "user.age,user.name\n30,Alex\n25,Bob\n");
}

#[test]
fn test_convert_unsupported_target() {
    let result = convert_format("{}", "json", "protobuf");
    assert!(matches!(result, Err(DataError::UnsupportedFormat(f)) if f == "protobuf"));
}

#[test]
fn test_json_round_trip() {
    let v = Val::Obj(vec![
        entry("name", Val::Text("test".to_string())),
        entry("count", num("-7")),
        entry("ratio", num("2.25")),
        entry("flags", Val::Arr(vec![Val::Bool(true), Val::Null])),
        entry("nested", Val::Obj(vec![entry("k", Val::Text("v".to_string()))])),
    ]);
    let text = serialize_value(&v, "json").unwrap();
    let back = parse_content(&text, "json").unwrap();
    assert_eq!(back, v);
}

#[test]
fn test_csv_negative_number_cell() {
    let result = convert_format(r#"[{"a": -5}]"#, "json", "csv").unwrap();
    assert_eq!(result, "a\n-5\n");
}

#[test]
fn test_csv_float_cell() {
    let result = convert_format(r#"[{"a": 1.5}]"#, "json", "csv").unwrap();
    assert_eq!(result, "a\n1.5\n");
}

#[test]
fn test_float_round_trip() {
    let text = convert_format(r#"{"x": 0.125}"#, "json", "json").unwrap();
    let back = parse_content(&text, "json").unwrap();
    assert_eq!(back.get("x"), Some(&num("0.125")));
}

#[test]
fn test_csv_array_paths() {
    let result = convert_format(r#"[{"xs": [10, 11]}]"#, "json", "csv").unwrap();
    assert_eq!(result, "xs[0],xs[1]\n10,11\n");
}
