use jsonmap::error::DataError;
use jsonmap::formats::parse_content;
use jsonmap::value::Val;

fn text(s: &str) -> Val {
    Val::Text(s.to_string())
}

fn num(s: &str) -> Val {
    Val::Num(s.to_string())
}

#[test]
fn test_parse_json() {
    let content = r#"{"name": "test", "value": 123}"#;
    let result = parse_content(content, "json").unwrap();
    assert_eq!(result.get("name"), Some(&text("test")));
    assert_eq!(result.get("value"), Some(&num("123")));
}

#[test]
fn test_parse_yaml() {
    let content = "name: test\nvalue: 123";
    let result = parse_content(content, "yaml").unwrap();
    assert_eq!(result.get("name"), Some(&text("test")));
    assert_eq!(result.get("value"), Some(&num("123")));
}

#[test]
fn test_parse_xml() {
    let content = "<root><name>test</name></root>";
    let result = parse_content(content, "xml");
    assert!(result.is_ok());
}

#[test]
fn test_parse_csv() {
    let content = "name,value\ntest,123";
    let result = parse_content(content, "csv").unwrap();
    assert!(matches!(result, Val::Arr(_)));
    let first = match &result {
        Val::Arr(rows) => &rows[0],
        _ => unreachable!(),
    };
    assert_eq!(first.get("name"), Some(&text("test")));
    if matches!(first.get("value"), Some(Val::Num(_))) {
        assert_eq!(first.get("value"), Some(&num("123")));
    } else {
        assert_eq!(first.get("value"), Some(&text("123")));
    }
}

#[test]
fn test_parse_toml() {
    let content = "name = 'test'\nvalue = 123";
    let result = parse_content(content, "toml").unwrap();
    assert_eq!(result.get("name"), Some(&text("test")));
    assert_eq!(result.get("value"), Some(&num("123")));
}

#[test]
fn test_invalid_format() {
    let result = parse_content("{}", "unknown");
    assert!(result.is_err());
    assert!(matches!(result, Err(DataError::UnsupportedFormat(f)) if f == "unknown"));
}

#[test]
fn test_parse_format_case_insensitive() {
    let result = parse_content("{\"a\": 1}", "JSON").unwrap();
    assert_eq!(result.get("a"), Some(&num("1")));
}

#[test]
fn test_parse_float_and_big_numbers() {
    let content = r#"{"ratio": 1.5, "big": 18446744073709551615, "neg": -2}"#;
    let result = parse_content(content, "json").unwrap();
    assert_eq!(result.get("ratio"), Some(&num("1.5")));
    assert_eq!(result.get("big"), Some(&num("18446744073709551615")));
    assert_eq!(result.get("neg"), Some(&num("-2")));
}

#[test]
fn test_parse_bad_json_is_format_error() {
    let result = parse_content("{oops", "json");
    assert!(matches!(result, Err(DataError::FormatError(_))));
}
