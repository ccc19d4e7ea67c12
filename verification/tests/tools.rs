use jsonmap::error::DataError;
use jsonmap::query::{run_jq, run_jsonpath};
use jsonmap::redact::anonymize_data;
use jsonmap::token::decode_jwt;
use jsonmap::value::{Entry, Val};

fn entry(key: &str, val: Val) -> Entry {
    Entry { key: key.to_string(), val }
}

fn text(s: &str) -> Val {
    Val::Text(s.to_string())
}

fn num(s: &str) -> Val {
    Val::Num(s.to_string())
}

#[test]
fn test_run_jq_identity() {
    let json = Val::Obj(vec![entry("name", text("test"))]);
    let result = run_jq(".", &json).unwrap();
    assert_eq!(result.get("name"), Some(&text("test")));
}

#[test]
fn test_run_jq_filter() {
    let json = Val::Obj(vec![entry(
        "items",
        Val::Arr(vec![
            Val::Obj(vec![entry("id", num("1"))]),
            Val::Obj(vec![entry("id", num("2"))]),
        ]),
    )]);
    let result = run_jq(".items[].id", &json).unwrap();
    assert!(matches!(result, Val::Arr(_)));
    match &result {
        Val::Arr(items) => {
            assert_eq!(items[0], num("1"));
            assert_eq!(items[1], num("2"));
        },
        _ => unreachable!(),
    }
}

#[test]
fn test_run_jq_bad_filter_is_compile_error() {
    let result = run_jq("((", &Val::Null);
    assert!(matches!(result, Err(DataError::QueryCompileError(_))));
}

#[test]
fn test_run_jq_runtime_error() {
    let result = run_jq(".a", &num("7"));
    assert!(matches!(result, Err(DataError::QueryRuntimeError(_))));
}

#[test]
fn test_run_jq_float_result() {
    let json = Val::Obj(vec![entry("half", num("0.5"))]);
    let result = run_jq(".half", &json).unwrap();
    assert_eq!(result, num("0.5"));
}

#[test]
fn test_run_jsonpath() {
    let json = Val::Obj(vec![entry(
        "user",
        Val::Obj(vec![entry("profile", Val::Obj(vec![entry("name", text("Alex"))]))]),
    )]);
    let result = run_jsonpath("$.user.profile.name", &json).unwrap();
    assert_eq!(result, text("Alex"));
}

#[test]
fn test_run_jsonpath_bad_path() {
    let result = run_jsonpath("$[", &Val::Null);
    assert!(matches!(result, Err(DataError::QueryCompileError(_))));
}

#[test]
fn test_anonymize_data() {
    let json = Val::Obj(vec![
        entry("name", text("Secret User")),
        entry("email", text("private@example.com")),
        entry("other", text("public")),
    ]);
    let result = anonymize_data(&json);
    assert_eq!(result.get("name"), Some(&text("REDACTED")));
    assert_eq!(result.get("email"), Some(&text("XXXX@example.com")));
    assert_eq!(result.get("other"), Some(&text("public")));
}

#[test]
fn test_anonymize_nested_and_uppercase_keys() {
    let json = Val::Obj(vec![entry(
        "meta",
        Val::Obj(vec![entry("PASSWORD", text("hunter2")), entry("TOKEN", text("abc"))]),
    )]);
    let result = anonymize_data(&json);
    let meta = result.get("meta").unwrap();
    assert_eq!(meta.get("PASSWORD"), Some(&text("********")));
    assert_eq!(meta.get("TOKEN"), Some(&text("********")));
}

#[test]
fn test_anonymize_precedence_email_wins() {
    let json = Val::Obj(vec![entry("email_name", text("x"))]);
    let result = anonymize_data(&json);
    assert_eq!(result.get("email_name"), Some(&text("XXXX@example.com")));
}

#[test]
fn test_anonymize_leaves_original_untouched() {
    let json = Val::Obj(vec![entry("name", text("who"))]);
    let _ = anonymize_data(&json);
    assert_eq!(json.get("name"), Some(&text("who")));
}

#[test]
fn test_decode_jwt() {
    let token = "eyJhbGciOiJIUzI1NiIsInR5cCI6IkpXVCJ9.\
                 eyJzdWIiOiIxMjM0NTY3ODkwIiwibmFtZSI6IkpvaG4gRG9lIiwiaWF0IjoxNTE2MjM5MDIyfQ.\
                 SflKxwRJSMeKKF2QT4fwpMeJf36POk6yJV_adQssw5c";
    let token: String = token.split_whitespace().collect();
    let result = decode_jwt(&token).unwrap();
    let header = result.get("header").unwrap();
    assert_eq!(header.get("alg"), Some(&text("HS256")));
    let payload = result.get("payload").unwrap();
    assert_eq!(payload.get("name"), Some(&text("John Doe")));
    assert_eq!(payload.get("iat"), Some(&num("1516239022")));
}

#[test]
fn test_decode_jwt_malformed() {
    let result = decode_jwt("not-a-token");
    assert!(matches!(result, Err(DataError::TokenError(_))));
}
