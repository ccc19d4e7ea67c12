use jsonmap::flatten::flatten_value;
use jsonmap::query::collapse_results;
use jsonmap::recent::update_recent_files;
use jsonmap::value::{Entry, Val};

fn entry(key: &str, val: Val) -> Entry {
    Entry { key: key.to_string(), val }
}

fn text(s: &str) -> Val {
    Val::Text(s.to_string())
}

fn num(s: &str) -> Val {
    Val::Num(s.to_string())
}

#[test]
fn test_flatten_nested_object() {
    let v = Val::Obj(vec![entry(
        "user",
        Val::Obj(vec![entry("name", text("Alex")), entry("age", num("30"))]),
    )]);
    let row = flatten_value(&v, "");
    assert_eq!(row.len(), 2);
    assert_eq!(row[0].key, "user.name");
    assert_eq!(row[0].val, text("Alex"));
    assert_eq!(row[1].key, "user.age");
    assert_eq!(row[1].val, num("30"));
}

#[test]
fn test_flatten_empty_containers_vanish() {
    let v = Val::Obj(vec![
        entry("empty_obj", Val::Obj(vec![])),
        entry("empty_arr", Val::Arr(vec![])),
        entry("kept", num("1.25")),
    ]);
    let row = flatten_value(&v, "");
    assert_eq!(row.len(), 1);
    assert_eq!(row[0].key, "kept");
}

#[test]
fn test_flatten_array_indices() {
    let v = Val::Arr(vec![text("a"), Val::Arr(vec![text("b")])]);
    let row = flatten_value(&v, "");
    assert_eq!(row.len(), 2);
    assert_eq!(row[0].key, "[0]");
    assert_eq!(row[1].key, "[1][0]");
}

#[test]
fn test_collapse_results_single_and_many() {
    assert_eq!(collapse_results(vec![num("1")]), num("1"));
    assert_eq!(
        collapse_results(vec![num("1"), num("2")]),
        Val::Arr(vec![num("1"), num("2")])
    );
    assert_eq!(collapse_results(vec![]), Val::Arr(vec![]));
}

#[test]
fn test_update_recent_files_moves_to_front() {
    let files = vec!["a".to_string(), "b".to_string(), "c".to_string()];
    let updated = update_recent_files(files, "b".to_string());
    assert_eq!(updated, vec!["b".to_string(), "a".to_string(), "c".to_string()]);
}

#[test]
fn test_update_recent_files_caps_at_ten() {
    let files: Vec<String> = (0..12).map(|i| format!("f{}", i)).collect();
    let updated = update_recent_files(files, "new".to_string());
    assert_eq!(updated.len(), 10);
    assert_eq!(updated[0], "new");
    assert_eq!(updated[9], "f8");
}

#[test]
fn test_get_and_duplicate() {
    let v = Val::Obj(vec![entry("k", Val::Arr(vec![Val::Bool(false)]))]);
    let copy = v.duplicate();
    assert_eq!(copy, v);
    assert!(v.get("missing").is_none());
    assert_eq!(num("0").get("k"), None);
}
