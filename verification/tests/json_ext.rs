use midtown::json::Json;
use midtown::json_ext::ValueExt;
use midtown::json_text::parse;

fn json(text: &str) -> Json {
    parse(text).unwrap()
}

#[test]
fn json_ext_str_field_returns_string() {
    let v = json(r#"{"name": "alice"}"#);
    assert_eq!(v.str_field("name"), Some("alice"));
    assert_eq!(v.str_field("missing"), None);
}

#[test]
fn json_ext_str_or_returns_default() {
    let v = json(r#"{"name": "alice"}"#);
    assert_eq!(v.str_or("name", "default"), "alice");
    assert_eq!(v.str_or("missing", "default"), "default");
}

#[test]
fn json_ext_u64_field_returns_number() {
    let v = json(r#"{"count": 42}"#);
    assert_eq!(v.u64_field("count"), Some(42));
    assert_eq!(v.u64_field("missing"), None);
}

#[test]
fn json_ext_bool_field_and_bool_or() {
    let v = json(r#"{"active": true}"#);
    assert_eq!(v.bool_field("active"), Some(true));
    assert!(v.bool_or("active", false));
    assert!(!v.bool_or("missing", false));
}

#[test]
fn json_ext_array_and_object_fields() {
    let v = json(r#"{"items": [1, 2], "meta": {"k": "v"}}"#);
    assert!(v.array_field("items").is_some());
    assert!(v.object_field("meta").is_some());
    assert!(v.array_field("missing").is_none());
}

#[test]
fn json_ext_type_mismatch_returns_none() {
    let v = json(r#"{"name": "alice"}"#);
    assert_eq!(v.u64_field("name"), None);
    assert_eq!(v.bool_field("name"), None);
}

#[test]
fn json_ext_tests_str_field_returns_string() {
    let v = json(r#"{"name": "alice"}"#);
    assert_eq!(v.str_field("name"), Some("alice"));
    assert_eq!(v.str_field("missing"), None);
}

#[test]
fn json_ext_tests_str_or_returns_default() {
    let v = json(r#"{"name": "alice"}"#);
    assert_eq!(v.str_or("name", "default"), "alice");
    assert_eq!(v.str_or("missing", "default"), "default");
}

#[test]
fn json_ext_tests_u64_field_returns_number() {
    let v = json(r#"{"count": 42}"#);
    assert_eq!(v.u64_field("count"), Some(42));
    assert_eq!(v.u64_field("missing"), None);
}

#[test]
fn json_ext_tests_bool_field_and_bool_or() {
    let v = json(r#"{"active": true}"#);
    assert_eq!(v.bool_field("active"), Some(true));
    assert!(v.bool_or("active", false));
    assert!(!v.bool_or("missing", false));
}

#[test]
fn json_ext_tests_array_and_object_fields() {
    let v = json(r#"{"items": [1, 2], "meta": {"k": "v"}}"#);
    assert!(v.array_field("items").is_some());
    assert!(v.object_field("meta").is_some());
    assert!(v.array_field("missing").is_none());
}

#[test]
fn json_ext_tests_type_mismatch_returns_none() {
    let v = json(r#"{"name": "alice"}"#);
    assert_eq!(v.u64_field("name"), None);
    assert_eq!(v.bool_field("name"), None);
}
