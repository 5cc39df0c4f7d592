use chord::pattern::{id_valid, task_id_valid};
use chord::text;
use chord::text::{char_index_at_byte, contains, ends_with, starts_with, trim, u64_to_string};
use chord::value::{JsonMap, Number, Value};

fn s(t: &str) -> Value {
    Value::String(t.to_string())
}

#[test]
fn map_insert_get_remove() {
    let mut m = JsonMap::new();
    m.insert("a".to_string(), s("1"));
    m.insert("b".to_string(), s("2"));
    m.insert("a".to_string(), s("3"));
    assert_eq!(m.len(), 2);
    assert_eq!(m.get("a"), Some(&s("3")));
    assert_eq!(m.keys(), vec!["a", "b"]);
    m.remove("a");
    assert_eq!(m.get("a"), None);
    assert_eq!(m.get("b"), Some(&s("2")));
    assert_eq!(m.keys(), vec!["b"]);
}

#[test]
fn value_accessors() {
    let v = Value::Object(JsonMap { entries: vec![("n".to_string(), Value::Number(Number::PosInt(4)))] });
    assert_eq!(v.get("n").and_then(|x| x.as_u64()), Some(4));
    assert_eq!(v.get("m"), None);
    assert_eq!(s("x").as_str(), Some("x"));
    assert_eq!(Value::Bool(true).as_bool(), Some(true));
    assert!(Value::Null.is_null());
    assert_eq!(v.deep_clone(), v);
    assert_eq!(Number::PosInt(u64::MAX).as_i64(), None);
    assert_eq!(Number::NegInt(-3).as_i64(), Some(-3));
    assert_eq!(Number::from_i64(-2), Number::NegInt(-2));
    assert_eq!(Number::from_i64(2), Number::PosInt(2));
}

#[test]
fn text_operations() {
    assert_eq!(trim("  a b \n"), "a b");
    assert_eq!(trim("\u{3000}x\u{a0}"), "x");
    assert_eq!(u64_to_string(0), "0");
    assert_eq!(u64_to_string(1203), "1203");
    assert_eq!(u64_to_string(u64::MAX), u64::MAX.to_string());
    assert!(contains("hello world", "o w"));
    assert!(!contains("hello", "z"));
    assert!(contains("hello", ""));
    assert!(starts_with("{{num x}}", "{{"));
    assert!(ends_with("{{num x}}", "}}"));
    assert_eq!(text::concat("a", "b"), "ab");
}

#[test]
fn char_positions_of_bytes() {
    assert_eq!(char_index_at_byte("héllo", 0), Some(0));
    assert_eq!(char_index_at_byte("héllo", 1), Some(1));
    assert_eq!(char_index_at_byte("héllo", 2), None);
    assert_eq!(char_index_at_byte("héllo", 3), Some(2));
    assert_eq!(char_index_at_byte("héllo", 6), Some(5));
    assert_eq!(char_index_at_byte("héllo", 7), None);
}

#[test]
fn id_patterns() {
    assert!(id_valid("step_1"));
    assert!(!id_valid("a-b"));
    assert!(!id_valid(""));
    assert!(id_valid(&"a".repeat(50)));
    assert!(!id_valid(&"a".repeat(51)));
    assert!(task_id_valid(&"a".repeat(51)));
    assert!(!task_id_valid("a.b"));
}

#[test]
fn map_laws_on_values() {
    let mut m = JsonMap::new();
    m.insert("k".to_string(), s("v"));
    m.insert("o".to_string(), s("w"));
    m.insert("k".to_string(), s("x"));
    assert_eq!(m.get("k"), Some(&s("x")));
    assert_eq!(m.get("o"), Some(&s("w")));
    m.remove("k");
    assert_eq!(m.get("k"), None);
    assert_eq!(m.get("o"), Some(&s("w")));
}
