use deck_creator::value::{Entry, Value};

fn text(s: &str) -> Value {
    Value::String(s.to_string())
}

fn entry(key: &str, value: Value) -> Entry {
    Entry { key: key.to_string(), value }
}

fn sheep() -> Value {
    Value::Mapping(vec![
        entry("name", text("Sheep")),
        entry("stats", Value::Sequence(vec![Value::Number("1".to_string()), Value::Number("1".to_string())])),
        entry("uncollectible", Value::Bool(true)),
        entry("tribe", Value::Null),
        entry("name", text("Second")),
    ])
}

#[test]
fn get_finds_the_first_entry_under_a_key() {
    assert_eq!(sheep().get("name"), Some(&text("Sheep")));
    assert_eq!(sheep().get("tribe"), Some(&Value::Null));
}

#[test]
fn get_is_none_for_a_missing_key() {
    assert_eq!(sheep().get("mana"), None);
    assert_eq!(sheep().get(""), None);
    assert_eq!(sheep().get("nam"), None);
}

#[test]
fn get_is_none_on_what_is_no_mapping() {
    assert_eq!(text("name").get("name"), None);
    assert_eq!(Value::Null.get("name"), None);
    assert_eq!(Value::Sequence(vec![sheep()]).get("name"), None);
}

#[test]
fn as_str_and_as_bool_go_by_the_variant() {
    assert_eq!(text("x").as_str(), Some("x"));
    assert_eq!(Value::Number("1".to_string()).as_str(), None);
    assert_eq!(Value::Bool(false).as_bool(), Some(false));
    assert_eq!(text("true").as_bool(), None);
}

#[test]
fn get_str_needs_a_string_field() {
    assert_eq!(sheep().get_str("name"), Some("Sheep"));
    assert_eq!(sheep().get_str("uncollectible"), None);
    assert_eq!(sheep().get_str("mana"), None);
}

#[test]
fn get_bool_or_falls_back_on_absence_and_mismatch() {
    assert!(sheep().get_bool_or("uncollectible", false));
    assert!(!sheep().get_bool_or("name", false));
    assert!(sheep().get_bool_or("name", true));
    assert!(!sheep().get_bool_or("mana", false));
}

#[test]
fn duplicate_is_a_deep_copy() {
    let card = sheep();
    assert_eq!(card.duplicate(), card);
    assert_eq!(card.clone(), card);
    assert_eq!(Value::Null.duplicate(), Value::Null);
}
