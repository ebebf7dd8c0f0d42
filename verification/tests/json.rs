use wyoming::event::Event;
use wyoming::json::{JsonMap, JsonNumber, JsonValue};

fn num(n: u64) -> JsonValue {
    JsonValue::Number(JsonNumber::PosInt(n))
}

#[test]
fn maps_compare_by_content() {
    let mut a = JsonMap::new();
    a.insert("rate".to_string(), num(16000));
    a.insert("width".to_string(), num(2));
    a.insert("channels".to_string(), num(1));
    let mut b = JsonMap::new();
    b.insert("channels".to_string(), num(1));
    b.insert("rate".to_string(), num(16000));
    b.insert("width".to_string(), num(2));
    assert_eq!(a, b);
    assert_eq!(Event::new("audio-start").with_data(a.clone()), Event::new("audio-start").with_data(b));
    let mut c = a.clone();
    c.insert("width".to_string(), num(4));
    assert_ne!(a, c);
}

#[test]
fn map_insert_get_remove() {
    let mut m = JsonMap::new();
    assert!(m.is_empty());
    assert_eq!(m.insert("b".to_string(), JsonValue::Bool(true)), None);
    assert_eq!(m.insert("a".to_string(), JsonValue::Null), None);
    assert_eq!(m.insert("ab".to_string(), JsonValue::Str("x".to_string())), None);
    assert_eq!(m.len(), 3);
    assert_eq!(m.insert("b".to_string(), JsonValue::Bool(false)), Some(JsonValue::Bool(true)));
    assert_eq!(m.len(), 3);
    assert_eq!(m.get("b"), Some(&JsonValue::Bool(false)));
    assert!(m.contains_key("ab"));
    assert_eq!(m.remove("a"), Some(JsonValue::Null));
    assert_eq!(m.remove("a"), None);
    assert_eq!(m.len(), 2);
    assert_eq!(m.get("zz"), None);
}

#[test]
fn extend_lets_the_other_object_win() {
    let mut a = JsonMap::new();
    a.insert("a".to_string(), JsonValue::Number(JsonNumber::PosInt(1)));
    a.insert("b".to_string(), JsonValue::Number(JsonNumber::PosInt(2)));
    let mut b = JsonMap::new();
    b.insert("b".to_string(), JsonValue::Number(JsonNumber::PosInt(99)));
    b.insert("c".to_string(), JsonValue::Number(JsonNumber::PosInt(3)));
    a.extend(b);
    assert_eq!(a.len(), 3);
    assert_eq!(a.get("a").and_then(|v| v.as_u64()), Some(1));
    assert_eq!(a.get("b").and_then(|v| v.as_u64()), Some(99));
    assert_eq!(a.get("c").and_then(|v| v.as_u64()), Some(3));
}
