use ollama_gui::json::JsonValue;

fn sample() -> JsonValue {
    JsonValue::Object(vec![
        ("a".to_string(), JsonValue::Bool(true)),
        ("b".to_string(), JsonValue::Number(Some(3))),
        ("c".to_string(), JsonValue::Text("text".to_string())),
        ("d".to_string(), JsonValue::Array(vec![JsonValue::Null])),
        ("a".to_string(), JsonValue::Bool(false)),
    ])
}

#[test]
fn json_get_finds_the_first_member_with_the_key() {
    let document = sample();
    assert_eq!(document.get("a"), Some(&JsonValue::Bool(true)));
    assert_eq!(document.get("c"), Some(&JsonValue::Text("text".to_string())));
    assert_eq!(document.get("missing"), None);
    assert_eq!(document.get(""), None);
}

#[test]
fn json_get_on_what_is_no_object_finds_nothing() {
    assert_eq!(JsonValue::Null.get("a"), None);
    assert_eq!(JsonValue::Array(vec![JsonValue::Bool(true)]).get("a"), None);
    assert_eq!(JsonValue::Text("a".to_string()).get("a"), None);
}

#[test]
fn json_readers_answer_for_their_own_kind_only() {
    assert_eq!(JsonValue::Bool(false).as_bool(), Some(false));
    assert_eq!(JsonValue::Number(Some(1)).as_bool(), None);
    assert_eq!(JsonValue::Number(Some(8)).as_u64(), Some(8));
    assert_eq!(JsonValue::Number(None).as_u64(), None);
    assert_eq!(JsonValue::Text("8".to_string()).as_u64(), None);
    assert_eq!(JsonValue::Text("s".to_string()).as_str(), Some("s"));
    assert_eq!(JsonValue::Null.as_str(), None);
    assert_eq!(JsonValue::Array(vec![]).as_array(), Some(&vec![]));
    assert_eq!(JsonValue::Object(vec![]).as_array(), None);
}
