use shirase::settings::{lookup, split_key, JsonValue};

fn config_tree() -> JsonValue {
    JsonValue::Object(vec![
        (
            "behavior".to_string(),
            JsonValue::Object(vec![
                ("auto_dismiss_secs".to_string(), JsonValue::Number("5".to_string())),
                ("sound_enabled".to_string(), JsonValue::Bool(true)),
            ]),
        ),
        ("filter".to_string(), JsonValue::Array(vec![JsonValue::Text("x".to_string())])),
        ("theme".to_string(), JsonValue::Text("nord".to_string())),
    ])
}

#[test]
fn split_key_follows_str_split() {
    assert_eq!(split_key("behavior.sound_enabled"), vec!["behavior", "sound_enabled"]);
    assert_eq!(split_key("a..b"), vec!["a", "", "b"]);
    assert_eq!(split_key(""), vec![""]);
    assert_eq!(split_key(".a."), vec!["", "a", ""]);
    assert_eq!(split_key("plain"), vec!["plain"]);
}

#[test]
fn lookup_walks_nested_objects() {
    let tree = config_tree();
    assert!(matches!(lookup(&tree, "behavior.sound_enabled"), Some(JsonValue::Bool(true))));
    assert!(matches!(lookup(&tree, "behavior.auto_dismiss_secs"), Some(JsonValue::Number(n)) if n == "5"));
    assert!(matches!(lookup(&tree, "theme"), Some(JsonValue::Text(t)) if t == "nord"));
    assert!(matches!(lookup(&tree, "behavior"), Some(JsonValue::Object(m)) if m.len() == 2));
}

#[test]
fn lookup_misses_unknown_keys_and_non_objects() {
    let tree = config_tree();
    assert!(lookup(&tree, "behavior.missing").is_none());
    assert!(lookup(&tree, "filter.0").is_none());
    assert!(lookup(&tree, "theme.name").is_none());
    assert!(lookup(&tree, "").is_none());
    assert!(lookup(&tree, "behavior.").is_none());
}
