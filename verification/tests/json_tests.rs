use avatar_core::json::{find_member, parse_i64_text, Json};

fn obj(fields: Vec<(&str, Json)>) -> Json {
    Json::Object(fields.into_iter().map(|(k, v)| (k.to_string(), v)).collect())
}

#[test]
fn compact_text_matches_serde_json() {
    let j = obj(vec![
        ("a", Json::Number("1".to_string())),
        ("b", Json::Array(vec![Json::Bool(true), Json::Null, Json::Str("x\"y\n".to_string())])),
        ("c", obj(vec![])),
    ]);
    let text = j.to_json_string();
    assert_eq!(text, r#"{"a":1,"b":[true,null,"x\"y\n"],"c":{}}"#);
    let reparsed: serde_json::Value = serde_json::from_str(&text).unwrap();
    assert_eq!(reparsed.to_string(), text);
}

#[test]
fn control_characters_are_escaped() {
    let j = Json::Str("\u{1}\t\\".to_string());
    assert_eq!(j.to_json_string(), "\"\\u0001\\t\\\\\"");
    assert_eq!(serde_json::to_string("\u{1}\t\\").unwrap(), j.to_json_string());
}

#[test]
fn member_lookup() {
    let j = obj(vec![("path", Json::Str("notepad".to_string())), ("level", Json::Number("80".to_string()))]);
    assert_eq!(j.get_str("path"), Some("notepad"));
    assert_eq!(j.get_str("level"), None);
    assert_eq!(j.get_i64("level"), Some(80));
    assert_eq!(j.get_i64("missing"), None);
    assert!(j.get("path").is_some());
    assert_eq!(Json::Null.get("path"), None);
    if let Json::Object(fields) = &j {
        assert_eq!(find_member(fields, "level"), Some(1));
        assert_eq!(find_member(fields, "nope"), None);
    }
}

#[test]
fn integer_texts() {
    let t = |s: &str| parse_i64_text(&s.chars().collect());
    assert_eq!(t("42"), Some(42));
    assert_eq!(t("-9223372036854775808"), Some(i64::MIN));
    assert_eq!(t("9223372036854775807"), Some(i64::MAX));
    assert_eq!(t("9223372036854775808"), None);
    assert_eq!(t("1.5"), None);
    assert_eq!(t("1e3"), None);
    assert_eq!(Json::Number("2.0".to_string()).as_i64(), None);
}
