use orchestra::json::{JsonMember, JsonValue};

#[test]
fn parse_reads_every_kind_of_document() {
    assert_eq!(JsonValue::parse("null"), Some(JsonValue::Null));
    assert_eq!(JsonValue::parse("true"), Some(JsonValue::Bool(true)));
    assert_eq!(JsonValue::parse("12"), Some(JsonValue::Number("12".to_string())));
    assert_eq!(JsonValue::parse("-3"), Some(JsonValue::Number("-3".to_string())));
    assert_eq!(JsonValue::parse("1.5"), Some(JsonValue::Number("1.5".to_string())));
    assert_eq!(JsonValue::parse("\"a\\nb\""), Some(JsonValue::String("a\nb".to_string())));
    assert_eq!(
        JsonValue::parse("[1, \"x\", null]"),
        Some(JsonValue::Array(vec![
            JsonValue::Number("1".to_string()),
            JsonValue::String("x".to_string()),
            JsonValue::Null,
        ]))
    );
    assert_eq!(
        JsonValue::parse("{\"a\": {\"b\": []}}"),
        Some(JsonValue::object(vec![JsonMember::new(
            "a",
            JsonValue::object(vec![JsonMember::new("b", JsonValue::array(vec![]))]),
        )]))
    );
}

#[test]
fn parse_refuses_what_is_no_json() {
    assert_eq!(JsonValue::parse(""), None);
    assert_eq!(JsonValue::parse("{"), None);
    assert_eq!(JsonValue::parse("not json"), None);
    assert_eq!(JsonValue::parse("{} trailing"), None);
    assert_eq!(JsonValue::parse("{'a': 1}"), None);
}

#[test]
fn parse_refuses_documents_nested_too_deeply() {
    let deep = format!("{}{}", "[".repeat(200), "]".repeat(200));
    assert_eq!(JsonValue::parse(&deep), None);
    let fine = format!("{}{}", "[".repeat(100), "]".repeat(100));
    assert!(JsonValue::parse(&fine).is_some());
}

#[test]
fn text_is_compact_json() {
    assert_eq!(JsonValue::Null.to_text(), "null");
    assert_eq!(JsonValue::Bool(false).to_text(), "false");
    assert_eq!(JsonValue::number(42).to_text(), "42");
    assert_eq!(JsonValue::Number("-1.25".to_string()).to_text(), "-1.25");
    assert_eq!(JsonValue::string("a\"b").to_text(), "\"a\\\"b\"");
    assert_eq!(
        JsonValue::array(vec![JsonValue::number(1), JsonValue::Null]).to_text(),
        "[1,null]"
    );
    assert_eq!(
        JsonValue::object(vec![
            JsonMember::new("b", JsonValue::number(2)),
            JsonMember::new("a", JsonValue::string("x")),
        ])
        .to_text(),
        "{\"a\":\"x\",\"b\":2}"
    );
}

#[test]
fn a_number_that_is_none_is_written_as_null() {
    assert_eq!(JsonValue::Number("twelve".to_string()).to_text(), "null");
}

#[test]
fn text_round_trips_through_parse() {
    let value = JsonValue::object(vec![
        JsonMember::new("args", JsonValue::array(vec![JsonValue::string("-la"), JsonValue::string("/safe/path")])),
        JsonMember::new("command", JsonValue::string("ls")),
        JsonMember::new("count", JsonValue::number(3)),
        JsonMember::new("flag", JsonValue::Bool(true)),
        JsonMember::new("nothing", JsonValue::Null),
    ]);
    assert_eq!(JsonValue::parse(&value.to_text()), Some(value));
}

#[test]
fn get_reads_members_of_objects_only() {
    let value = JsonValue::parse("{\"type\": \"text\", \"n\": 1}").unwrap();
    assert_eq!(value.get("type"), Some(&JsonValue::String("text".to_string())));
    assert_eq!(value.get("n"), Some(&JsonValue::Number("1".to_string())));
    assert_eq!(value.get("missing"), None);
    assert_eq!(value.get_str("type"), Some("text"));
    assert_eq!(value.get_str("n"), None);
    assert_eq!(JsonValue::string("type").get("type"), None);
    assert_eq!(JsonValue::array(vec![]).get("0"), None);
}

#[test]
fn of_two_members_with_one_key_the_last_is_read() {
    let value = JsonValue::object(vec![
        JsonMember::new("k", JsonValue::number(1)),
        JsonMember::new("k", JsonValue::number(2)),
    ]);
    assert_eq!(value.get("k"), Some(&JsonValue::number(2)));
    assert_eq!(value.to_text(), "{\"k\":2}");
    assert_eq!(JsonValue::parse("{\"k\":1,\"k\":2}").unwrap().get("k"), Some(&JsonValue::number(2)));
}

#[test]
fn accessors_tell_strings_and_arrays_apart() {
    assert_eq!(JsonValue::string("s").as_str(), Some("s"));
    assert_eq!(JsonValue::Null.as_str(), None);
    assert_eq!(JsonValue::number(1).as_str(), None);
    let array = JsonValue::array(vec![JsonValue::Null]);
    assert_eq!(array.as_array().map(|items| items.len()), Some(1));
    assert!(JsonValue::string("s").as_array().is_none());
}

#[test]
fn copies_are_equal_to_what_they_copy() {
    let value = JsonValue::parse("{\"a\":[1,{\"b\":\"c\"},null,true],\"d\":\"e\"}").unwrap();
    assert_eq!(value.duplicate(), value);
    assert_eq!(value.clone(), value);
}
