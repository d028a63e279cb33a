use datagen::schema::{parse_schema, FieldType, Schema, SchemaError};

fn fields_of(s: &Schema) -> Vec<(String, FieldType)> {
    s.fields.clone()
}

#[test]
fn empty_object_is_an_empty_schema() {
    let s = parse_schema("{}").unwrap();
    assert_eq!(s.fields.len(), 0);
    let s = parse_schema("  { \t\r\n }  ").unwrap();
    assert_eq!(s.fields.len(), 0);
}

#[test]
fn simple_schema_keeps_textual_order() {
    let s = parse_schema("{\"id\":\"int\",\"ok\":\"bool\"}").unwrap();
    let f = fields_of(&s);
    assert_eq!(f.len(), 2);
    assert_eq!(f[0].0, "id");
    assert_eq!(f[0].1, FieldType::Integer);
    assert_eq!(f[1].0, "ok");
    assert_eq!(f[1].1, FieldType::Boolean);
}

#[test]
fn all_five_tags_and_an_unknown_tag() {
    let text = "{\"a\":\"string\",\"b\":\"int\",\"c\":\"bool\",\"d\":\"status\",\"e\":\"date\",\"f\":\"unknown\"}";
    let s = parse_schema(text).unwrap();
    let f = fields_of(&s);
    assert_eq!(f[0].1, FieldType::Text);
    assert_eq!(f[1].1, FieldType::Integer);
    assert_eq!(f[2].1, FieldType::Boolean);
    assert_eq!(f[3].1, FieldType::Status);
    assert_eq!(f[4].1, FieldType::Timestamp);
    assert_eq!(f[5].1, FieldType::Unknown);
}

#[test]
fn whitespace_around_members_is_ignored() {
    let s = parse_schema(" { \"a\" : \"int\" , \"b\" : \"bool\" } ").unwrap();
    let f = fields_of(&s);
    assert_eq!(f.len(), 2);
    assert_eq!(f[0].0, "a");
    assert_eq!(f[1].0, "b");
}

#[test]
fn duplicate_name_keeps_first_position_and_last_type() {
    let s = parse_schema("{\"a\":\"int\",\"b\":\"bool\",\"a\":\"string\"}").unwrap();
    let f = fields_of(&s);
    assert_eq!(f.len(), 2);
    assert_eq!(f[0].0, "a");
    assert_eq!(f[0].1, FieldType::Text);
    assert_eq!(f[1].0, "b");
}

#[test]
fn escapes_in_names_are_decoded() {
    let s = parse_schema("{\"\\u0041\\n\\\"\\\\\":\"int\"}").unwrap();
    let f = fields_of(&s);
    assert_eq!(f[0].0, "A\n\"\\");
}

#[test]
fn surrogate_pair_escape_is_one_character() {
    let s = parse_schema("{\"\\ud83d\\ude00\":\"int\"}").unwrap();
    let f = fields_of(&s);
    assert_eq!(f[0].0, "\u{1f600}");
}

#[test]
fn lone_surrogate_is_rejected() {
    assert!(matches!(parse_schema("{\"\\ud83d\":\"int\"}"), Err(SchemaError::Malformed)));
    assert!(matches!(parse_schema("{\"\\ude00x\":\"int\"}"), Err(SchemaError::Malformed)));
}

#[test]
fn non_object_texts_are_rejected() {
    assert!(parse_schema("").is_err());
    assert!(parse_schema("[1,2]").is_err());
    assert!(parse_schema("\"a\"").is_err());
    assert!(parse_schema("null").is_err());
}

#[test]
fn non_string_values_are_rejected() {
    assert!(parse_schema("{\"a\":1}").is_err());
    assert!(parse_schema("{\"a\":true}").is_err());
    assert!(parse_schema("{\"a\":{\"b\":\"int\"}}").is_err());
    assert!(parse_schema("{\"a\":[\"int\"]}").is_err());
}

#[test]
fn malformed_syntax_is_rejected() {
    assert!(parse_schema("{").is_err());
    assert!(parse_schema("{\"a\":\"int\"").is_err());
    assert!(parse_schema("{\"a\" \"int\"}").is_err());
    assert!(parse_schema("{\"a\":\"int\",}").is_err());
    assert!(parse_schema("{\"a\":\"int\"} x").is_err());
    assert!(parse_schema("{\"a\":\"unterminated}").is_err());
    assert!(parse_schema("{\"a\":\"bad\\q\"}").is_err());
    assert!(parse_schema("{\"a\u{1}\":\"int\"}").is_err());
}

#[test]
fn error_message_names_the_expected_shape() {
    let e = parse_schema("not json").unwrap_err();
    assert_eq!(e.message(), "invalid schema: expected a JSON object of type-tag strings");
}

#[test]
fn accepts_what_the_reference_json_parser_accepts_here() {
    let texts = [
        "{\"id\":\"int\",\"ok\":\"bool\"}",
        "{ \"x\" : \"status\" }",
        "{}",
        "{\"\\t\\u00e9\":\"date\"}",
    ];
    for t in texts {
        let v: serde_json::Value = serde_json::from_str(t).unwrap();
        assert!(v.is_object());
        assert!(parse_schema(t).is_ok());
    }
}
