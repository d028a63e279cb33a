use datagen::json::{serialize_record, JsonValue};
use datagen::payload::{generate_fixed_record, generate_fixed_log, generate_log, generate_record, generate_value};
use datagen::schema::{parse_schema, FieldType};
use datagen::timefmt::format_timestamp;

const FIXED_NAMES: [&str; 8] = [
    "Alice", "Bob", "Carol", "Dave", "Erin", "Frank", "Grace", "Heidi",
];

#[test]
fn fixed_record_fields_are_in_range() {
    for t in [0u64, 1, 1700000000] {
        let r = generate_fixed_record(t);
        assert_eq!(r.len(), 4);
        assert_eq!(r[0].0, "id");
        assert_eq!(r[0].1, JsonValue::Int(t));
        assert_eq!(r[1].0, "name");
        match &r[1].1 {
            JsonValue::Str(n) => assert!(FIXED_NAMES.contains(&n.as_str())),
            v => panic!("name was {:?}", v),
        }
        assert_eq!(r[2].0, "clicks");
        match &r[2].1 {
            JsonValue::Int(c) => assert!((1..=40).contains(c)),
            v => panic!("clicks was {:?}", v),
        }
        assert_eq!(r[3].0, "timestamp");
        match &r[3].1 {
            JsonValue::Str(ts) => assert_eq!(*ts, format_timestamp(t)),
            v => panic!("timestamp was {:?}", v),
        }
    }
}

#[test]
fn fixed_identifiers_do_not_decrease_over_time() {
    let mut previous = 0u64;
    for t in [5u64, 6, 6, 100, 1700000000] {
        let r = generate_fixed_record(t);
        match r[0].1 {
            JsonValue::Int(id) => {
                assert!(id >= previous);
                previous = id;
            },
            _ => panic!("identifier was not an integer"),
        }
    }
}

#[test]
fn fixed_log_is_a_json_object_with_the_fixed_keys() {
    let s = generate_fixed_log(1234567890);
    let v: serde_json::Value = serde_json::from_str(&s).unwrap();
    let obj = v.as_object().unwrap();
    let mut keys: Vec<&str> = obj.keys().map(|k| k.as_str()).collect();
    keys.sort();
    assert_eq!(keys, ["clicks", "id", "name", "timestamp"]);
    assert!(s.starts_with("{\"id\":"));
    assert_eq!(obj["id"], serde_json::Value::from(1234567890u64));
    assert_eq!(obj["timestamp"], serde_json::Value::from("2009-02-13T23:31:30Z"));
}

#[test]
fn string_values_have_ten_alphanumeric_characters() {
    for _ in 0..200 {
        match generate_value(&FieldType::Text, 0) {
            JsonValue::Str(s) => {
                assert_eq!(s.chars().count(), 10);
                assert!(s.chars().all(|c| c.is_ascii_alphanumeric()));
            },
            v => panic!("string field was {:?}", v),
        }
    }
}

#[test]
fn integer_values_stay_in_range() {
    for _ in 0..200 {
        match generate_value(&FieldType::Integer, 0) {
            JsonValue::Int(n) => assert!((1..=1000).contains(&n)),
            v => panic!("integer field was {:?}", v),
        }
    }
}

#[test]
fn boolean_values_cover_both_sides() {
    let mut saw_true = false;
    let mut saw_false = false;
    for _ in 0..500 {
        match generate_value(&FieldType::Boolean, 0) {
            JsonValue::Bool(true) => saw_true = true,
            JsonValue::Bool(false) => saw_false = true,
            v => panic!("boolean field was {:?}", v),
        }
    }
    assert!(saw_true && saw_false);
}

#[test]
fn status_values_come_from_the_three_words() {
    let mut seen = [false; 3];
    for _ in 0..500 {
        match generate_value(&FieldType::Status, 0) {
            JsonValue::Str(s) => match s.as_str() {
                "SUCCESS" => seen[0] = true,
                "FAIL" => seen[1] = true,
                "PENDING" => seen[2] = true,
                w => panic!("status was {:?}", w),
            },
            v => panic!("status field was {:?}", v),
        }
    }
    assert!(seen.iter().all(|s| *s));
}

#[test]
fn timestamp_values_are_the_generation_time() {
    assert_eq!(generate_value(&FieldType::Timestamp, 42), JsonValue::Int(42));
}

#[test]
fn unknown_types_degrade_to_null_without_failing() {
    assert_eq!(generate_value(&FieldType::Unknown, 0), JsonValue::Null);
    let schema = parse_schema("{\"x\":\"unknown\"}").unwrap();
    assert_eq!(generate_log(&schema, 0), "{\"x\":null}");
}

#[test]
fn one_hundred_records_match_the_two_field_schema() {
    let schema = parse_schema("{\"id\":\"int\",\"ok\":\"bool\"}").unwrap();
    for _ in 0..100 {
        let text = generate_log(&schema, 0);
        let v: serde_json::Value = serde_json::from_str(&text).unwrap();
        let obj = v.as_object().unwrap();
        assert_eq!(obj.len(), 2);
        let id = obj.get("id").unwrap().as_u64().unwrap();
        assert!((1..=1000).contains(&id));
        assert!(obj.get("ok").unwrap().is_boolean());
    }
}

#[test]
fn records_follow_schema_order_and_types() {
    let schema = parse_schema("{\"a\":\"date\",\"b\":\"status\"}").unwrap();
    let r = generate_record(&schema, 77);
    assert_eq!(r.len(), 2);
    assert_eq!(r[0].0, "a");
    assert_eq!(r[0].1, JsonValue::Int(77));
    assert_eq!(r[1].0, "b");
    assert!(matches!(&r[1].1, JsonValue::Str(_)));
}

#[test]
fn serializer_writes_exact_json_text() {
    let fields = vec![
        ("a".to_string(), JsonValue::Str("x\"y\\z\n".to_string())),
        ("b".to_string(), JsonValue::Int(0)),
        ("c".to_string(), JsonValue::Int(u64::MAX)),
        ("d".to_string(), JsonValue::Bool(true)),
        ("e".to_string(), JsonValue::Null),
        ("f\u{1}".to_string(), JsonValue::Str(String::new())),
    ];
    let text = serialize_record(&fields);
    assert_eq!(
        text,
        "{\"a\":\"x\\\"y\\\\z\\n\",\"b\":0,\"c\":18446744073709551615,\"d\":true,\"e\":null,\"f\\u0001\":\"\"}"
    );
    let reparsed: serde_json::Value = serde_json::from_str(&text).unwrap();
    assert_eq!(reparsed.as_object().unwrap().get("f\u{1}").unwrap(), "");
}

#[test]
fn serializer_agrees_with_the_reference_json_writer() {
    let fields = vec![
        ("k\t".to_string(), JsonValue::Str("v\u{8}\u{c}\r/".to_string())),
        ("n".to_string(), JsonValue::Int(907)),
    ];
    let mut reference = serde_json::Map::new();
    reference.insert("k\t".to_string(), serde_json::Value::from("v\u{8}\u{c}\r/"));
    reference.insert("n".to_string(), serde_json::Value::from(907u64));
    assert_eq!(
        serialize_record(&fields),
        serde_json::to_string(&serde_json::Value::Object(reference)).unwrap()
    );
}

#[test]
fn timestamps_render_known_moments() {
    assert_eq!(format_timestamp(0), "1970-01-01T00:00:00Z");
    assert_eq!(format_timestamp(86399), "1970-01-01T23:59:59Z");
    assert_eq!(format_timestamp(86400), "1970-01-02T00:00:00Z");
    assert_eq!(format_timestamp(951782400), "2000-02-29T00:00:00Z");
    assert_eq!(format_timestamp(1234567890), "2009-02-13T23:31:30Z");
    assert_eq!(format_timestamp(4107542399), "2100-02-28T23:59:59Z");
    assert_eq!(format_timestamp(253402300799), "9999-12-31T23:59:59Z");
    assert_eq!(format_timestamp(253402300800), "10000-01-01T00:00:00Z");
}
