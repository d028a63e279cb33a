use datagen::counter::ThroughputCounter;
use datagen::emit::{dynamic_message_key, emission_step, fixed_emission_step, fixed_message_key};
use datagen::schema::parse_schema;

#[test]
fn a_fixed_step_keys_by_the_identifier() {
    let (payload, key) = fixed_emission_step(1234567890);
    assert_eq!(key, "1234567890");
    let v: serde_json::Value = serde_json::from_str(&payload).unwrap();
    assert_eq!(v.as_object().unwrap()["id"], serde_json::Value::from(1234567890u64));
}

#[test]
fn counter_returns_the_exact_count_then_zero() {
    let mut c = ThroughputCounter::new();
    let k = 137;
    for _ in 0..k {
        c.increment();
    }
    assert_eq!(c.read_and_reset(), k);
    assert_eq!(c.read_and_reset(), 0);
}

#[test]
fn counter_intervals_are_independent() {
    let mut c = ThroughputCounter::new();
    for _ in 0..5 {
        c.increment();
    }
    assert_eq!(c.read_and_reset(), 5);
    for _ in 0..3 {
        c.increment();
    }
    assert_eq!(c.read_and_reset(), 3);
}

#[test]
fn message_keys_follow_each_variant() {
    assert_eq!(fixed_message_key(0), "0");
    assert_eq!(fixed_message_key(1234567890), "1234567890");
    assert_eq!(fixed_message_key(u64::MAX), "18446744073709551615");
    assert_eq!(dynamic_message_key(), "log_key");
}

#[test]
fn a_step_counts_its_attempt_and_reports_only_when_due() {
    let schema = parse_schema("{\"id\":\"int\",\"ok\":\"bool\"}").unwrap();
    let mut counter = ThroughputCounter::new();
    for _ in 0..9 {
        let (payload, key, report) = emission_step(&schema, 50, &mut counter, false);
        assert_eq!(key, "log_key");
        assert!(report.is_none());
        let v: serde_json::Value = serde_json::from_str(&payload).unwrap();
        assert_eq!(v.as_object().unwrap().len(), 2);
    }
    let (_, _, report) = emission_step(&schema, 51, &mut counter, true);
    assert_eq!(report, Some(10));
    let (_, _, report) = emission_step(&schema, 52, &mut counter, true);
    assert_eq!(report, Some(1));
    let (_, _, report) = emission_step(&schema, 53, &mut counter, false);
    assert!(report.is_none());
    let (_, _, report) = emission_step(&schema, 54, &mut counter, true);
    assert_eq!(report, Some(2));
}
