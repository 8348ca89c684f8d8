use nova::backends::ConsulDiscovery;
use nova::config::{parse_env_value, EnvConfigSource, JsonFileConfigSource};
use nova::cqrs::{json_text_of, projection_from_text, CqrsError};
use nova::error::NovaError;
use nova::event_sourcing::events_to_append;
use nova::json::JsonValue;
use nova::resilience::RetryPolicy;
use nova::sql::{cache_entry_text, cached_hit, SqlCqrsBridge};

fn text_of(v: &JsonValue) -> Option<&str> {
    match v {
        JsonValue::String(s) => Some(s.as_str()),
        _ => None,
    }
}

fn field<'a>(v: &'a JsonValue, key: &str) -> Option<&'a JsonValue> {
    match v {
        JsonValue::Object(entries) => entries.iter().rev().find(|(k, _)| k == key).map(|(_, v)| v),
        _ => None,
    }
}

#[test]
fn env_values_read_as_json_or_stay_text() {
    assert!(matches!(parse_env_value("42"), JsonValue::Number(n) if n == "42"));
    assert!(matches!(parse_env_value("true"), JsonValue::Bool(true)));
    assert_eq!(text_of(&parse_env_value("\"quoted\"")), Some("quoted"));
    assert_eq!(text_of(&parse_env_value("plain text")), Some("plain text"));
    let obj = parse_env_value("{\"a\": [1, null]}");
    match field(&obj, "a") {
        Some(JsonValue::Array(items)) => {
            assert_eq!(items.len(), 2);
            assert!(matches!(items[1], JsonValue::Null));
        }
        other => panic!("unexpected {:?}", other),
    }
}

#[test]
fn environment_text_is_parsed_then_placed() {
    let source = EnvConfigSource::new("app".to_string());
    let root = source.load_env(vec![
        ("APP_SERVER__PORT".to_string(), "8080".to_string()),
        ("APP_NAME".to_string(), "\"svc\"".to_string()),
        ("APP_MODE".to_string(), "fast".to_string()),
        ("OTHER".to_string(), "1".to_string()),
    ]);
    assert!(matches!(field(field(&root, "server").unwrap(), "port"), Some(JsonValue::Number(n)) if n == "8080"));
    assert_eq!(text_of(field(&root, "name").unwrap()), Some("svc"));
    assert_eq!(text_of(field(&root, "mode").unwrap()), Some("fast"));
    assert!(field(&root, "other").is_none());
}

#[test]
fn config_file_contents_parse_or_are_a_bad_request() {
    let file = JsonFileConfigSource::new("/etc/app.json".to_string());
    let value = file.load_contents("{\"host\": \"h\"}").unwrap();
    assert_eq!(text_of(field(&value, "host").unwrap()), Some("h"));
    match file.load_contents("{not json") {
        Err(NovaError::BadRequest(m)) => assert!(m.starts_with("Invalid JSON: ") && m.len() > 14),
        other => panic!("unexpected {:?}", other),
    }
}

#[test]
fn stored_rows_become_events_or_serialization_errors() {
    let e = SqlCqrsBridge::event_from_columns("a1".to_string(), "Created".to_string(), "{\"n\":1}", 3, 99).unwrap();
    assert_eq!(e.aggregate_id, "a1");
    assert_eq!(e.event_type, "Created");
    assert_eq!(e.version, 3);
    assert_eq!(e.timestamp_ms, 99);
    assert!(matches!(field(&e.payload, "n"), Some(JsonValue::Number(n)) if n == "1"));
    match SqlCqrsBridge::event_from_columns("a1".to_string(), "Created".to_string(), "[1,", 3, 99) {
        Err(CqrsError::Serialization(m)) => assert!(!m.is_empty()),
        other => panic!("unexpected {:?}", other),
    }
}

#[test]
fn projections_round_trip_through_json_text() {
    let value = JsonValue::Object(vec![
        ("name".to_string(), JsonValue::String("x".to_string())),
        ("count".to_string(), JsonValue::Number("2".to_string())),
    ]);
    let text = json_text_of(&value).unwrap();
    assert!(text == "{\"count\":2,\"name\":\"x\"}" || text == "{\"name\":\"x\",\"count\":2}");
    assert_eq!(json_text_of(&JsonValue::String("x".to_string())).unwrap(), "\"x\"");
    let back = projection_from_text(&text).unwrap();
    assert_eq!(text_of(field(&back, "name").unwrap()), Some("x"));
    assert!(matches!(projection_from_text("nope"), Err(CqrsError::Serialization(_))));
}

#[test]
fn cached_text_hits_only_when_it_is_json() {
    assert!(cached_hit(None).is_none());
    assert!(cached_hit(Some("not json".to_string())).is_none());
    assert!(matches!(cached_hit(Some("[true]".to_string())), Some(JsonValue::Array(items)) if items.len() == 1));
    assert_eq!(cache_entry_text(&JsonValue::Array(vec![JsonValue::Null, JsonValue::Bool(false)])), "[null,false]");
}

#[test]
fn consul_metadata_renders_non_string_values() {
    let meta = JsonValue::Object(vec![
        ("zone".to_string(), JsonValue::String("a".to_string())),
        ("weight".to_string(), JsonValue::Number("5".to_string())),
        ("tags".to_string(), JsonValue::Array(vec![JsonValue::String("x".to_string())])),
    ]);
    let pairs = ConsulDiscovery::metadata_from_value(Some(&meta));
    assert_eq!(
        pairs,
        vec![
            ("zone".to_string(), "a".to_string()),
            ("weight".to_string(), "5".to_string()),
            ("tags".to_string(), "[\"x\"]".to_string()),
        ]
    );
    assert!(ConsulDiscovery::metadata_from_value(None).is_empty());
    assert!(ConsulDiscovery::metadata_from_value(Some(&JsonValue::Bool(true))).is_empty());
}

#[test]
fn saving_nothing_appends_nothing() {
    assert!(events_to_append("a", "T", Vec::new(), 4, 0).is_none());
    let events = events_to_append("a", "T", vec![JsonValue::Null, JsonValue::Null], 4, 7).unwrap();
    assert_eq!(events.iter().map(|e| e.version).collect::<Vec<_>>(), vec![5, 6]);
}

#[test]
fn retry_delays_fit_until_they_overflow() {
    let policy = RetryPolicy::new(100, 1);
    assert!(policy.delay_fits(0));
    assert!(policy.delay_fits(63));
    assert!(!policy.delay_fits(64));
    let big = RetryPolicy::new(100, u64::MAX / 2 + 1);
    assert!(big.delay_fits(0));
    assert!(!big.delay_fits(1));
    assert!(RetryPolicy::new(2, u64::MAX).delay_fits(5));
}
