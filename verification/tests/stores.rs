use nova::cqrs::{CqrsError, InMemoryCqrsStore, StoredEvent};
use nova::event_sourcing::{save_payloads, stamp_events, InMemoryEventStore};
use nova::json::JsonValue;

fn num(n: &str) -> JsonValue {
    JsonValue::Number(n.to_string())
}

fn obj(entries: Vec<(&str, JsonValue)>) -> JsonValue {
    JsonValue::Object(entries.into_iter().map(|(k, v)| (k.to_string(), v)).collect())
}

fn field<'a>(v: &'a JsonValue, key: &str) -> Option<&'a JsonValue> {
    match v {
        JsonValue::Object(es) => es.iter().find(|(k, _)| k == key).map(|(_, v)| v),
        _ => None,
    }
}

fn text(v: Option<&JsonValue>) -> Option<String> {
    match v {
        Some(JsonValue::String(s)) => Some(s.clone()),
        Some(JsonValue::Number(s)) => Some(s.clone()),
        _ => None,
    }
}

#[test]
fn inmemory_cqrs_store_save_and_get_events() {
    let mut store = InMemoryCqrsStore::new();
    store.save_event(StoredEvent::new("agg-1".to_string(), "Created".to_string(), obj(vec![("v", num("1"))]), 1));
    store.save_event(StoredEvent::new("agg-1".to_string(), "Updated".to_string(), obj(vec![("v", num("2"))]), 2));
    let events = store.get_events("agg-1");
    assert_eq!(events.len(), 2);
    assert_eq!(events[0].event_type, "Created");
    assert_eq!(events[1].event_type, "Updated");
    assert_eq!(events[1].version, 2);
}

#[test]
fn inmemory_cqrs_store_get_events_empty_aggregate() {
    let store = InMemoryCqrsStore::new();
    assert!(store.get_events("missing").is_empty());
}

#[test]
fn inmemory_cqrs_store_upsert_and_read_projection() {
    let mut store = InMemoryCqrsStore::new();
    store.upsert_projection_raw("user:1", obj(vec![("name", JsonValue::String("Alice".to_string()))]));
    let got = store.get_projection_raw("user:1").expect("projection present");
    assert_eq!(text(field(&got, "name")), Some("Alice".to_string()));
    store.upsert_projection_raw("user:1", obj(vec![("name", JsonValue::String("Bob".to_string()))]));
    let got = store.get_projection_raw("user:1").expect("projection present");
    assert_eq!(text(field(&got, "name")), Some("Bob".to_string()));
}

#[test]
fn inmemory_cqrs_store_missing_projection_returns_none() {
    let store = InMemoryCqrsStore::new();
    assert!(store.get_projection_raw("nope").is_none());
}

#[test]
fn save_and_reload_events_through_the_store() {
    let mut store = InMemoryEventStore::new();
    let payloads = vec![obj(vec![("order_id", JsonValue::String("ord-1".to_string()))]), obj(vec![("tracking", JsonValue::String("TRK123".to_string()))])];
    save_payloads(&mut store, "ord-1", "OrderEvent", payloads, 0, 5).expect("save should succeed");
    let events = store.load_events("ord-1");
    assert_eq!(events.len(), 2);
    assert_eq!(events[0].version, 1);
    assert_eq!(events[1].version, 2);
    assert_eq!(events[0].aggregate_id, "ord-1");
    assert_eq!(events[0].event_type, "OrderEvent");
    assert_eq!(events[1].timestamp_ms, 5);
}

#[test]
fn load_nonexistent_aggregate_returns_none() {
    let store = InMemoryEventStore::new();
    assert!(store.load_events("missing").is_empty());
}

#[test]
fn concurrency_conflict_on_version_mismatch() {
    let mut store = InMemoryEventStore::new();
    let events = vec![obj(vec![("total", num("50.0"))])];
    save_payloads(&mut store, "ord-2", "OrderEvent", events, 0, 1).expect("first save succeeds");

    let again = vec![obj(vec![("total", num("50.0"))])];
    let result = save_payloads(&mut store, "ord-2", "OrderEvent", again, 0, 2);
    assert!(result.is_err());
    match result {
        Err(CqrsError::Concurrency(msg)) => {
            assert!(msg.contains("ord-2"));
            assert_eq!(msg, "expected version 0 but current version is 1 for aggregate 'ord-2'");
        }
        _ => panic!("expected Concurrency error"),
    }
    assert_eq!(store.load_events("ord-2").len(), 1);
}

#[test]
fn save_empty_events_is_noop() {
    let mut store = InMemoryEventStore::new();
    save_payloads(&mut store, "ord-3", "OrderEvent", Vec::new(), 0, 1).expect("empty save should succeed");
    assert!(store.load_events("ord-3").is_empty());
}

#[test]
fn multiple_saves_append_to_stream() {
    let mut store = InMemoryEventStore::new();
    save_payloads(&mut store, "ord-4", "OrderEvent", vec![num("1")], 0, 1).unwrap();
    save_payloads(&mut store, "ord-4", "OrderEvent", vec![num("2")], 1, 2).unwrap();
    let events = store.load_events("ord-4");
    assert_eq!(events.len(), 2);
    assert_eq!(events[1].version, 2);
}

#[test]
fn stamping_numbers_events_after_the_expected_version() {
    let out = stamp_events("a", "T", vec![num("1"), num("2"), num("3")], 7, 99);
    let versions: Vec<u32> = out.iter().map(|e| e.version).collect();
    assert_eq!(versions, vec![8, 9, 10]);
}

#[test]
fn cqrs_error_display() {
    assert_eq!(CqrsError::Backend("b".to_string()).to_display_string(), "CQRS backend error: b");
    assert_eq!(CqrsError::Serialization("s".to_string()).to_display_string(), "CQRS serialization error: s");
    assert_eq!(CqrsError::Concurrency("c".to_string()).to_display_string(), "CQRS concurrency error: c");
}
