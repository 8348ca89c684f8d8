use nova::cqrs::StoredEvent;
use nova::json::JsonValue;
use nova::sql::{column_sync_plan, table_columns_query, InMemoryQueryCache, SqlBackend, SqlCqrsBridge, SqlValue};

fn names(v: &[&str]) -> Vec<String> {
    v.iter().map(|x| x.to_string()).collect()
}

#[test]
fn in_memory_query_cache_expires_entries() {
    let mut cache = InMemoryQueryCache::new();

    cache.set_at("users:1", "{\"id\":1}".to_string(), 10, 1_000);

    let hit = cache.get_at("users:1", 1_005);
    assert!(hit.is_some());
    assert_eq!(hit.unwrap(), "{\"id\":1}");

    let miss = cache.get_at("users:1", 1_020);
    assert!(miss.is_none());
    assert!(cache.get_at("users:1", 1_000).is_none());
}

#[test]
fn cache_with_wall_clock_and_delete() {
    let mut cache = InMemoryQueryCache::new();
    cache.set("k", "v".to_string(), 60_000_000_000);
    assert_eq!(cache.get("k"), Some("v".to_string()));
    cache.del("k");
    assert_eq!(cache.get("k"), None);
    cache.set_at("a", "1".to_string(), 5, 0);
    cache.set_at("a", "2".to_string(), 5, 10);
    assert_eq!(cache.get_at("a", 15), Some("2".to_string()));
}

#[test]
fn bridge_initialises_once() {
    let mut bridge = SqlCqrsBridge::new(SqlBackend::Sqlite);
    let stmts = bridge.init_statements();
    assert_eq!(stmts.len(), 2);
    assert!(stmts[0].starts_with("CREATE TABLE IF NOT EXISTS nova_events (id INTEGER PRIMARY KEY AUTOINCREMENT,"));
    assert!(stmts[1].contains("pkey TEXT PRIMARY KEY"));
    bridge.mark_initialized();
    assert!(bridge.is_initialized());
    assert!(bridge.init_statements().is_empty());
}

#[test]
fn statements_follow_the_backend() {
    let sqlite = SqlCqrsBridge::new(SqlBackend::Sqlite);
    let pg = SqlCqrsBridge::new(SqlBackend::Postgres);
    let my = SqlCqrsBridge::new(SqlBackend::MySql);
    assert!(sqlite.insert_event_sql().ends_with("VALUES (?1, ?2, ?3, ?4, ?5)"));
    assert!(pg.insert_event_sql().ends_with("VALUES ($1, $2, $3, $4, $5)"));
    assert!(sqlite.select_events_sql().contains("aggregate_id = ?1 ORDER BY version ASC"));
    assert!(my.select_projection_sql().ends_with("pkey = $1"));
    assert_eq!(sqlite.upsert_projection_sql(), "INSERT OR REPLACE INTO nova_projections (pkey, value) VALUES (?1, ?2)");
    assert!(pg.upsert_projection_sql().contains("ON CONFLICT (pkey) DO UPDATE SET value = EXCLUDED.value"));
    assert_eq!(my.upsert_projection_sql(), "REPLACE INTO nova_projections (pkey, value) VALUES (?, ?)");
    assert!(SqlCqrsBridge::create_events_sql(SqlBackend::Postgres).contains("payload     JSONB NOT NULL"));
    assert!(SqlCqrsBridge::create_projections_sql(SqlBackend::MySql).contains("value JSON NOT NULL"));
}

#[test]
fn sqlite_round_trip_events_and_projections() {
    let event = StoredEvent::new_at("order-1".to_string(), "OrderPlaced".to_string(), JsonValue::Null, 1, 77);
    let params = SqlCqrsBridge::insert_event_params(&event, "{\"total\":99.99}".to_string());
    assert_eq!(params.len(), 5);
    match (&params[0], &params[2], &params[3], &params[4]) {
        (SqlValue::Text(a), SqlValue::Text(p), SqlValue::Int(v), SqlValue::Int(t)) => {
            assert_eq!(a, "order-1");
            assert_eq!(p, "{\"total\":99.99}");
            assert_eq!(*v, 1);
            assert_eq!(*t, 77);
        }
        _ => panic!("unexpected parameters"),
    }
    let back = SqlCqrsBridge::event_from_row("order-1".to_string(), "OrderPlaced".to_string(), JsonValue::Null, 1, 77);
    assert_eq!(back.version, 1);
    assert_eq!(back.timestamp_ms, 77);
    assert_eq!(back.event_type, "OrderPlaced");
}

#[test]
fn column_errors_name_the_column() {
    let e = SqlCqrsBridge::column_error("payload", "bad");
    assert_eq!(e.to_display_string(), "CQRS backend error: failed to read payload column: bad");
    let e = SqlCqrsBridge::column_error("value", "bad");
    assert_eq!(e.to_display_string(), "CQRS backend error: failed to read projection value: bad");
    let e = SqlCqrsBridge::column_error("version", "bad");
    assert_eq!(e.to_display_string(), "CQRS backend error: failed to read version: bad");
}

#[test]
fn column_sync_adds_missing_and_drops_only_when_allowed() {
    let model = names(&["id", "name", "email"]);
    let existing = names(&["id", "name", "legacy"]);
    let plan = column_sync_plan(&model, &existing, false);
    assert_eq!(plan.add, names(&["email"]));
    assert!(plan.drop.is_empty());
    let plan = column_sync_plan(&model, &existing, true);
    assert_eq!(plan.drop, names(&["legacy"]));
    let fresh = column_sync_plan(&model, &Vec::new(), true);
    assert!(fresh.add.is_empty() && fresh.drop.is_empty());
}

#[test]
fn column_queries_per_backend() {
    let q = table_columns_query(SqlBackend::Sqlite, "users").unwrap();
    assert_eq!(q.sql, "PRAGMA table_info('users')");
    assert!(!q.bind_table);
    assert_eq!(q.name_field, "name");
    let q = table_columns_query(SqlBackend::Postgres, "users").unwrap();
    assert_eq!(q.sql, "SELECT column_name FROM information_schema.columns WHERE table_name = $1");
    assert!(q.bind_table);
    assert_eq!(q.name_field, "column_name");
    assert!(table_columns_query(SqlBackend::MySql, "users").is_none());
}
