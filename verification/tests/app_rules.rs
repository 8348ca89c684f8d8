use nova::backends::{ConsulDiscovery, EtcdDiscovery, StoredServiceInstance};
use nova::config::{build_config_tree, MapSecretSource};
use nova::cqrs::projection_key;
use nova::discovery::{healthy_instances, DiscoveryError, InstanceStatus, ServiceInstance};
use nova::error::{debug_details_enabled, NovaError};
use nova::json::JsonValue;
use nova::middleware::{breaker_gate, client_key, counts_as_failure, limiter_gate};
use nova::openapi::{build_openapi_document, default_operation, default_paths_from_routes};
use nova::resilience_store::ResilienceError;
use nova::runtime::{bind_address, effective_routes, route_kind, RouteKind};

fn get<'a>(v: &'a JsonValue, path: &[&str]) -> Option<&'a JsonValue> {
    let mut cur = v;
    for key in path {
        match cur {
            JsonValue::Object(es) => match es.iter().find(|(k, _)| k == key) {
                Some((_, x)) => cur = x,
                None => return None,
            },
            _ => return None,
        }
    }
    Some(cur)
}

fn text(v: Option<&JsonValue>) -> Option<String> {
    match v {
        Some(JsonValue::String(t)) | Some(JsonValue::Number(t)) => Some(t.clone()),
        _ => None,
    }
}

fn obj(entries: Vec<(&str, JsonValue)>) -> JsonValue {
    JsonValue::Object(entries.into_iter().map(|(k, v)| (k.to_string(), v)).collect())
}

#[test]
fn openapi_document_has_default_operations_and_merges_fragments() {
    let op = default_operation("GET", "/users/{id}/");
    assert_eq!(text(get(&op, &["operationId"])), Some("get_users_{id}".to_string()));
    assert_eq!(text(get(&op, &["responses", "200", "description"])), Some("Successful response".to_string()));

    let routes = vec![
        ("/users".to_string(), "GET".to_string()),
        ("/users".to_string(), "Post".to_string()),
        ("/health".to_string(), "GET".to_string()),
    ];
    let paths = default_paths_from_routes(&routes);
    assert_eq!(text(get(&paths, &["/users", "post", "operationId"])), Some("post_users".to_string()));
    assert_eq!(text(get(&paths, &["/health", "get", "operationId"])), Some("get_health".to_string()));

    let fragment = obj(vec![
        ("info", obj(vec![("version", JsonValue::String("2.0.0".to_string()))])),
        ("components", obj(vec![])),
    ]);
    let doc = build_openapi_document("orders", paths, vec![fragment]);
    assert_eq!(text(get(&doc, &["openapi"])), Some("3.1.0".to_string()));
    assert_eq!(text(get(&doc, &["info", "title"])), Some("orders API".to_string()));
    assert_eq!(text(get(&doc, &["info", "version"])), Some("2.0.0".to_string()));
    assert!(get(&doc, &["components"]).is_some());
    assert!(get(&doc, &["paths", "/users", "get"]).is_some());
}

#[test]
fn middleware_gates_and_failures() {
    assert!(breaker_gate(Some(true)).is_none());
    let r = breaker_gate(Some(false)).unwrap();
    assert_eq!((r.status, r.error, r.message), (503, "circuit_open", "service temporarily unavailable"));
    let r = breaker_gate(None).unwrap();
    assert_eq!((r.status, r.error, r.message), (500, "internal_error", "resilience backend error"));
    assert!(limiter_gate(Some(true)).is_none());
    let r = limiter_gate(Some(false)).unwrap();
    assert_eq!((r.status, r.error, r.message), (429, "too_many_requests", "rate limit exceeded"));
    assert!(counts_as_failure(500));
    assert!(counts_as_failure(503));
    assert!(!counts_as_failure(404));
    assert!(!counts_as_failure(600));
    assert_eq!(client_key(Some("c-1")), "c-1");
    assert_eq!(client_key(None), "anonymous");
}

#[test]
fn routes_deduplicate_with_the_last_winning() {
    assert_eq!(route_kind("POST"), RouteKind::Post);
    assert_eq!(route_kind("DELETE"), RouteKind::Delete);
    assert_eq!(route_kind("post"), RouteKind::Get);
    assert_eq!(route_kind("OPTIONS"), RouteKind::Get);
    let routes = vec![
        ("GET".to_string(), "/a".to_string()),
        ("POST".to_string(), "/a".to_string()),
        ("GET".to_string(), "/a".to_string()),
        ("GET".to_string(), "/b".to_string()),
    ];
    assert_eq!(effective_routes(&routes), vec![1, 2, 3]);
    assert_eq!(bind_address(8080), "0.0.0.0:8080");
}

#[test]
fn debug_mode_includes_details() {
    assert!(debug_details_enabled(Some("1")));
    assert!(debug_details_enabled(Some("TRUE")));
    assert!(debug_details_enabled(Some("tRuE")));
    assert!(!debug_details_enabled(Some("yes")));
    assert!(!debug_details_enabled(None));
    let err = NovaError::InternalError("boom".to_string());
    assert_eq!(err.status_code(), 500);
    let body = err.error_response(Some("trace".to_string()));
    assert_eq!(body.error, "InternalError");
    assert_eq!(body.message, "Internal error: boom");
    assert_eq!(body.details.as_deref(), Some("trace"));
    match NovaError::invalid_json("eof") {
        NovaError::BadRequest(m) => assert_eq!(m, "Invalid JSON: eof"),
        other => panic!("unexpected {:?}", other),
    }
    match NovaError::from_resilience_error(ResilienceError::new("down".to_string())) {
        NovaError::InternalError(m) => assert_eq!(m, "down"),
        other => panic!("unexpected {:?}", other),
    }
}

fn inst(id: &str, status: InstanceStatus) -> ServiceInstance {
    ServiceInstance {
        id: id.to_string(),
        name: "users".to_string(),
        address: "10.0.0.1:8080".to_string(),
        metadata: vec![("zone".to_string(), "a".to_string())],
        status,
        last_heartbeat: None,
    }
}

#[test]
fn backend_records_and_payloads() {
    let kept = healthy_instances(vec![
        inst("a", InstanceStatus::Healthy),
        inst("b", InstanceStatus::Draining),
        inst("c", InstanceStatus::Healthy),
    ]);
    assert_eq!(kept.iter().map(|i| i.id.as_str()).collect::<Vec<_>>(), vec!["a", "c"]);

    let stored = StoredServiceInstance {
        id: "a".to_string(),
        name: "users".to_string(),
        address: "h:1".to_string(),
        metadata: Vec::new(),
        status: InstanceStatus::Unhealthy,
        last_heartbeat_unix_ms: Some(1),
    };
    let rec = EtcdDiscovery::heartbeat_record(Some(stored), "users", "a", 99).unwrap();
    assert_eq!(rec.status, InstanceStatus::Healthy);
    assert_eq!(rec.last_heartbeat_unix_ms, Some(99));
    match EtcdDiscovery::heartbeat_record(None, "users", "a", 99) {
        Err(DiscoveryError::NotFound(m)) => assert_eq!(m, "service 'users' instance 'a' not found"),
        other => panic!("unexpected {:?}", other),
    }

    let payload = ConsulDiscovery::registration(&inst("u1", InstanceStatus::Healthy)).unwrap();
    assert_eq!(text(get(&payload, &["ID"])), Some("u1".to_string()));
    assert_eq!(text(get(&payload, &["Address"])), Some("10.0.0.1".to_string()));
    assert_eq!(text(get(&payload, &["Port"])), Some("8080".to_string()));
    assert_eq!(text(get(&payload, &["Meta", "zone"])), Some("a".to_string()));
    assert_eq!(text(get(&payload, &["Check", "CheckID"])), Some("service:u1".to_string()));
    assert_eq!(text(get(&payload, &["Check", "TTL"])), Some("30s".to_string()));
    assert_eq!(text(get(&payload, &["Check", "DeregisterCriticalServiceAfter"])), Some("90s".to_string()));
    let mut bad = inst("u2", InstanceStatus::Healthy);
    bad.address = "nowhere".to_string();
    assert!(matches!(ConsulDiscovery::registration(&bad), Err(DiscoveryError::Backend(_))));
}

#[test]
fn builder_tree_layers_then_resolves() {
    let secrets = MapSecretSource::new(vec![("db".to_string(), "s3cr3t".to_string())]);
    let tree = build_config_tree(
        Some(obj(vec![("db", obj(vec![("password", JsonValue::String("x".to_string()))]))])),
        vec![obj(vec![("db", obj(vec![("password", JsonValue::String("secret://db".to_string()))]))])],
        &[secrets],
    )
    .unwrap();
    assert_eq!(text(get(&tree, &["db", "password"])), Some("s3cr3t".to_string()));
    assert_eq!(projection_key("projection", "user:1"), "projection:user:1");
}
