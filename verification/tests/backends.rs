use nova::backends::{
    watch_step, ConsulDiscovery, EtcdDiscovery, StoredServiceInstance, WatchAction, WatchEvent, WatchPhase,
};
use nova::discovery::{DiscoveryError, InstanceStatus, ServiceInstance};

#[test]
fn key_construction_uses_prefix() {
    assert_eq!(
        EtcdDiscovery::service_prefix_from("nova/services", "users"),
        "/nova/services/users/"
    );
    assert_eq!(
        EtcdDiscovery::instance_key_from("nova/services", "users", "users-1"),
        "/nova/services/users/users-1"
    );
}

#[test]
fn stored_record_roundtrips() {
    let record = StoredServiceInstance {
        id: "users-1".to_string(),
        name: "users".to_string(),
        address: "127.0.0.1:9000".to_string(),
        metadata: vec![("zone".to_string(), "a".to_string())],
        status: InstanceStatus::Healthy,
        last_heartbeat_unix_ms: Some(1_700_000_000_000),
    };

    let discovered = EtcdDiscovery::service_instance_from_record(record);

    assert_eq!(discovered.id, "users-1");
    assert_eq!(discovered.name, "users");
    assert_eq!(discovered.address, "127.0.0.1:9000");
    assert_eq!(discovered.metadata[0].0, "zone");
    assert_eq!(discovered.metadata[0].1, "a");
    assert_eq!(discovered.status, InstanceStatus::Healthy);
    assert!(discovered.last_heartbeat.is_some());
}

#[test]
fn prefixes_are_trimmed_of_slashes() {
    assert_eq!(EtcdDiscovery::normalize_prefix("//nova/services/"), "nova/services");
    assert_eq!(EtcdDiscovery::join_prefix("/", "users"), "/users");
    assert_eq!(EtcdDiscovery::join_prefix("", "users"), "/users");
    assert_eq!(EtcdDiscovery::join_prefix("/a/", "users"), "/a/users");
    let etcd = EtcdDiscovery::configure("/nova/", 15);
    assert_eq!(etcd.service_prefix("users"), "/nova/users/");
    assert_eq!(etcd.instance_key("users", "u1"), "/nova/users/u1");
    assert_eq!(etcd.lease_ttl(), 15);
}

#[test]
fn lease_table_records_and_forgets() {
    let mut etcd = EtcdDiscovery::configure("nova", 10);
    assert_eq!(etcd.lease_for("/nova/users/u1"), None);
    etcd.record_lease("/nova/users/u1", 5);
    etcd.record_lease("/nova/users/u2", 6);
    etcd.record_lease("/nova/users/u1", 7);
    assert_eq!(etcd.lease_for("/nova/users/u1"), Some(7));
    assert_eq!(etcd.heartbeat_lease("users", "u2").unwrap(), 6);
    assert_eq!(etcd.take_lease("/nova/users/u1"), Some(7));
    assert_eq!(etcd.lease_for("/nova/users/u1"), None);
    match etcd.heartbeat_lease("users", "u1") {
        Err(DiscoveryError::NotFound(m)) => assert_eq!(m, "service 'users' instance 'u1' not found"),
        other => panic!("unexpected {:?}", other),
    }
}

#[test]
fn record_written_for_instance_is_healthy_with_heartbeat() {
    let instance = ServiceInstance {
        id: "u1".to_string(),
        name: "users".to_string(),
        address: "10.0.0.1:80".to_string(),
        metadata: Vec::new(),
        status: InstanceStatus::Draining,
        last_heartbeat: None,
    };
    let record = EtcdDiscovery::service_instance_to_record(&instance, 1234);
    assert_eq!(record.status, InstanceStatus::Healthy);
    assert_eq!(record.last_heartbeat_unix_ms, Some(1234));
    assert_eq!(record.id, "u1");
}

#[test]
fn delete_of_nothing_is_not_found() {
    assert!(EtcdDiscovery::deletion_outcome(1, "users", "u1").is_ok());
    match EtcdDiscovery::deletion_outcome(0, "users", "u1") {
        Err(DiscoveryError::NotFound(m)) => assert_eq!(m, "service 'users' instance 'u1' not found"),
        other => panic!("unexpected {:?}", other),
    }
}

#[test]
fn register_invalid_address_returns_backend_error() {
    let err = ConsulDiscovery::split_address("invalid-address").expect_err("should fail");
    assert!(matches!(err, DiscoveryError::Backend(_)));
    match err {
        DiscoveryError::Backend(m) => assert_eq!(m, "invalid address: invalid-address"),
        _ => unreachable!(),
    }
}

#[test]
fn split_address_uses_last_colon() {
    let (host, port) = ConsulDiscovery::split_address("[::1]:8500").unwrap();
    assert_eq!(host, "[::1]");
    assert_eq!(port, 8500);
    let (host, port) = ConsulDiscovery::split_address("127.0.0.1:+80").unwrap();
    assert_eq!(host, "127.0.0.1");
    assert_eq!(port, 80);
    match ConsulDiscovery::split_address("host:") {
        Err(DiscoveryError::Backend(m)) => {
            assert_eq!(m, "invalid address port: cannot parse integer from empty string")
        }
        other => panic!("unexpected {:?}", other),
    }
    match ConsulDiscovery::split_address("host:70000") {
        Err(DiscoveryError::Backend(m)) => {
            assert_eq!(m, "invalid address port: number too large to fit in target type")
        }
        other => panic!("unexpected {:?}", other),
    }
    match ConsulDiscovery::split_address("host:8x") {
        Err(DiscoveryError::Backend(m)) => assert_eq!(m, "invalid address port: invalid digit found in string"),
        other => panic!("unexpected {:?}", other),
    }
}

#[test]
fn consul_urls_and_ids() {
    let consul = ConsulDiscovery::new("http://127.0.0.1:8500//", None, None);
    assert_eq!(consul.base_url, "http://127.0.0.1:8500");
    assert_eq!(consul.url("/v1/agent/service/register"), "http://127.0.0.1:8500/v1/agent/service/register");
    assert_eq!(consul.url("v1/health/service/users"), "http://127.0.0.1:8500/v1/health/service/users");
    assert_eq!(ConsulDiscovery::check_id("users-1"), "service:users-1");
    assert_eq!(ConsulDiscovery::instance_address("10.0.0.9", "", 8080), "10.0.0.9:8080");
    assert_eq!(ConsulDiscovery::instance_address("10.0.0.9", "10.1.1.1", 81), "10.1.1.1:81");
    let inst = ConsulDiscovery::instance_from_entry(
        "u1".to_string(),
        "users".to_string(),
        "10.0.0.9",
        "",
        9000,
        Vec::new(),
    );
    assert_eq!(inst.address, "10.0.0.9:9000");
    assert_eq!(inst.status, InstanceStatus::Healthy);
    assert!(inst.last_heartbeat.is_none());
}

#[test]
fn discover_404_maps_to_not_found() {
    match ConsulDiscovery::status_outcome(404) {
        Err(DiscoveryError::NotFound(m)) => assert_eq!(m, "consul resource not found"),
        other => panic!("unexpected {:?}", other),
    }
    assert!(ConsulDiscovery::status_outcome(200).is_ok());
    match ConsulDiscovery::status_outcome(500) {
        Err(DiscoveryError::Backend(m)) => {
            assert_eq!(m, "consul request failed with status 500 Internal Server Error")
        }
        other => panic!("unexpected {:?}", other),
    }
    match ConsulDiscovery::status_outcome(599) {
        Err(DiscoveryError::Backend(m)) => {
            assert_eq!(m, "consul request failed with status 599 <unknown status code>")
        }
        other => panic!("unexpected {:?}", other),
    }
}

#[test]
fn consul_poll_index_advances_only_forward() {
    assert_eq!(ConsulDiscovery::after_poll(0, 5), (5, true));
    assert_eq!(ConsulDiscovery::after_poll(5, 5), (5, false));
    assert_eq!(ConsulDiscovery::after_poll(7, 3), (7, false));
    assert_eq!(ConsulDiscovery::next_index(None, 9), 9);
    assert_eq!(ConsulDiscovery::next_index(Some(11), 9), 11);
}

#[test]
fn etcd_watch_loop_runs_until_watchers_leave() {
    let (p, a) = watch_step(WatchPhase::Checking, WatchEvent::Watchers { present: true });
    assert_eq!((p, a), (WatchPhase::Opening, WatchAction::OpenWatch));
    let (p, a) = watch_step(p, WatchEvent::OpenFailed);
    assert_eq!((p, a), (WatchPhase::Sleeping, WatchAction::Sleep { ms: 1000 }));
    let (p, a) = watch_step(p, WatchEvent::Slept);
    assert_eq!((p, a), (WatchPhase::Checking, WatchAction::CheckWatchers));
    let (p, _) = watch_step(p, WatchEvent::Watchers { present: true });
    let (p, a) = watch_step(p, WatchEvent::Opened);
    assert_eq!((p, a), (WatchPhase::Reading, WatchAction::ReadMessage));
    let (p, a) = watch_step(p, WatchEvent::Message { canceled: false, changed: true });
    assert_eq!((p, a), (WatchPhase::Reading, WatchAction::NotifyAndRead));
    let (p, a) = watch_step(p, WatchEvent::Message { canceled: false, changed: false });
    assert_eq!((p, a), (WatchPhase::Reading, WatchAction::ReadMessage));
    let (p, a) = watch_step(p, WatchEvent::Message { canceled: true, changed: true });
    assert_eq!((p, a), (WatchPhase::Sleeping, WatchAction::Sleep { ms: 250 }));
    let (p, _) = watch_step(p, WatchEvent::Slept);
    let (p, a) = watch_step(p, WatchEvent::Watchers { present: false });
    assert_eq!((p, a), (WatchPhase::Finished, WatchAction::RemoveTask));
    let (p, a) = watch_step(p, WatchEvent::Opened);
    assert_eq!((p, a), (WatchPhase::Finished, WatchAction::Ignore));
}

#[test]
fn service_prefixes_do_not_capture_other_services() {
    let users = EtcdDiscovery::service_prefix_from("nova", "users");
    let users2_key = EtcdDiscovery::instance_key_from("nova", "users2", "x");
    let users_key = EtcdDiscovery::instance_key_from("nova", "users", "x");
    assert!(!users2_key.starts_with(&users));
    assert!(users_key.starts_with(&users));
}
