use nova::discovery::{DiscoveryError, InstanceStatus, ServiceInstance, StaticDiscovery};

fn test_instance(service: &str, id: &str, address: &str) -> ServiceInstance {
    ServiceInstance {
        id: id.to_string(),
        name: service.to_string(),
        address: address.to_string(),
        metadata: Vec::new(),
        status: InstanceStatus::Healthy,
        last_heartbeat: None,
    }
}

#[test]
fn register_and_discover() {
    let mut discovery = StaticDiscovery::new(vec![]);
    let instance = test_instance("users", "users-1", "127.0.0.1:9000");

    discovery.register(instance.duplicate()).expect("register should succeed");

    let instances = discovery.discover("users").expect("discover should succeed");
    assert_eq!(instances.len(), 1);
    assert_eq!(instances[0].id, instance.id);
    assert_eq!(instances[0].address, instance.address);
    assert_eq!(instances[0].status, InstanceStatus::Healthy);
}

#[test]
fn deregister_and_discover_empty() {
    let mut discovery = StaticDiscovery::new(vec![test_instance("users", "users-1", "127.0.0.1:9000")]);

    discovery.deregister("users", "users-1").expect("deregister should succeed");

    let instances = discovery.discover("users").expect("discover should succeed");
    assert!(instances.is_empty());
}

#[test]
fn heartbeat_updates_timestamp() {
    let mut discovery = StaticDiscovery::new(vec![test_instance("users", "users-1", "127.0.0.1:9000")]);

    let before = discovery.discover("users").expect("discover should succeed")[0].last_heartbeat;
    assert!(before.is_none());

    discovery.heartbeat("users", "users-1").expect("heartbeat should succeed");

    let after = discovery.discover("users").expect("discover should succeed")[0].last_heartbeat;
    assert!(after.is_some());
}

#[test]
fn heartbeat_at_records_the_given_time() {
    let mut discovery = StaticDiscovery::new(vec![test_instance("users", "users-1", "127.0.0.1:9000")]);
    discovery.heartbeat_at("users", "users-1", 4242).unwrap();
    let found = discovery.discover("users").unwrap();
    assert_eq!(found[0].last_heartbeat, Some(4242));
}

#[test]
fn unknown_service_and_instance_are_not_found() {
    let mut discovery = StaticDiscovery::new(vec![test_instance("users", "users-1", "127.0.0.1:9000")]);
    match discovery.heartbeat("orders", "o-1") {
        Err(DiscoveryError::NotFound(m)) => assert_eq!(m, "orders"),
        other => panic!("unexpected {:?}", other),
    }
    match discovery.heartbeat("users", "users-9") {
        Err(DiscoveryError::NotFound(m)) => assert_eq!(m, "service 'users' instance 'users-9' not found"),
        other => panic!("unexpected {:?}", other),
    }
    assert!(discovery.discover("orders").unwrap().is_empty());
}

#[test]
fn unhealthy_instances_are_not_discovered_and_register_replaces_by_id() {
    let mut discovery = StaticDiscovery::new(vec![]);
    discovery.register(test_instance("users", "a", "h:1")).unwrap();
    discovery.register(test_instance("users", "b", "h:2")).unwrap();
    let mut again = test_instance("users", "a", "h:3");
    again.status = InstanceStatus::Unhealthy;
    discovery.register(again).unwrap();
    let found = discovery.discover("users").unwrap();
    assert_eq!(found.len(), 2);
    assert_eq!(found[0].id, "b");
    assert_eq!(found[1].id, "a");
    assert_eq!(found[1].address, "h:3");
}

#[test]
fn from_map_builds_instances_from_addresses() {
    let discovery = StaticDiscovery::from_map(vec![(
        "users".to_string(),
        vec!["10.0.0.1:80".to_string(), "10.0.0.2:80".to_string()],
    )]);
    let found = discovery.discover("users").unwrap();
    assert_eq!(found.len(), 2);
    assert_eq!(found[0].id, "10.0.0.1:80");
    assert_eq!(found[1].address, "10.0.0.2:80");
    assert_eq!(found[0].name, "users");
}

#[test]
fn discovery_error_display() {
    assert_eq!(DiscoveryError::NotFound("x".to_string()).to_display_string(), "Discovery not found: x");
    assert_eq!(DiscoveryError::Backend("y".to_string()).to_display_string(), "Discovery backend error: y");
    assert_eq!(
        DiscoveryError::ConnectionFailed("z".to_string()).to_display_string(),
        "Discovery connection failed: z"
    );
}
