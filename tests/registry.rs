use remus::{HealthStatus, ProtocolError, ServiceInfo, ServiceRegistry};

fn create_test_service(id: &str, last_seen: u64) -> ServiceInfo {
    ServiceInfo {
        id: id.to_string(),
        name: "test_service".to_string(),
        version: "1.0.0".to_string(),
        capabilities: vec!["test".to_string()],
        address: "127.0.0.1:8080".to_string(),
        metadata: Vec::new(),
        last_seen,
        health_status: HealthStatus::Healthy,
    }
}

#[test]
fn test_service_registration() {
    let mut registry = ServiceRegistry::new(60_000_000);
    let service = create_test_service("test1", 1000);

    registry.register(service.clone());
    let retrieved = registry.get_service("test1").unwrap();

    assert_eq!(retrieved.id, service.id);
    assert_eq!(retrieved.health_status, HealthStatus::Healthy);
}

#[test]
fn test_service_expiration() {
    let mut registry = ServiceRegistry::new(1);
    registry.register(create_test_service("test2", 1000));
    registry.cleanup_expired_at(1002);
    assert!(registry.get_service("test2").is_none());
}

#[test]
fn test_service_health_update() {
    let mut registry = ServiceRegistry::new(60_000_000);
    registry.register(create_test_service("test3", 1000));
    registry.update_health_at("test3", HealthStatus::Degraded, 2000).unwrap();

    let updated = registry.get_service("test3").unwrap();
    assert_eq!(updated.health_status, HealthStatus::Degraded);
    assert_eq!(updated.last_seen, 2000);
}

#[test]
fn test_service_query() {
    let mut registry = ServiceRegistry::new(60_000_000);
    registry.register(create_test_service("test4", 1000));
    registry.register(create_test_service("test5", 1000));
    let services = registry.query(|s: &ServiceInfo| s.version == "1.0.0");
    assert_eq!(services.len(), 2);
}

#[test]
fn register_replaces_same_id() {
    let mut registry = ServiceRegistry::new(10);
    registry.register(create_test_service("a", 1));
    let mut again = create_test_service("a", 5);
    again.name = "second".to_string();
    registry.register(again);
    assert_eq!(registry.get_service("a").unwrap().name, "second");
    assert_eq!(registry.get_healthy_services().len(), 1);
}

#[test]
fn fresh_entries_survive_cleanup() {
    let mut registry = ServiceRegistry::new(100);
    registry.register(create_test_service("old", 0));
    registry.register(create_test_service("new", 950));
    registry.register(create_test_service("future", 2000));
    registry.cleanup_expired_at(1000);
    assert!(registry.get_service("old").is_none());
    assert!(registry.get_service("new").is_some());
    assert!(registry.get_service("future").is_none());
}

#[test]
fn unknown_service_health_update_fails() {
    let mut registry = ServiceRegistry::new(10);
    assert!(matches!(
        registry.update_health_at("nope", HealthStatus::Unhealthy, 1),
        Err(ProtocolError::InvalidFormat(_))
    ));
}

#[test]
fn unregister_and_healthy_filter() {
    let mut registry = ServiceRegistry::new(10);
    registry.register(create_test_service("a", 1));
    registry.register(create_test_service("b", 1));
    registry.update_health_at("b", HealthStatus::Unhealthy, 1).unwrap();
    let healthy = registry.get_healthy_services();
    assert_eq!(healthy.len(), 1);
    assert_eq!(healthy[0].id, "a");
    registry.unregister("a");
    assert!(registry.get_service("a").is_none());
    assert!(registry.get_healthy_services().is_empty());
}

#[test]
fn query_keeps_order_and_drops_rejected() {
    let mut registry = ServiceRegistry::new(10);
    registry.register(create_test_service("a", 1));
    let mut b = create_test_service("b", 1);
    b.version = "2.0.0".to_string();
    registry.register(b);
    registry.register(create_test_service("c", 1));
    let found = registry.query(|s: &ServiceInfo| s.version == "1.0.0");
    let ids: Vec<&str> = found.iter().map(|s| s.id.as_str()).collect();
    assert_eq!(ids, vec!["a", "c"]);
}
