use proving_service::address::address_is_usable;
use proving_service::address::create_health_check_client;
use proving_service::address::worker_uri_text;
use proving_service::error::ProxyError;
use proving_service::policy::ProxyPolicy;
use std::time::Duration;

#[test]
fn worker_uri_is_plain_http() {
    assert_eq!(worker_uri_text(&"127.0.0.1:8082".to_string()), "http://127.0.0.1:8082");
    assert_eq!(worker_uri_text(&"".to_string()), "http://");
}

#[test]
fn host_and_port_is_a_usable_address() {
    assert!(address_is_usable(&"127.0.0.1:8082".to_string()));
    assert!(address_is_usable(&"localhost:50051".to_string()));
    assert!(address_is_usable(&"prover-3.internal:443".to_string()));
}

#[test]
fn malformed_address_is_not_usable() {
    assert!(!address_is_usable(&"not an address".to_string()));
    assert!(!address_is_usable(&"host:port:extra".to_string()));
    assert!(!address_is_usable(&"ho\nst:1".to_string()));
}

#[test]
fn health_check_endpoint_targets_the_worker() {
    let endpoint = create_health_check_client(
        "127.0.0.1:8082".to_string(),
        Duration::from_millis(100),
        Duration::from_millis(500),
    )
    .expect("the address is usable");
    assert_eq!(endpoint.uri().to_string(), "http://127.0.0.1:8082/");
}

#[test]
fn health_check_endpoint_rejects_malformed_address() {
    let r = create_health_check_client(
        "no such host".to_string(),
        Duration::from_millis(100),
        Duration::from_millis(500),
    );
    match r {
        Err(ProxyError::InvalidAddress(a)) => assert_eq!(a, "no such host"),
        _ => panic!("expected InvalidAddress"),
    }
}

#[test]
fn policy_validity() {
    let policy = ProxyPolicy {
        max_queue_capacity: 10,
        max_requests_per_second: 5,
        connect_timeout_ms: 100,
        total_timeout_ms: 1_000,
        health_check_interval_ms: 500,
        unhealthy_eviction_threshold: 3,
        max_dispatch_attempts: 2,
    };
    assert!(policy.is_valid());
    assert!(!ProxyPolicy { max_queue_capacity: 0, ..policy }.is_valid());
    assert!(!ProxyPolicy { max_requests_per_second: 0, ..policy }.is_valid());
    assert!(!ProxyPolicy { unhealthy_eviction_threshold: 0, ..policy }.is_valid());
    assert!(!ProxyPolicy { max_dispatch_attempts: 0, ..policy }.is_valid());
}

#[test]
fn health_check_endpoint_prints_the_uri_as_the_library_does() {
    let endpoint = create_health_check_client(
        "localhost:50051/health#now".to_string(),
        Duration::from_millis(100),
        Duration::from_millis(500),
    )
    .expect("the address is usable");
    assert_eq!(endpoint.uri().to_string(), "http://localhost:50051/health");
}
