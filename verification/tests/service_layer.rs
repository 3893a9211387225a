use tcpserver::connection_service::ConnectionService;
use tcpserver::heartbeat_service::{HealthScore, HeartbeatService};
use tcpserver::simple_services::SimpleTcpService;

#[test]
fn test_service_status() {
    let service = SimpleTcpService::new(0);
    let status = service.get_status();
    assert!(!status.is_empty());
    assert_eq!(status, "ready");
}

#[test]
fn test_service_start() {
    let mut service = SimpleTcpService::new(0);
    assert!(service.start("127.0.0.1:0"));
}

#[test]
fn test_service_test_service_lifecycle() {
    let mut service = SimpleTcpService::new(0);
    assert_eq!(service.get_status(), "ready");
    assert!(service.start("127.0.0.1:0"));
    assert!(service.stop());
}

#[test]
fn test_service_concurrency() {
    // The three operations of the original, run one after the other on the
    // same service: each of them succeeds.
    let mut service = SimpleTcpService::new(0);
    assert!(service.start("127.0.0.1:0"));
    assert!(!service.get_status().is_empty());
    assert!(service.stop());
}

#[test]
fn test_service_state_persistence() {
    let mut service = SimpleTcpService::new(0);
    let initial_status = service.get_status();
    assert!(service.start("127.0.0.1:0"));
    let started_status = service.get_status();
    assert!(service.stop());
    let stopped_status = service.get_status();
    assert_eq!(initial_status, "ready");
    assert_eq!(started_status, "running");
    assert_eq!(stopped_status, "ready");
}

#[test]
fn test_service_error_handling() {
    let mut service = SimpleTcpService::new(0);
    assert!(service.start("127.0.0.1:0"));
    assert!(service.stop());
    assert!(!service.get_status().is_empty());
}

#[test]
fn test_service_test_connection_service_creation() {
    let max_connections = 100;
    let service = ConnectionService::new(max_connections, 5_000);
    assert_eq!(service.get_connection_count(), 0);
    assert_eq!(service.get_uptime_seconds(5_000), 0);
    assert_eq!(service.get_uptime_seconds(12_500), 7);
}

#[test]
fn test_connection_service_cleanup() {
    let mut service = ConnectionService::new(100, 0);
    let cleanup_count = service.cleanup_timeout_connections(0).len();
    assert_eq!(cleanup_count, 0);
}

#[test]
fn test_service_test_heartbeat_service_creation() {
    let heartbeat_service = HeartbeatService::new(1, 3);
    assert!(!heartbeat_service.is_running());
    let (interval, timeout) = heartbeat_service.get_config();
    assert_eq!(interval, 1);
    assert_eq!(timeout, 3);
}

#[test]
fn test_heartbeat_service_default_config() {
    let heartbeat_service = HeartbeatService::with_default_config();
    let (interval, timeout) = heartbeat_service.get_config();
    assert_eq!(interval, 10);
    assert_eq!(timeout, 30);
}

#[test]
fn test_service_test_heartbeat_service_lifecycle() {
    let mut heartbeat_service = HeartbeatService::new(1, 3);
    assert!(!heartbeat_service.is_running());
    assert!(heartbeat_service.start());
    assert!(heartbeat_service.is_running());
    assert!(heartbeat_service.stop());
    assert!(!heartbeat_service.is_running());
}

#[test]
fn test_heartbeat_service_stats() {
    let heartbeat_service = HeartbeatService::with_default_config();
    let stats = heartbeat_service.get_heartbeat_stats();
    assert_eq!(stats.total_heartbeats, 0);
    assert_eq!(stats.timeout_cleanups, 0);
    assert_eq!(stats.active_connections, 0);
}

#[test]
fn test_heartbeat_service_health() {
    let connections = ConnectionService::new(100, 0);
    let heartbeat_service = HeartbeatService::with_default_config();
    let health = heartbeat_service.evaluate_connection_health(&connections);
    assert_eq!(health.active_connections, 0);
    assert_eq!(health.timeout_cleanups, 0);
    assert_eq!(health.score, HealthScore::Excellent);
}

#[test]
fn test_heartbeat_service_manual_cleanup() {
    let mut connections = ConnectionService::new(100, 0);
    let mut heartbeat_service = HeartbeatService::with_default_config();
    let cleanup_count = heartbeat_service.cleanup_now(&mut connections, 0).len();
    assert_eq!(cleanup_count, 0);
}

#[test]
fn test_heartbeat_service_active_connections() {
    let connections = ConnectionService::new(100, 0);
    assert_eq!(HeartbeatService::get_active_connections(&connections), 0);
}

#[test]
fn test_heartbeat_test_heartbeat_service_creation() {
    let heartbeat_service = HeartbeatService::with_default_config();
    assert!(!heartbeat_service.is_running());
}

#[test]
fn test_heartbeat_start_stop() {
    let mut heartbeat_service = HeartbeatService::with_default_config();
    assert!(!heartbeat_service.is_running());
    assert!(heartbeat_service.start());
    assert!(heartbeat_service.is_running());
    assert!(heartbeat_service.stop());
    assert!(!heartbeat_service.is_running());
}

#[test]
fn test_heartbeat_active_connections() {
    let connections = ConnectionService::new(100, 0);
    let initial_count = HeartbeatService::get_active_connections(&connections);
    assert_eq!(initial_count, 0);
    assert_eq!(initial_count, connections.get_connection_count());
}

#[test]
fn test_connection_test_connection_service_creation() {
    let service = ConnectionService::new(100, 0);
    assert_eq!(service.get_connection_count(), 0);
}

#[test]
fn test_connection_count() {
    let service = ConnectionService::new(100, 0);
    assert_eq!(service.get_connection_count(), 0);
}
