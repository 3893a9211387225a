use tcpserver::connection_service::{ConnectionError, ConnectionService, HEARTBEAT_TIMEOUT_MS};
use tcpserver::error::{ErrorSeverity, TcpServerError};
use tcpserver::heartbeat_service::{HealthScore, HeartbeatService};
use tcpserver::protocol::GameMessage;
use tcpserver::simple_services::SimpleTcpService;

#[test]
fn test_connection_service() {
    let service = ConnectionService::new(100, 0);
    assert_eq!(service.get_connection_count(), 0);
    assert_eq!(service.get_uptime_seconds(0), 0);
    let stats = service.get_connection_stats();
    assert_eq!(stats.current_connections, 0);
    assert_eq!(stats.total_connections, 0);
}

#[test]
fn test_connection_service_stats() {
    let service = ConnectionService::new(100, 0);
    let stats = service.get_connection_stats();
    assert_eq!(stats.total_connections, 0);
    assert_eq!(stats.current_connections, 0);
    assert_eq!(stats.peak_connections, 0);
    assert_eq!(stats.total_messages, 0);
}

#[test]
fn test_connection_timeout() {
    let mut service = ConnectionService::new(100, 0);
    let cleanup_count = service.cleanup_timeout_connections(0).len();
    assert_eq!(cleanup_count, 0);
}

#[test]
fn test_close_all_connections() {
    let mut service = ConnectionService::new(100, 0);
    service.close_all_connections();
    assert_eq!(service.get_connection_count(), 0);
}

#[test]
fn test_send_to_nonexistent_client() {
    let service = ConnectionService::new(100, 0);
    assert!(service.check_recipient(999).is_err());
}

#[test]
fn test_connection_service_user_list() {
    let service = ConnectionService::new(100, 0);
    assert_eq!(service.get_all_users(0).len(), 0);
}

#[test]
fn ids_are_handed_out_in_order_up_to_the_limit() {
    let mut s = ConnectionService::new(2, 1_000);
    assert_eq!(s.handle_new_connection("a:1".to_string(), 1_000), Ok(1));
    assert_eq!(s.handle_new_connection("b:2".to_string(), 2_000), Ok(2));
    assert_eq!(s.handle_new_connection("c:3".to_string(), 3_000), Err(ConnectionError::ServerFull));
    assert_eq!(s.get_connection_count(), 2);
    let stats = s.get_connection_stats();
    assert_eq!(stats.total_connections, 2);
    assert_eq!(stats.current_connections, 2);
    assert_eq!(stats.peak_connections, 2);
    assert!(s.remove_connection(1));
    assert!(!s.remove_connection(1));
    assert_eq!(s.get_connection_stats().current_connections, 1);
    assert_eq!(s.get_connection_stats().peak_connections, 2);
    assert_eq!(s.user_ids(), vec![2]);
}

#[test]
fn a_client_id_replaces_the_earlier_connection() {
    let mut s = ConnectionService::new(10, 0);
    assert_eq!(s.handle_new_connection_with_id("x".to_string(), 42, 0), Ok(42));
    assert_eq!(s.handle_new_connection_with_id("y".to_string(), 42, 5_000), Ok(42));
    assert_eq!(s.get_connection_count(), 1);
    let info = s.get_user_info(42, 9_000).unwrap();
    assert_eq!(info.addr, "y");
    assert_eq!(info.uptime_seconds, 4);
    assert_eq!(info.connected_timestamp, 5);
    assert_eq!(s.get_connection_stats().current_connections, 1);
    assert_eq!(s.get_connection_stats().total_connections, 2);
}

#[test]
fn heartbeats_are_answered_and_renew_the_connection() {
    let mut s = ConnectionService::new(10, 0);
    let id = s.handle_new_connection("a".to_string(), 0).unwrap();
    let reply = s.on_message(id, &GameMessage::HeartBeat, 1_700_000_000_123);
    assert_eq!(reply, Some(GameMessage::HeartBeatResponse { timestamp: 1_700_000_000 }));
    assert_eq!(s.get_user_info(id, 1_700_000_000_123).unwrap().last_heartbeat_ms, 1_700_000_000_123);
    let other = s.on_message(id, &GameMessage::RoomLeave { user_id: id, room_id: 1 }, 5);
    assert_eq!(other, None);
    assert_eq!(s.on_message(77, &GameMessage::HeartBeat, 5), None);
    assert_eq!(s.get_connection_stats().total_messages, 3);
}

#[test]
fn silent_connections_time_out() {
    let mut s = ConnectionService::new(10, 0);
    let a = s.handle_new_connection("a".to_string(), 0).unwrap();
    let b = s.handle_new_connection("b".to_string(), 0).unwrap();
    s.on_message(b, &GameMessage::HeartBeat, 1_000_000);
    let removed = s.cleanup_timeout_connections(HEARTBEAT_TIMEOUT_MS + 1);
    assert_eq!(removed, vec![a]);
    assert_eq!(s.user_ids(), vec![b]);
    let stats = s.get_connection_stats();
    assert_eq!(stats.timeout_disconnections, 1);
    assert_eq!(stats.current_connections, 1);
    assert!(s.cleanup_timeout_connections(HEARTBEAT_TIMEOUT_MS).is_empty());
}

#[test]
fn failed_acknowledgements_drop_the_connection() {
    let mut s = ConnectionService::new(10, 0);
    let id = s.handle_new_connection("a".to_string(), 0).unwrap();
    let report = s.on_ack_failed(id, "a".to_string(), "broken pipe");
    assert_eq!(report.context.severity, ErrorSeverity::Error);
    match &report.context.error {
        TcpServerError::Connection { message, .. } => assert!(message.ends_with("broken pipe")),
        other => panic!("unexpected {:?}", other),
    }
    assert!(!s.has_user(id));
    s.on_reader_closed(id);
    assert_eq!(s.get_connection_stats().current_connections, 0);
}

#[test]
fn heartbeat_service_test_heartbeat_service_lifecycle() {
    let mut connections = ConnectionService::new(100, 0);
    let mut heartbeat_service = HeartbeatService::new(1, 3);
    assert!(!heartbeat_service.is_running());
    assert!(heartbeat_service.start());
    assert!(heartbeat_service.is_running());
    heartbeat_service.run_cleanup_round(&mut connections, 100);
    let stats = heartbeat_service.get_heartbeat_stats();
    assert_eq!(stats.active_connections, 0);
    assert!(heartbeat_service.stop());
    assert!(!heartbeat_service.is_running());
}

#[test]
fn test_heartbeat_config() {
    let heartbeat_service = HeartbeatService::new(5, 15);
    let (interval, timeout) = heartbeat_service.get_config();
    assert_eq!(interval, 5);
    assert_eq!(timeout, 15);
}

#[test]
fn test_connection_health() {
    let connections = ConnectionService::new(100, 0);
    let heartbeat_service = HeartbeatService::with_default_config();
    let health = heartbeat_service.evaluate_connection_health(&connections);
    assert_eq!(health.score, HealthScore::Excellent);
    assert_eq!(health.active_connections, 0);
}

#[test]
fn test_heartbeat_default_config() {
    let connections = ConnectionService::new(100, 0);
    let heartbeat_service = HeartbeatService::with_default_config();
    assert!(!heartbeat_service.is_running());
    assert_eq!(HeartbeatService::get_active_connections(&connections), 0);
    let (interval, timeout) = heartbeat_service.get_config();
    assert_eq!(interval, 10);
    assert_eq!(timeout, 30);
}

#[test]
fn test_manual_cleanup() {
    let mut connections = ConnectionService::new(100, 0);
    let mut heartbeat_service = HeartbeatService::with_default_config();
    assert_eq!(heartbeat_service.cleanup_now(&mut connections, 0).len(), 0);
}

#[test]
fn health_grades_follow_the_timeout_share() {
    assert_eq!(HealthScore::for_rates(0, 0), HealthScore::Excellent);
    assert_eq!(HealthScore::for_rates(0, 10), HealthScore::Excellent);
    assert_eq!(HealthScore::for_rates(1, 101), HealthScore::Excellent);
    assert_eq!(HealthScore::for_rates(1, 100), HealthScore::Good);
    assert_eq!(HealthScore::for_rates(4, 100), HealthScore::Good);
    assert_eq!(HealthScore::for_rates(5, 100), HealthScore::Fair);
    assert_eq!(HealthScore::for_rates(10, 100), HealthScore::Poor);
    assert_eq!(HealthScore::for_rates(20, 100), HealthScore::Critical);
    assert_eq!(HealthScore::for_rates(u64::MAX, 1), HealthScore::Critical);
}

#[test]
fn cleanup_rounds_count_timeouts() {
    let mut connections = ConnectionService::new(100, 0);
    connections.handle_new_connection("a".to_string(), 0).unwrap();
    connections.handle_new_connection("b".to_string(), 0).unwrap();
    let mut hb = HeartbeatService::with_default_config();
    let removed = hb.run_cleanup_round(&mut connections, HEARTBEAT_TIMEOUT_MS + 5_000);
    assert_eq!(removed.len(), 2);
    let stats = hb.get_heartbeat_stats();
    assert_eq!(stats.timeout_cleanups, 2);
    assert_eq!(stats.last_cleanup_timestamp, Some(1805));
    assert_eq!(stats.active_connections, 0);
    assert!(HeartbeatService::check_heartbeat_client(&connections, 1).is_some());
    hb.heartbeat_delivered();
    assert_eq!(hb.get_heartbeat_stats().total_heartbeats, 1);
}

#[test]
fn test_simple_tcp_service_creation() {
    let service = SimpleTcpService::new(0);
    assert_eq!(service.get_status(), "ready");
}

#[test]
fn test_service_stop() {
    let mut service = SimpleTcpService::new(0);
    assert!(service.start("127.0.0.1:0"));
    assert_eq!(service.get_status(), "running");
    assert!(!service.start("127.0.0.1:0"));
    assert!(service.stop());
    assert!(!service.stop());
    assert_eq!(service.get_status(), "ready");
}
