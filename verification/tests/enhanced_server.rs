use tcpserver::enhanced_tcp_service::{EnhancedTcpConfig, EnhancedTcpGameService, PerformanceStats};

#[test]
fn enhanced_config_defaults() {
    let c = EnhancedTcpConfig::default();
    assert_eq!(c.bind_address, "127.0.0.1:4000");
    assert_eq!(c.max_connections, 2000);
    assert_eq!(c.heartbeat_interval_secs, 10);
    assert_eq!(c.connection_timeout_secs, 30);
    assert_eq!(c.io_buffer_size, 65536);
    assert_eq!(c.message_batch_size, 100);
    assert_eq!(c.flush_interval_ms, 5);
    assert!(c.worker_threads >= 1);
    assert_eq!(c.connection_pool_size, 100);
    assert_eq!(c.dashmap_shard_count, 32);
    assert_eq!(c.max_pending_messages, 10000);
    assert_eq!(c.backpressure_threshold_permille, 800);
    assert!(c.enable_metrics);
    assert_eq!(c.metrics_interval_secs, 10);
}

#[test]
fn enhanced_server_starts_once_and_stops_once() {
    let mut s = EnhancedTcpGameService::new(EnhancedTcpConfig::default(), 1000);
    assert!(!s.is_running());
    assert!(s.start());
    assert!(s.is_running());
    assert!(!s.start());
    assert!(s.is_running());
    assert!(s.stop());
    assert!(!s.is_running());
    assert!(!s.stop());
}

#[test]
fn enhanced_server_counts_connections_and_errors() {
    let mut s = EnhancedTcpGameService::new(EnhancedTcpConfig::default(), 0);
    assert_eq!(s.get_stats(), PerformanceStats::default());
    s.record_connection();
    s.record_connection();
    s.record_error();
    let st = s.get_stats();
    assert_eq!(st.active_connections, 2);
    assert_eq!(st.errors, 1);
    assert_eq!(st.total_connections, 0);
}

#[test]
fn enhanced_server_metrics_tick_without_traffic() {
    let mut s = EnhancedTcpGameService::new(EnhancedTcpConfig::default(), 0);
    assert_eq!(s.metrics_tick(0), 0);
    assert_eq!(s.get_stats().throughput_msg_sec, 0);
}

#[test]
fn enhanced_server_registry_admits_connections() {
    let mut c = EnhancedTcpConfig::default();
    c.max_connections = 1;
    let mut s = EnhancedTcpGameService::new(c, 5);
    let reg = s.connection_service_mut();
    let first = reg.handle_new_connection(String::from("10.0.0.1:1"), 5);
    assert!(first.is_ok());
    let second = reg.handle_new_connection(String::from("10.0.0.2:2"), 5);
    assert!(second.is_err());
    assert_eq!(s.connection_service_mut().get_connection_count(), 1);
    assert!(!s.is_running());
}

#[test]
fn enhanced_server_counts_accepts_and_latency() {
    let mut s = EnhancedTcpGameService::new(EnhancedTcpConfig::default(), 0);
    s.record_accepted();
    s.record_accepted();
    s.record_latency(150);
    s.record_latency(50);
    let st = s.get_stats();
    assert_eq!(st.total_connections, 2);
    assert_eq!(st.avg_latency_us, 200);
    assert_eq!(st.active_connections, 0);
    assert_eq!(st.errors, 0);
}
