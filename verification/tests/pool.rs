use tcpserver::connection_pool::{
    AcquireStep, AdvancedConnectionPool, ConnectionPoolConfig, ConnectionState, LoadBalancingStrategy,
    PoolError, PooledConnection, ScaleDecision,
};

fn small_config() -> ConnectionPoolConfig {
    let mut c = ConnectionPoolConfig::default();
    c.min_connections = 1;
    c.max_connections = 5;
    c
}

#[test]
fn pool_needs_an_address() {
    let r = AdvancedConnectionPool::new(small_config(), 0, LoadBalancingStrategy::RoundRobin);
    assert_eq!(r.err(), Some(PoolError::NoAddresses));
}

#[test]
fn pool_config_defaults() {
    let c = ConnectionPoolConfig::default();
    assert_eq!(c.min_connections, 5);
    assert_eq!(c.max_connections, 100);
    assert_eq!(c.max_requests_per_connection, 10000);
    assert_eq!(c.idle_timeout_secs, 300);
    assert_eq!(c.max_lifetime_secs, 3600);
    assert_eq!(c.acquire_timeout_ms, 5000);
    assert_eq!(c.scale_up_threshold_permille, 800);
    assert_eq!(c.scale_down_threshold_permille, 200);
    assert_eq!(c.max_retries, 3);
}

#[test]
fn round_robin_cycles_addresses() {
    let mut p = AdvancedConnectionPool::new(small_config(), 3, LoadBalancingStrategy::RoundRobin).unwrap();
    let picks: Vec<usize> = (0..5).map(|_| p.select_address()).collect();
    assert_eq!(picks, vec![0, 1, 2, 0, 1]);
}

#[test]
fn other_strategies_pick_first_or_random() {
    let mut p = AdvancedConnectionPool::new(small_config(), 4, LoadBalancingStrategy::LeastConnections).unwrap();
    assert_eq!(p.select_address(), 0);
    let mut r = AdvancedConnectionPool::new(small_config(), 4, LoadBalancingStrategy::Random).unwrap();
    for _ in 0..20 {
        assert!(r.select_address() < 4);
    }
    assert_eq!(r.select_address_with(3), 3);
}

#[test]
fn acquire_connects_then_reuses_idle() {
    let mut p = AdvancedConnectionPool::new(small_config(), 2, LoadBalancingStrategy::RoundRobin).unwrap();
    let step = p.acquire_step(0, 1000);
    assert_eq!(step, AcquireStep::Connect { conn_id: 1, addr_index: 0 });
    assert_eq!(p.connect_succeeded(1, 0, 1000), AcquireStep::Ready(1));
    assert_eq!(p.connection_count(), 1);
    let c = p.connection(1).unwrap();
    assert_eq!(c.state, ConnectionState::Active);
    assert_eq!(c.request_count, 1);
    p.release(1);
    assert_eq!(p.connection(1).unwrap().state, ConnectionState::Idle);
    assert_eq!(p.acquire_step(0, 2000), AcquireStep::Ready(1));
    assert_eq!(p.connection(1).unwrap().request_count, 2);
    let report = p.get_performance_report();
    assert_eq!(report.total_connections, 1);
    assert_eq!(report.connections_created, 1);
    assert_eq!(report.active_connections, 1);
}

#[test]
fn full_pool_retries_then_fails() {
    let mut cfg = small_config();
    cfg.max_connections = 1;
    let mut p = AdvancedConnectionPool::new(cfg, 1, LoadBalancingStrategy::RoundRobin).unwrap();
    assert!(matches!(p.acquire_step(0, 0), AcquireStep::Connect { .. }));
    p.connect_succeeded(1, 0, 0);
    assert_eq!(p.acquire_step(0, 0), AcquireStep::RetryAfterMs(100));
    assert_eq!(p.acquire_step(2, 0), AcquireStep::RetryAfterMs(300));
    assert_eq!(p.acquire_step(3, 0), AcquireStep::Failed(PoolError::MaxConnections));
    assert_eq!(p.connect_failed(1), AcquireStep::RetryAfterMs(200));
    assert_eq!(p.connect_failed(3), AcquireStep::Failed(PoolError::ConnectFailed));
}

#[test]
fn expired_idle_connections_are_skipped() {
    let mut p = AdvancedConnectionPool::new(small_config(), 1, LoadBalancingStrategy::RoundRobin).unwrap();
    p.connection_established(7, 0, 0);
    p.release(7);
    // idle for more than 300 s
    assert_eq!(p.take_idle_connection(301_001), None);
    p.release(7);
    assert_eq!(p.take_idle_connection(300_999), Some(7));
}

#[test]
fn pooled_connection_lifecycle() {
    let cfg = ConnectionPoolConfig::default();
    let mut c = PooledConnection::new(3, 0, 0);
    assert_eq!(c.acquire(10), Ok(()));
    assert_eq!(c.acquire(11), Err(PoolError::NotAvailable));
    c.release();
    assert!(!c.is_expired(&cfg, 3_600_999));
    assert!(c.is_expired(&cfg, 3_601_000));
    assert!(!c.record_health(false));
    assert_eq!(c.error_count, 1);
    assert!(!c.is_healthy);
    c.begin_warm_up();
    assert_eq!(c.state, ConnectionState::Warming);
    c.finish_warm_up();
    assert_eq!(c.state, ConnectionState::Idle);
}

#[test]
fn failed_health_check_removes() {
    let mut p = AdvancedConnectionPool::new(small_config(), 1, LoadBalancingStrategy::RoundRobin).unwrap();
    p.connection_established(1, 0, 0);
    p.connection_established(2, 0, 0);
    p.record_health_check(1, true);
    p.record_health_check(2, false);
    assert_eq!(p.connection_count(), 1);
    assert_eq!(p.get_performance_report().connections_destroyed, 1);
    assert_eq!(p.get_performance_report().total_connections, 1);
}

#[test]
fn scaling_amounts_and_decisions() {
    let mut cfg = small_config();
    cfg.min_connections = 1;
    cfg.max_connections = 9;
    let mut p = AdvancedConnectionPool::new(cfg, 1, LoadBalancingStrategy::RoundRobin).unwrap();
    // no connections: use counts as 0, below 20%
    assert_eq!(p.scale_decision(), ScaleDecision::ScaleDown);
    assert_eq!(p.scale_up_amount(), 2);
    for id in 1..=5u64 {
        p.connection_established(id, 0, 0);
        p.release(id);
    }
    // 5 held, min 1: a quarter of 4 is 1
    assert_eq!(p.scale_down(), 1);
    assert_eq!(p.connection_count(), 4);
    assert_eq!(p.scale_up_amount(), 1);
    p.record_scale_up();
    assert_eq!(p.get_performance_report().scale_events, 2);
}

#[test]
fn scale_down_stops_at_minimum() {
    let mut cfg = small_config();
    cfg.min_connections = 2;
    let mut p = AdvancedConnectionPool::new(cfg, 1, LoadBalancingStrategy::RoundRobin).unwrap();
    p.connection_established(1, 0, 0);
    p.connection_established(2, 0, 0);
    p.release(1);
    assert_eq!(p.scale_down(), 0);
    assert_eq!(p.connection_count(), 2);
}
