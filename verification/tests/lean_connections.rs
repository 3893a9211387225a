use tcpserver::optimized_connection::{
    OptimizedConnectionError, OptimizedConnectionService, OptimizedConnectionStats, OptimizedUserConnection,
};

#[test]
fn lean_registry_admits_up_to_the_limit() {
    let mut s = OptimizedConnectionService::new(2, 100);
    assert_eq!(s.get_stats(), OptimizedConnectionStats::default());
    assert_eq!(s.handle_new_connection("a:1".to_string(), 100), Ok(1));
    assert_eq!(s.handle_new_connection("b:2".to_string(), 101), Ok(2));
    assert_eq!(
        s.handle_new_connection("c:3".to_string(), 102),
        Err(OptimizedConnectionError::ServerFull { current: 2, max: 2 })
    );
    assert_eq!(s.get_connection_count(), 2);
    let st = s.get_stats();
    assert_eq!(st.total_connections, 2);
    assert_eq!(st.peak_connections, 2);
    s.remove_connection(1);
    s.remove_connection(1);
    assert_eq!(s.get_connection_count(), 1);
    assert_eq!(s.get_stats().peak_connections, 2);
    assert_eq!(s.handle_new_connection("c:3".to_string(), 103), Ok(3));
    assert!(s.get_connection(1).is_none());
    let c = s.get_connection(3).unwrap();
    assert_eq!(c.addr, "c:3");
    assert_eq!(c.connected_at, 103);
}

#[test]
fn lean_broadcast_skips_the_excluded_user_and_counts_every_connection() {
    let mut s = OptimizedConnectionService::new(10, 0);
    for i in 0..3 {
        s.handle_new_connection(format!("h:{}", i), 0).unwrap();
    }
    let mut some = s.broadcast_message(Some(2));
    some.sort();
    assert_eq!(some, vec![1, 3]);
    assert_eq!(s.get_stats().total_messages, 3);
    let mut all = s.broadcast_message(None);
    all.sort();
    assert_eq!(all, vec![1, 2, 3]);
    assert_eq!(s.get_stats().total_messages, 6);
}

#[test]
fn lean_heartbeats_and_timeouts() {
    let mut s = OptimizedConnectionService::new(10, 0);
    let id = s.handle_new_connection("x".to_string(), 10).unwrap();
    assert!(s.update_heartbeat(id, 500));
    assert!(!s.update_heartbeat(99, 500));
    let c = s.get_connection(id).unwrap();
    assert_eq!(c.last_heartbeat, 500);
    assert!(!c.is_heartbeat_timeout(2_300));
    assert!(c.is_heartbeat_timeout(2_301));
    let mut own = OptimizedUserConnection::new(7, "y".to_string(), 5);
    own.update_heartbeat(9);
    assert_eq!(own.last_heartbeat, 9);
    assert_eq!(own.connected_at, 5);
}
