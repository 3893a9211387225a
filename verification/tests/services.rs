use tcpserver::message_service::{Dispatch, MessageService, MessageServiceError};
use tcpserver::optimized::OptimizedGameMessage;
use tcpserver::parallel_broadcast::{ParallelBroadcastConfig, ParallelBroadcastService, ParallelBroadcastStats};
use tcpserver::protocol::GameMessage;
use tcpserver::tcp_service::{TcpGameService, TcpServerConfig};

#[test]
fn test_tcp_server_config() {
    let config = TcpServerConfig::default();
    assert_eq!(config.bind_address, "127.0.0.1:4000");
    assert_eq!(config.max_connections, 1000);
    assert_eq!(config.heartbeat_interval_secs, 10);
}

#[test]
fn test_custom_config() {
    let config = TcpServerConfig {
        bind_address: "0.0.0.0:9999".to_string(),
        max_connections: 500,
        heartbeat_interval_secs: 5,
        connection_timeout_secs: 15,
        enable_compression: true,
        enable_logging: false,
        enable_enhanced_memory_pool: false,
        enable_async_scheduler: false,
    };

    let service = TcpGameService::with_config(config.clone(), 0);
    assert_eq!(service.get_config().bind_address, "0.0.0.0:9999");
    assert_eq!(service.get_config().max_connections, 500);
    assert!(!service.get_config().enable_enhanced_memory_pool);
    assert!(!service.get_config().enable_async_scheduler);
}

#[test]
fn service_lifecycle() {
    let mut service = TcpGameService::with_default_config(0);
    assert!(!service.is_running());
    assert_eq!(service.get_connection_count(), 0);
    assert!(!service.stop());
    let stats = service.get_server_stats(5_000);
    assert!(!stats.is_running);
    assert_eq!(stats.connection_count, 0);
    assert_eq!(stats.uptime_seconds, 5);
    assert!(stats.enhanced_memory_pool_enabled);
    assert!(stats.async_scheduler_enabled);
    assert!(service.mark_started());
    assert!(!service.mark_started());
    assert!(service.get_server_stats(0).heartbeat_running);
    assert!(service.stop());
    assert!(!service.get_server_stats(0).heartbeat_running);
}

#[test]
fn test_message_service() {
    let service = MessageService::new();
    assert!(!service.is_processing());
    let stats = service.get_message_stats();
    assert_eq!(stats.total_messages, 0);
}

#[test]
fn message_service_test_message_handler_registration() {
    let mut service = MessageService::new();
    service.register_handler("test");
    assert!(service.has_handler(&"test".to_string()));
    assert!(!service.has_handler(&"chat".to_string()));
}

#[test]
fn routing_type_names() {
    assert_eq!(MessageService::get_message_type(&GameMessage::HeartBeat), "heartbeat");
    assert_eq!(
        MessageService::get_message_type(&GameMessage::ChatMessage { user_id: 1, room_id: 2, message: "x".into() }),
        "chat"
    );
    assert_eq!(
        MessageService::get_message_type(&GameMessage::FriendRemove { user_id: 1, friend_user_id: 2 }),
        "friend_remove"
    );
}

#[test]
fn routing_decisions() {
    let mut service = MessageService::new();
    assert_eq!(
        service.route_message(Some(4), &GameMessage::HeartBeat, 1700),
        Dispatch::Reply(4, GameMessage::HeartBeatResponse { timestamp: 1700 })
    );
    assert_eq!(service.route_message(None, &GameMessage::HeartBeat, 1700), Dispatch::Ignore);
    assert_eq!(
        service.route_message(Some(4), &GameMessage::Error { code: 1, message: "e".into() }, 0),
        Dispatch::LogError
    );
    service.register_handler("heartbeat");
    assert_eq!(service.route_message(Some(4), &GameMessage::HeartBeat, 0), Dispatch::Handler(4));
}

#[test]
fn message_counters() {
    let mut service = MessageService::new();
    service.update_message_stats("heartbeat", true);
    service.update_message_stats("chat", false);
    let err = service.send_error(400, "bad");
    assert_eq!(err, GameMessage::Error { code: 400, message: "bad".into() });
    service.record_broadcast();
    let s = service.get_message_stats();
    assert_eq!(s.total_messages, 4);
    assert_eq!(s.heartbeat_messages, 1);
    assert_eq!(s.chat_messages, 1);
    assert_eq!(s.error_messages, 1);
    assert_eq!(s.failed_messages, 1);
    assert_eq!(s.broadcast_messages, 0);
}

#[test]
fn processing_start_stop() {
    let mut service = MessageService::new();
    assert_eq!(service.start_processing(), Ok(true));
    assert_eq!(service.start_processing(), Ok(false));
    assert!(service.stop_processing());
    assert!(!service.stop_processing());
    assert_eq!(service.start_processing(), Err(MessageServiceError::ReceiverInUse));
    assert!(service.is_processing());
}

#[test]
fn test_parallel_broadcast_creation() {
    let service = ParallelBroadcastService::new(None);
    let stats = service.get_stats();
    assert_eq!(stats.total_broadcasts, 0);
    assert_eq!(stats.successful_messages, 0);
    assert_eq!(stats.failed_messages, 0);
    let config = service.get_config();
    assert_eq!(config.batch_size, 100);
    assert!(config.max_parallel_tasks >= 1);
}

#[test]
fn batches_cover_recipients_in_order() {
    let mut config = ParallelBroadcastConfig::default();
    config.batch_size = 3;
    let service = ParallelBroadcastService::new(Some(config));
    let users: Vec<u32> = (1..=7).collect();
    let batches = service.plan_batches(&users);
    assert_eq!(batches, vec![vec![1, 2, 3], vec![4, 5, 6], vec![7]]);
    assert!(service.plan_batches(&vec![]).is_empty());
}

#[test]
fn broadcast_accounting() {
    let mut service = ParallelBroadcastService::new(None);
    let (ok, over) = service.finish_room_broadcast(10, &vec![true; 9].into_iter().chain([false]).collect(), 800);
    assert_eq!(ok, 9);
    assert!(!over); // 10% is not above the 10% threshold
    let (ok2, over2) = service.finish_room_broadcast(5, &vec![true, false, false, true, true], 1600);
    assert_eq!(ok2, 3);
    assert!(over2);
    let s = service.get_stats();
    assert_eq!(s.total_broadcasts, 2);
    assert_eq!(s.successful_messages, 12);
    assert_eq!(s.failed_messages, 3);
    assert_eq!(s.avg_broadcast_time_us, (800 * 7 + 1600) / 8);
    assert_eq!(s.max_concurrent_connections, 5);
    service.record_multi_room(4);
    assert_eq!(service.get_stats().parallel_rooms_processed, 4);
}

#[test]
fn weighted_average() {
    let mut s = ParallelBroadcastStats::new();
    s.record_broadcast(100, 1, 0);
    assert_eq!(s.avg_broadcast_time_us, 100);
    s.record_broadcast(900, 1, 0);
    assert_eq!(s.avg_broadcast_time_us, 200);
}

#[test]
fn binary_payload_matches_encoder() {
    let service = ParallelBroadcastService::new(None);
    let msg = GameMessage::HeartBeat;
    let bytes = service.binary_payload(&msg).unwrap().unwrap();
    assert_eq!(bytes, OptimizedGameMessage::from_game_message(&msg).to_bytes().unwrap());
    let mut config = ParallelBroadcastConfig::default();
    config.use_binary_protocol = false;
    let text = ParallelBroadcastService::new(Some(config));
    assert!(text.binary_payload(&msg).is_none());
}

#[test]
fn test_parallel_config() {
    let config = ParallelBroadcastConfig {
        max_parallel_tasks: 8,
        batch_size: 50,
        use_binary_protocol: true,
        error_threshold_permille: 50,
        timeout_ms: 3000,
    };
    let service = ParallelBroadcastService::new(Some(config));
    let c = service.get_config();
    assert_eq!(c.max_parallel_tasks, 8);
    assert_eq!(c.batch_size, 50);
    assert!(c.use_binary_protocol);
    assert_eq!(c.error_threshold_permille, 50);
    assert_eq!(c.timeout_ms, 3000);
}

#[test]
fn test_stats_recording() {
    let mut stats = ParallelBroadcastStats::new();
    stats.record_broadcast(1000, 10, 2);
    assert_eq!(stats.total_broadcasts, 1);
    assert_eq!(stats.successful_messages, 10);
    assert_eq!(stats.failed_messages, 2);
    assert_eq!(stats.avg_broadcast_time_us, 1000);
    let total = stats.successful_messages + stats.failed_messages;
    let success_rate = stats.successful_messages as f64 / total as f64 * 100.0;
    assert!((success_rate - 83.33).abs() < 0.1);
}

#[test]
fn tcp_service_test_service_lifecycle() {
    let mut service = TcpGameService::with_default_config(0);
    assert!(!service.is_running());
    assert_eq!(service.get_connection_count(), 0);
    // Stopping a stopped server only warns: nothing changes.
    assert!(!service.stop());
    let stats = service.get_server_stats(0);
    assert!(!stats.is_running);
    assert_eq!(stats.connection_count, 0);
    assert!(stats.enhanced_memory_pool_enabled);
    assert!(stats.async_scheduler_enabled);
}
