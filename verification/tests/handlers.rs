use tcpserver::message_handler::ServerMessageHandler;
use tcpserver::performance_manager::PerformanceConfig;
use tcpserver::protocol::GameMessage;
use tcpserver::room_handler::RoomHandler;

#[test]
fn test_server_message_handler_creation() {
    let handler = ServerMessageHandler::new();
    assert!(handler.handle_heartbeat(1).is_ok());
}

#[test]
fn test_handler_test_message_handler_registration() {
    let handler = ServerMessageHandler::new();
    assert!(handler.register_all_handlers().is_ok());
}

#[test]
fn message_requests_are_accepted() {
    let h = ServerMessageHandler::new();
    assert!(h.handle_message(7, GameMessage::HeartBeat).is_ok());
    assert!(h.handle_echo(7, "ping".to_string()).is_ok());
    assert!(h.handle_room_message(7, 3, "hi".to_string()).is_ok());
    assert!(h.handle_game_action(7, "jump".to_string()).is_ok());
    assert!(h.broadcast_message(3, "all".to_string()).is_ok());
    assert!(h.send_to_player(8, "you".to_string()).is_ok());
}

#[test]
fn room_requests_are_accepted_and_nothing_is_kept() {
    let h = RoomHandler::new();
    assert!(h.handle_join_room(1, 2).is_ok());
    assert!(h.handle_leave_room(1, 2).is_ok());
    assert_eq!(h.handle_create_room(1, "lobby".to_string()).unwrap(), 1);
    assert_eq!(h.handle_create_room(2, "other".to_string()).unwrap(), 1);
    assert!(h.handle_delete_room(1).is_ok());
    assert!(h.get_room_list().unwrap().is_empty());
    assert!(h.get_room_info(1).unwrap().is_none());
    assert!(h.update_room(1, "renamed".to_string()).is_ok());
    assert!(h.start_game(1).is_ok());
    assert!(h.end_game(1).is_ok());
}

#[test]
fn performance_defaults() {
    let c = PerformanceConfig::default();
    assert!(c.enable_simd);
    assert_eq!(c.memory_pool_size, 10000);
    assert_eq!(c.memory_pool_prealloc, 1000);
    assert!(c.tcp_nodelay && c.tcp_keepalive);
    assert_eq!(c.socket_buffer_size, 65536);
    assert_eq!(c.high_priority_workers, 2);
    assert!(c.normal_priority_workers >= 1);
    assert_eq!(c.background_workers, 2);
    assert_eq!(c.metrics_interval_secs, 30);
}
