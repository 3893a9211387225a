use tcpserver::chat_room::{accept_connect, error_response, ChatRoomError, ChatRoomHandler, Routed};
use tcpserver::protocol::GameMessage;
use tcpserver::room_connection_service::RoomConnectionService;

fn handler() -> ChatRoomHandler {
    ChatRoomHandler::new(RoomConnectionService::new("test_server".to_string()))
}

#[test]
fn test_chat_room_handler_creation() {
    let h = handler();
    assert_eq!(h.get_all_rooms_status().len(), 0);
}

#[test]
fn chat_room_handler_test_room_status() {
    let h = handler();
    let (user_count, users) = h.get_room_status(999);
    assert_eq!(user_count, 0);
    assert!(users.is_empty());
}

#[test]
fn chat_room_handler_test_cleanup_empty_rooms() {
    let mut h = handler();
    assert_eq!(h.cleanup_empty_rooms(), 0);
}

#[test]
fn join_notifies_others() {
    let mut h = handler();
    let first = h.handle_room_join_at(1, 10, "alice".to_string(), "a:1".to_string(), 100).unwrap();
    assert_eq!(first.user_count, 1);
    assert_eq!(first.join_success, GameMessage::RoomJoinSuccess { room_id: 10, user_count: 1 });
    assert!(first.notify.is_empty());
    assert!(first.left.is_none());
    let second = h.handle_room_join_at(2, 10, "bob".to_string(), "b:2".to_string(), 101).unwrap();
    assert_eq!(second.user_count, 2);
    assert_eq!(
        second.user_joined,
        GameMessage::UserJoinedRoom { room_id: 10, user_id: 2, nickname: "bob".to_string(), user_count: 2 }
    );
    assert_eq!(second.notify, vec![1]);
    let (count, mut members) = h.get_room_status(10);
    members.sort();
    assert_eq!(count, 2);
    assert_eq!(members, vec![(1, "alice".to_string()), (2, "bob".to_string())]);
    assert_eq!(h.get_all_rooms_status(), vec![(10, 2)]);
}

#[test]
fn moving_rooms_leaves_the_old_one() {
    let mut h = handler();
    h.handle_room_join_at(1, 10, "alice".to_string(), "a".to_string(), 0).unwrap();
    h.handle_room_join_at(2, 10, "bob".to_string(), "b".to_string(), 0).unwrap();
    let moved = h.handle_room_join_at(2, 20, "bob".to_string(), "b".to_string(), 5).unwrap();
    let left = moved.left.unwrap();
    assert!(!left.room_deleted);
    assert_eq!(left.leave_success, GameMessage::RoomLeaveSuccess { room_id: 10, user_count: 1 });
    assert_eq!(
        left.user_left,
        Some(GameMessage::UserLeftRoom { room_id: 10, user_id: 2, nickname: "bob".to_string(), user_count: 1 })
    );
    assert_eq!(left.notify, vec![1]);
    assert_eq!(moved.user_count, 1);
    assert_eq!(h.room_service().get_user_room(2), Some(20));
}

#[test]
fn last_member_leaving_deletes_room() {
    let mut h = handler();
    h.handle_room_join_at(1, 10, "alice".to_string(), "a".to_string(), 0).unwrap();
    let out = h.handle_room_leave_at(1, 10, 1).unwrap();
    assert!(out.room_deleted);
    assert_eq!(out.leave_success, GameMessage::RoomLeaveSuccess { room_id: 10, user_count: 0 });
    assert!(out.user_left.is_none());
    assert!(out.notify.is_empty());
    assert_eq!(h.get_all_rooms_status().len(), 0);
    match h.handle_room_leave_at(1, 10, 2) {
        Err(e) => assert_eq!(e, ChatRoomError::NotInRoom { user_id: 1, room_id: 10 }),
        Ok(_) => panic!("leaving twice must fail"),
    }
}

#[test]
fn chat_goes_to_every_member() {
    let mut h = handler();
    h.handle_room_join_at(1, 10, "alice".to_string(), "a".to_string(), 0).unwrap();
    h.handle_room_join_at(2, 10, "bob".to_string(), "b".to_string(), 0).unwrap();
    let out = h.handle_chat_message(1, 10, "hi".to_string()).unwrap();
    let mut r = out.recipients.clone();
    r.sort();
    assert_eq!(r, vec![1, 2]);
    assert_eq!(out.message, GameMessage::ChatMessage { user_id: 1, room_id: 10, message: "hi".to_string() });
    match h.handle_chat_message(1, 11, "hi".to_string()) {
        Err(e) => assert_eq!(e, ChatRoomError::NotInRoom { user_id: 1, room_id: 11 }),
        Ok(_) => panic!("not a member"),
    }
}

#[test]
fn disconnect_cleans_up() {
    let mut h = handler();
    h.handle_room_join_at(1, 10, "alice".to_string(), "a".to_string(), 0).unwrap();
    let (cleaned, out) = h.handle_user_disconnect_at(1, 3);
    assert_eq!(cleaned, 1);
    assert!(out.unwrap().room_deleted);
    let (none, nothing) = h.handle_user_disconnect_at(1, 4);
    assert_eq!(none, 0);
    assert!(nothing.is_none());
}

#[test]
fn routing_checks_requests() {
    let mut h = handler();
    let addr = "c:3".to_string();
    match h.route_message_at(5, &addr, GameMessage::HeartBeat, 1234).unwrap() {
        Routed::HeartBeat(m) => assert_eq!(m, GameMessage::HeartBeatResponse { timestamp: 1234 }),
        _ => panic!("heartbeat"),
    }
    let join = GameMessage::RoomJoin { user_id: 6, room_id: 1, nickname: "x".to_string() };
    assert!(matches!(h.route_message_at(5, &addr, join, 0), Err(ChatRoomError::UserIdMismatch)));
    let join = GameMessage::RoomJoin { user_id: 5, room_id: 1, nickname: "x".to_string() };
    assert!(matches!(h.route_message_at(5, &addr, join, 0), Ok(Routed::Joined(_))));
    let empty = GameMessage::ChatMessage { user_id: 5, room_id: 1, message: String::new() };
    assert!(matches!(h.route_message_at(5, &addr, empty, 0), Err(ChatRoomError::EmptyChat)));
    let long = GameMessage::ChatMessage { user_id: 5, room_id: 1, message: "가".repeat(334) };
    assert!(matches!(h.route_message_at(5, &addr, long, 0), Err(ChatRoomError::ChatTooLong)));
    let fits = GameMessage::ChatMessage { user_id: 5, room_id: 1, message: "가".repeat(333) };
    assert!(matches!(h.route_message_at(5, &addr, fits, 0), Ok(Routed::Chat(_))));
    assert!(matches!(h.route_message_at(5, &addr, GameMessage::ConnectionAck { user_id: 5 }, 0), Ok(Routed::Ignored)));
    let leave = GameMessage::RoomLeave { user_id: 5, room_id: 1 };
    assert!(matches!(h.route_message_at(5, &addr, leave, 0), Ok(Routed::Left(_))));
}

#[test]
fn connect_first_and_error_texts() {
    let (id, ack) = accept_connect(&GameMessage::Connect { room_id: 2, user_id: 9 }).unwrap();
    assert_eq!(id, 9);
    assert_eq!(ack, GameMessage::ConnectionAck { user_id: 9 });
    assert_eq!(accept_connect(&GameMessage::HeartBeat), Err(ChatRoomError::NotConnectMessage));
    assert_eq!(
        error_response(ChatRoomError::NotInRoom { user_id: 3, room_id: 4 }),
        GameMessage::Error { code: 500, message: "메시지 처리 실패: 사용자 3가 방 4에 없습니다".to_string() }
    );
    assert_eq!(
        error_response(ChatRoomError::UserIdMismatch),
        GameMessage::Error { code: 500, message: "메시지 처리 실패: 사용자 ID 불일치".to_string() }
    );
}

#[test]
fn test_chat_room_message_handler_creation() {
    let h = handler();
    assert_eq!(h.get_all_rooms_status().len(), 0);
}

#[test]
fn chat_room_message_handler_test_room_status() {
    let h = handler();
    let (user_count, users) = h.get_room_status(999);
    assert_eq!(user_count, 0);
    assert!(users.is_empty());
}

#[test]
fn chat_room_message_handler_test_cleanup_empty_rooms() {
    let mut h = handler();
    assert_eq!(h.cleanup_empty_rooms(), 0);
}

fn add_test_user(h: &mut ChatRoomHandler, room_id: u32, user_id: u32, nickname: &str) {
    let addr = format!("127.0.0.1:{}", 10000 + user_id);
    h.room_service_mut().add_user_to_room_at(room_id, user_id, addr, nickname.to_string(), 0).unwrap();
}

#[test]
fn test_room_join_leave() {
    let mut h = handler();
    assert_eq!(h.get_all_rooms_status().len(), 0);
    let result = h.handle_room_join_at(1, 100, "테스터1".to_string(), "127.0.0.1:10001".to_string(), 0);
    assert!(result.is_ok());
    assert_eq!(result.unwrap().user_count, 1);
    let (room_user_count, users) = h.get_room_status(100);
    assert_eq!(room_user_count, 1);
    assert_eq!(users.len(), 1);
    assert_eq!(users[0], (1, "테스터1".to_string()));
    let leave_result = h.handle_room_leave_at(1, 100, 1);
    assert!(leave_result.is_ok());
    assert!(leave_result.unwrap().room_deleted);
    assert_eq!(h.get_all_rooms_status().len(), 0);
}

#[test]
fn test_multiple_users_room() {
    let mut h = handler();
    let r1 = h.handle_room_join_at(1, 200, "사용자1".to_string(), "127.0.0.1:10001".to_string(), 0);
    assert_eq!(r1.unwrap().user_count, 1);
    let r2 = h.handle_room_join_at(2, 200, "사용자2".to_string(), "127.0.0.1:10002".to_string(), 0);
    assert_eq!(r2.unwrap().user_count, 2);
    let r3 = h.handle_room_join_at(3, 200, "사용자3".to_string(), "127.0.0.1:10003".to_string(), 0);
    assert_eq!(r3.unwrap().user_count, 3);
    let (room_user_count, users) = h.get_room_status(200);
    assert_eq!(room_user_count, 3);
    assert_eq!(users.len(), 3);
    let leave_result = h.handle_room_leave_at(2, 200, 1);
    assert!(!leave_result.unwrap().room_deleted);
    let (room_user_count, users) = h.get_room_status(200);
    assert_eq!(room_user_count, 2);
    assert_eq!(users.len(), 2);
    h.handle_room_leave_at(1, 200, 2).unwrap();
    let leave_result = h.handle_room_leave_at(3, 200, 3);
    assert!(leave_result.unwrap().room_deleted);
}

#[test]
fn test_chat_messaging() {
    let mut h = handler();
    add_test_user(&mut h, 300, 1, "채터1");
    add_test_user(&mut h, 300, 2, "채터2");
    add_test_user(&mut h, 300, 3, "채터3");
    let (user_count, _) = h.get_room_status(300);
    assert_eq!(user_count, 3);
    let chat_result = h.handle_chat_message(1, 300, "안녕하세요!".to_string());
    assert!(chat_result.is_ok());
    assert_eq!(chat_result.unwrap().recipients.len(), 3);
    let empty_chat_result = h.handle_chat_message(1, 300, "".to_string());
    assert!(empty_chat_result.is_err());
    let invalid_room_result = h.handle_chat_message(1, 999, "존재하지 않는 방".to_string());
    assert!(invalid_room_result.is_err());
}

#[test]
fn test_user_disconnect() {
    let mut h = handler();
    add_test_user(&mut h, 400, 1, "연결자1");
    add_test_user(&mut h, 400, 2, "연결자2");
    add_test_user(&mut h, 401, 3, "연결자3");
    assert_eq!(h.get_all_rooms_status().len(), 2);
    assert_eq!(h.get_room_status(400).0, 2);
    assert_eq!(h.get_room_status(401).0, 1);
    let (cleaned_rooms, _) = h.handle_user_disconnect_at(1, 1);
    assert_eq!(cleaned_rooms, 0);
    assert_eq!(h.get_room_status(400).0, 1);
    assert_eq!(h.get_room_status(401).0, 1);
    let (cleaned_rooms, _) = h.handle_user_disconnect_at(3, 2);
    assert_eq!(cleaned_rooms, 1);
    assert_eq!(h.get_all_rooms_status().len(), 1);
}

#[test]
fn test_room_movement() {
    let mut h = handler();
    h.handle_room_join_at(1, 600, "이동자".to_string(), "127.0.0.1:10001".to_string(), 0).unwrap();
    assert_eq!(h.get_room_status(600).0, 1);
    h.handle_room_join_at(1, 601, "이동자".to_string(), "127.0.0.1:10001".to_string(), 1).unwrap();
    assert_eq!(h.get_room_status(600).0, 0);
    assert_eq!(h.get_room_status(601).0, 1);
    let active_rooms = h.get_all_rooms_status();
    assert_eq!(active_rooms.len(), 1);
    assert_eq!(active_rooms[0], (601, 1));
}

#[test]
fn test_concurrent_room_operations() {
    let mut h = handler();
    for user_id in 1..=10u32 {
        let r = h.handle_room_join_at(user_id, 700, format!("동시사용자{}", user_id), format!("127.0.0.1:{}", 10000 + user_id), 0);
        assert!(r.is_ok());
    }
    let (final_count, users) = h.get_room_status(700);
    assert_eq!(final_count, 10);
    assert_eq!(users.len(), 10);
    let mut room_deletions = 0;
    for user_id in 1..=10u32 {
        let r = h.handle_room_leave_at(user_id, 700, 1);
        assert!(r.is_ok());
        if r.unwrap().room_deleted {
            room_deletions += 1;
        }
    }
    assert_eq!(room_deletions, 1);
    assert_eq!(h.get_all_rooms_status().len(), 0);
}

#[test]
fn chat_room_integration_test_test_error_handling() {
    let mut h = handler();
    assert!(h.handle_room_leave_at(999, 999, 0).is_err());
    assert!(h.handle_chat_message(999, 999, "존재하지 않는 방".to_string()).is_err());
    let (cleaned_rooms, _) = h.handle_user_disconnect_at(999, 0);
    assert_eq!(cleaned_rooms, 0);
}

#[test]
fn chat_room_integration_test_test_cleanup_empty_rooms() {
    let mut h = handler();
    let cleaned = h.cleanup_empty_rooms();
    assert_eq!(cleaned, 0);
    add_test_user(&mut h, 500, 1, "임시사용자");
    assert_eq!(h.get_all_rooms_status().len(), 1);
    h.room_service_mut().remove_user_from_room_at(500, 1, 1).unwrap();
    let cleaned = h.cleanup_empty_rooms();
    assert_eq!(cleaned, 1);
    assert_eq!(h.get_all_rooms_status().len(), 0);
}
