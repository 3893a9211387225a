use tcpserver::protocol::GameMessage;
use tcpserver::room_connection_service::{RoomConnectionService, RoomError};

#[test]
fn test_room_connection_service() {
    let service = RoomConnectionService::new("test_server".to_string());
    assert_eq!(service.get_total_rooms(), 0);
    assert_eq!(service.get_total_users(), 0);
    assert!(service.get_all_rooms().is_empty());
}

#[test]
fn joining_leaving_and_moving() {
    let mut s = RoomConnectionService::new("srv".to_string());
    s.add_user_to_room_at(1, 10, "a:1".to_string(), "ten".to_string(), 100).unwrap();
    s.add_user_to_room_at(1, 11, "b:2".to_string(), "eleven".to_string(), 101).unwrap();
    s.add_user_to_room_at(2, 12, "c:3".to_string(), "twelve".to_string(), 102).unwrap();
    assert_eq!(s.get_total_rooms(), 2);
    assert_eq!(s.get_total_users(), 3);
    assert_eq!(s.get_room_user_count(1), 2);
    assert_eq!(s.get_user_room(11), Some(1));
    let rooms = s.get_all_rooms();
    let one = rooms.iter().find(|r| r.room_id == 1).unwrap();
    assert_eq!(one.user_count, 2);
    assert_eq!(one.created_at, 100);
    assert_eq!(one.last_activity, 101);

    s.move_user_to_room_at(11, 2, 200).unwrap();
    assert_eq!(s.get_user_room(11), Some(2));
    assert_eq!(s.get_room_user_count(1), 1);
    assert_eq!(s.get_room_user_count(2), 2);
    let moved = s.get_room_users(2).into_iter().find(|c| c.user_id == 11).unwrap();
    assert_eq!(moved.nickname, "eleven");
    assert_eq!(moved.connected_at, 200);

    assert_eq!(s.remove_user_from_room_at(1, 11, 300), Err(RoomError::UserNotInRoom { user_id: 11, room_id: 1 }));
    s.remove_user_from_room_at(1, 10, 300).unwrap();
    // The emptied room stays until cleanup.
    assert_eq!(s.get_total_rooms(), 2);
    assert_eq!(s.get_room_user_count(1), 0);
    assert_eq!(s.move_user_to_room_at(10, 2, 400), Err(RoomError::NotInAnyRoom(10)));
    let stats = s.get_stats();
    assert_eq!(stats.total_connections, 4);
    assert_eq!(stats.total_users, 2);
    assert_eq!(stats.total_rooms, 2);
    assert_eq!(s.cleanup_empty_rooms(), 1);
    assert_eq!(s.get_total_rooms(), 1);
    assert_eq!(s.cleanup_empty_rooms(), 0);
}

#[test]
fn joining_another_room_leaves_the_first() {
    let mut s = RoomConnectionService::new("srv".to_string());
    s.add_user_to_room_at(1, 10, "a".to_string(), "x".to_string(), 0).unwrap();
    s.add_user_to_room_at(2, 10, "a".to_string(), "x".to_string(), 5).unwrap();
    assert_eq!(s.get_total_rooms(), 2);
    assert_eq!(s.get_user_room(10), Some(2));
    assert!(s.get_room_users(1).is_empty());
    assert!(s.drop_room_if_empty(1));
    assert!(!s.drop_room_if_empty(2));
    assert_eq!(s.get_total_rooms(), 1);
}

#[test]
fn room_messages_go_to_the_members() {
    let mut s = RoomConnectionService::new("srv".to_string());
    s.add_user_to_room_at(7, 1, "a".to_string(), "x".to_string(), 0).unwrap();
    s.add_user_to_room_at(7, 2, "b".to_string(), "y".to_string(), 0).unwrap();
    let mut ids = s.room_recipients(7).unwrap();
    ids.sort();
    assert_eq!(ids, vec![1, 2]);
    assert_eq!(s.room_recipients(8), Err(RoomError::RoomNotFound(8)));
    assert_eq!(s.check_room_recipient(7, 3), Err(RoomError::UserNotInRoom { user_id: 3, room_id: 7 }));
    assert_eq!(s.check_room_recipient(7, 2), Ok(()));
    s.record_room_delivery(2, 1);
    assert_eq!(s.get_stats().total_messages_sent, 2);
    assert_eq!(s.get_stats().failed_messages, 1);
    let chat = GameMessage::ChatMessage { user_id: 1, room_id: 7, message: "hi".to_string() };
    assert_eq!(RoomConnectionService::message_category(&chat), "chat");
    assert_eq!(RoomConnectionService::message_category(&GameMessage::HeartBeat), "heartbeat");
    assert_eq!(RoomConnectionService::message_category(&GameMessage::RoomLeave { user_id: 1, room_id: 1 }), "other");
}

#[test]
fn silent_members_time_out() {
    let mut s = RoomConnectionService::new("srv".to_string());
    s.add_user_to_room_at(1, 10, "a".to_string(), "x".to_string(), 0).unwrap();
    s.add_user_to_room_at(1, 11, "b".to_string(), "y".to_string(), 1000).unwrap();
    s.add_user_to_room_at(2, 12, "c".to_string(), "z".to_string(), 0).unwrap();
    assert_eq!(s.cleanup_timeout_connections_at(1800), 0);
    assert_eq!(s.cleanup_timeout_connections_at(1801), 2);
    assert_eq!(s.get_total_users(), 1);
    assert_eq!(s.get_total_rooms(), 2);
    assert_eq!(s.get_user_room(11), Some(1));
    assert_eq!(s.cleanup_empty_rooms(), 1);
    assert_eq!(s.get_total_rooms(), 1);
}

#[test]
fn re_adding_a_user_moves_only_that_user() {
    let mut s = RoomConnectionService::new("srv".to_string());
    s.add_user_to_room_at(1, 10, "a:1".to_string(), "ten".to_string(), 100).unwrap();
    s.add_user_to_room_at(1, 11, "b:2".to_string(), "eleven".to_string(), 101).unwrap();
    s.add_user_to_room_at(2, 10, "a:9".to_string(), "TEN".to_string(), 150).unwrap();
    assert_eq!(s.get_user_room(10), Some(2));
    assert_eq!(s.get_user_room(11), Some(1));
    let in_two: Vec<_> = s.get_room_users(2).into_iter().filter(|c| c.user_id == 10).collect();
    assert_eq!(in_two.len(), 1);
    assert_eq!(in_two[0].nickname, "TEN");
    assert_eq!(in_two[0].addr, "a:9");
    assert!(s.get_room_users(1).iter().all(|c| c.user_id != 10));
    let other = s.get_room_users(1).into_iter().find(|c| c.user_id == 11).unwrap();
    assert_eq!(other.nickname, "eleven");
    assert_eq!(other.connected_at, 101);
}
