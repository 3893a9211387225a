use tcpserver::friends::{FriendError, FriendHandler};

#[test]
fn friend_handler_test_friend_handler() {
    let mut friend_handler = FriendHandler::new();
    friend_handler.register_user(1, "User1".to_string());
    friend_handler.register_user(2, "User2".to_string());

    assert!(friend_handler.add_friend(1, 2, "User2".to_string()).is_ok());

    assert!(friend_handler.is_friend(1, 2));
    assert!(!friend_handler.is_friend(2, 1));

    let friends = friend_handler.get_friend_list(1);
    assert_eq!(friends.len(), 1);
    assert_eq!(friends[0].user_id, 2);

    assert!(friend_handler.remove_friend(1, 2).is_ok());
    assert!(!friend_handler.is_friend(1, 2));

    let stats = friend_handler.get_friend_stats();
    assert_eq!(stats.total_users, 2);
}

#[test]
fn test_mutual_friends() {
    let mut friend_handler = FriendHandler::new();
    friend_handler.add_friend(1, 2, "User2".to_string()).expect("Async test assertion");
    friend_handler.add_friend(2, 1, "User1".to_string()).expect("Operation failed");

    assert!(friend_handler.are_mutual_friends(1, 2));
    assert!(friend_handler.are_mutual_friends(2, 1));
}

#[test]
fn refusals_name_their_reason() {
    let mut h = FriendHandler::new();
    assert_eq!(h.add_friend(3, 3, "me".to_string()), Err(FriendError::SelfFriend));
    assert_eq!(h.remove_friend(3, 4), Err(FriendError::NoFriendList));
    h.add_friend(3, 4, "four".to_string()).unwrap();
    assert_eq!(h.add_friend(3, 4, "four".to_string()), Err(FriendError::AlreadyFriends));
    assert_eq!(h.remove_friend(3, 5), Err(FriendError::NotFriends));
    assert_eq!(h.get_friend_count(3), 1);
}

#[test]
fn common_friends_and_cleanup() {
    let mut h = FriendHandler::new();
    h.add_friend(1, 10, "a".to_string()).unwrap();
    h.add_friend(1, 11, "b".to_string()).unwrap();
    h.add_friend(1, 12, "c".to_string()).unwrap();
    h.add_friend(2, 11, "b".to_string()).unwrap();
    h.add_friend(2, 12, "c".to_string()).unwrap();
    h.add_friend(12, 1, "one".to_string()).unwrap();
    assert_eq!(h.get_mutual_friends(1, 2), vec![11, 12]);
    assert!(h.get_mutual_friends(1, 3).is_empty());

    let stats = h.get_friend_stats();
    assert_eq!(stats.total_users, 4);
    assert_eq!(stats.total_friendships, 6);
    assert_eq!(stats.users_with_friends, 3);
    assert_eq!(stats.max_friends, 3);

    h.cleanup_user(12);
    assert!(!h.is_friend(1, 12));
    assert!(!h.is_friend(2, 12));
    assert_eq!(h.get_friend_count(12), 0);
    assert_eq!(h.get_mutual_friends(1, 2), vec![11]);
    let stats = h.get_friend_stats();
    assert_eq!(stats.total_friendships, 3);
    assert_eq!(stats.total_users, 3);
}

#[test]
fn removing_a_new_friendship_restores_the_graph() {
    let mut h = FriendHandler::new();
    h.add_friend(1, 2, "two".to_string()).unwrap();
    let before = h.get_friend_list(1).len();
    h.add_friend(1, 3, "three".to_string()).unwrap();
    h.remove_friend(1, 3).unwrap();
    assert_eq!(h.get_friend_list(1).len(), before);
    assert!(h.is_friend(1, 2));
    assert_eq!(h.get_friend_list(1)[0].nickname, "two");
}
