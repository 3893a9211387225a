use tcpserver::game::{GameConfig, GameError, GameHandler, GameState, Player, PlayerRole};

fn player(id: u32, role: PlayerRole) -> Player {
    Player {
        client_id: id,
        nickname: format!("Player{}", id),
        role,
        is_alive: true,
        score: 0,
        last_activity: 0,
    }
}

#[test]
fn test_game_handler() {
    let mut game_handler = GameHandler::with_default_config();
    let room_id = game_handler.create_room(1, "테스트 룸".to_string(), 1_000).unwrap();
    assert_eq!(room_id, 1);

    assert!(game_handler.join_room(1, room_id, "Player1".to_string(), 1_001).is_ok());
    assert!(game_handler.join_room(2, room_id, "Player2".to_string(), 1_002).is_ok());

    let rooms = game_handler.get_room_list();
    assert_eq!(rooms.len(), 1);
    assert_eq!(rooms[0].current_players, 2);

    assert!(game_handler.start_game(room_id, 1_003).is_ok());
}

#[test]
fn test_player_role_assignment() {
    let game_handler = GameHandler::with_default_config();
    let empty_players: Vec<Player> = Vec::new();
    let role1 = game_handler.assign_player_role(&empty_players);
    assert_eq!(role1, PlayerRole::Police);

    let players = vec![Player {
        client_id: 1,
        nickname: "Police1".to_string(),
        role: PlayerRole::Police,
        is_alive: true,
        score: 0,
        last_activity: 0,
    }];
    let role2 = game_handler.assign_player_role(&players);
    assert_eq!(role2, PlayerRole::Thief);
}

#[test]
fn roles_follow_one_officer_per_three_thieves() {
    let mut h = GameHandler::with_default_config();
    let room = h.create_room(9, "r".to_string(), 0).unwrap();
    for id in 1..=9 {
        h.join_room(id, room, format!("p{}", id), 0).unwrap();
    }
    let details = h.get_room_details(room).unwrap();
    let roles: Vec<PlayerRole> = details.players.iter().map(|p| p.role).collect();
    let (p, t) = (PlayerRole::Police, PlayerRole::Thief);
    assert_eq!(roles, vec![p, t, t, t, p, t, t, t, p]);
    let h2 = GameHandler::with_default_config();
    let mut thieves_without_police = vec![player(1, t), player(2, t)];
    assert_eq!(h2.assign_player_role(&thieves_without_police), p);
    thieves_without_police.push(player(3, p));
    assert_eq!(h2.assign_player_role(&thieves_without_police), t);
}

#[test]
fn joining_is_refused_when_full_twice_or_unknown() {
    let mut h = GameHandler::new(GameConfig { max_rooms: 1, max_players_per_room: 2, game_duration_secs: 60 });
    let room = h.create_room(1, "only".to_string(), 0).unwrap();
    assert_eq!(h.create_room(1, "second".to_string(), 0), Err(GameError::RoomLimit { count: 1, max: 1 }));
    assert_eq!(h.join_room(1, 77, "x".to_string(), 0), Err(GameError::RoomNotFound(77)));
    h.join_room(1, room, "a".to_string(), 0).unwrap();
    assert_eq!(h.join_room(1, room, "a".to_string(), 0), Err(GameError::AlreadyInRoom(1)));
    h.join_room(2, room, "b".to_string(), 0).unwrap();
    assert_eq!(h.join_room(3, room, "c".to_string(), 0), Err(GameError::RoomFull { current: 2, max: 2 }));
}

#[test]
fn officers_catch_reached_free_thieves() {
    let mut h = GameHandler::with_default_config();
    let room = h.create_room(1, "chase".to_string(), 0).unwrap();
    for id in 1..=4 {
        h.join_room(id, room, format!("p{}", id), 0).unwrap();
    }
    // 1 is the officer; 2, 3 and 4 are thieves.
    assert_eq!(h.update_player_position(9, room, true, &vec![], 5), Err(GameError::PlayerNotFound(9)));
    assert_eq!(h.update_player_position(1, room, false, &vec![], 5), Err(GameError::OutsideArea));
    h.update_player_position(1, room, true, &vec![2, 3], 10).unwrap();
    let d = h.get_room_details(room).unwrap();
    assert_eq!(d.players[0].score, 200);
    assert_eq!(d.players[0].last_activity, 10);
    assert!(!d.players[1].is_alive);
    assert!(!d.players[2].is_alive);
    assert!(d.players[3].is_alive);
    // Caught thieves are not caught twice; a moving thief catches no one.
    h.update_player_position(1, room, true, &vec![2, 3], 11).unwrap();
    h.update_player_position(4, room, true, &vec![1], 12).unwrap();
    let d = h.get_room_details(room).unwrap();
    assert_eq!(d.players[0].score, 200);
    assert!(d.players[0].is_alive);
    assert_eq!(d.players[3].last_activity, 12);
}

#[test]
fn a_game_starts_plays_ends_and_finishes() {
    let mut h = GameHandler::with_default_config();
    let room = h.create_room(1, "g".to_string(), 100).unwrap();
    h.join_room(1, room, "cop".to_string(), 100).unwrap();
    assert_eq!(h.start_game(room, 101), Err(GameError::NotEnoughPlayers));
    h.join_room(2, room, "robber".to_string(), 100).unwrap();
    h.join_room(3, room, "robber2".to_string(), 100).unwrap();
    assert_eq!(h.end_game(room, "early", 102).unwrap_err(), GameError::CannotEnd(GameState::Waiting));
    h.start_game(room, 110).unwrap();
    assert_eq!(h.start_game(room, 111), Err(GameError::CannotStart(GameState::Starting)));
    assert!(h.begin_play(room));
    assert!(!h.begin_play(room));
    h.update_player_position(1, room, true, &vec![2], 120).unwrap();
    let result = h.end_game(room, "time", 150).unwrap();
    assert_eq!(result.room_id, room);
    assert_eq!(result.duration_seconds, 40);
    assert_eq!(result.total_players, 3);
    assert_eq!(result.alive_thieves, 1);
    assert_eq!(result.total_thieves, 2);
    assert_eq!(result.police_count, 1);
    // One of two thieves is free: not more than half, so the police win.
    assert_eq!(result.winner, PlayerRole::Police);
    assert_eq!(result.final_scores.get(&1), Some(&100));
    assert_eq!(result.final_scores.get(&2), Some(&0));
    assert_eq!(result.final_scores.len(), 3);
    assert!(h.finish_game(room));
    assert_eq!(h.get_room_list()[0].state, GameState::Finished);
    assert!(!h.finish_game(99));
}

#[test]
fn thieves_win_without_police_or_with_most_free() {
    let h = GameHandler::with_default_config();
    let mut h2 = GameHandler::with_default_config();
    let room = h2.create_room(1, "x".to_string(), 0).unwrap();
    h2.join_room(1, room, "a".to_string(), 0).unwrap();
    h2.join_room(2, room, "b".to_string(), 0).unwrap();
    h2.join_room(3, room, "c".to_string(), 0).unwrap();
    let mut details = h2.get_room_details(room).unwrap();
    // Police 1, thieves 2 and 3, both free: the thieves win.
    let r = h.calculate_game_result(&details, 0);
    assert_eq!(r.winner, PlayerRole::Thief);
    assert_eq!(r.duration_seconds, 0);
    details.players.remove(0);
    let r = h.calculate_game_result(&details, 0);
    assert_eq!(r.police_count, 0);
    assert_eq!(r.winner, PlayerRole::Thief);
    details.players[0].is_alive = false;
    details.players[1].is_alive = false;
    let r = h.calculate_game_result(&details, 0);
    assert_eq!(r.winner, PlayerRole::Police);
}

#[test]
fn leaving_the_last_player_drops_the_room() {
    let mut h = GameHandler::with_default_config();
    let room = h.create_room(1, "l".to_string(), 0).unwrap();
    h.join_room(1, room, "a".to_string(), 0).unwrap();
    h.join_room(2, room, "b".to_string(), 0).unwrap();
    assert_eq!(h.leave_room(3, room), Err(GameError::NotInRoom(3)));
    assert_eq!(h.leave_room(1, 42), Err(GameError::RoomNotFound(42)));
    h.leave_room(1, room).unwrap();
    assert_eq!(h.get_room_list()[0].current_players, 1);
    h.leave_room(2, room).unwrap();
    assert!(h.get_room_list().is_empty());
    assert_eq!(h.get_room_details(room).unwrap_err(), GameError::RoomNotFound(room));
}

#[test]
fn stats_and_cleanup() {
    let mut h = GameHandler::with_default_config();
    let empty = h.create_room(1, "empty".to_string(), 0).unwrap();
    let old = h.create_room(1, "old".to_string(), 0).unwrap();
    let fresh = h.create_room(1, "fresh".to_string(), 5_000).unwrap();
    for id in 1..=2 {
        h.join_room(id, old, format!("o{}", id), 0).unwrap();
        h.join_room(id, fresh, format!("f{}", id), 5_000).unwrap();
    }
    h.start_game(old, 10).unwrap();
    h.begin_play(old);
    h.start_game(fresh, 5_010).unwrap();
    h.begin_play(fresh);
    let st = h.get_game_stats();
    assert_eq!(st.total_rooms, 3);
    assert_eq!(st.total_players, 4);
    assert_eq!(st.active_games, 2);
    assert_eq!(st.state_distribution.waiting, 1);
    assert_eq!(st.state_distribution.playing, 2);
    assert_eq!(st.max_rooms, 100);
    assert_eq!(st.max_players_per_room, 10);
    h.end_game(old, "done", 20).unwrap();
    h.finish_game(old);
    // At 3_601 the finished room is exactly 3_601 s old: dropped with the
    // empty one; the fresh game stays.
    assert_eq!(h.cleanup_rooms(3_601), 2);
    let list = h.get_room_list();
    assert_eq!(list.len(), 1);
    assert_eq!(list[0].room_id, fresh);
    let _ = empty;
    // Ids are not reused.
    assert_eq!(h.create_room(1, "next".to_string(), 6_000), Ok(4));
}
