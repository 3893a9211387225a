//! Room entry, leaving and chat: the room registry's changes for each client
//! request, the messages they produce and whom each goes to. The caller
//! delivers the messages over the members' connections.

use vstd::prelude::*;
use vstd::string::*;
use vstd::utf8::*;
use crate::protocol::GameMessage;
use crate::room_connection_service::{
    RoomConnectionService, RoomState, state_wf, depart, without_empty_rooms, join, new_member, count_u32,
};
use crate::text::{decimal, u64_to_decimal};
use crate::room_tables::RoomUserConnection;

verus! {

/// Why a client request was refused.
#[derive(Debug, Clone, Copy, PartialEq, Eq)]
pub enum ChatRoomError {
    /// The first message of a connection was not `Connect`.
    NotConnectMessage,
    /// A request names another user than the connection's.
    UserIdMismatch,
    /// A chat line with no text.
    EmptyChat,
    /// A chat line longer than 1000 bytes.
    ChatTooLong,
    /// The user is not in that room.
    NotInRoom { user_id: u32, room_id: u32 },
}

/// The longest chat line accepted, in bytes.
pub const MAX_CHAT_BYTES: usize = 1000;

/// The member count of room `r` (0 for no such room).
pub open spec fn room_count(s: RoomState, r: u32) -> u32 {
    if s.rooms.contains_key(r) { count_u32(s.rooms[r]) } else { 0 }
}

/// `ids` names every user of `members` exactly once.
pub open spec fn lists_once(ids: Seq<u32>, members: Set<u32>) -> bool {
    &&& ids.no_duplicates()
    &&& forall|k: u32| #[trigger] ids.contains(k) <==> members.contains(k)
}

/// What leaving a room produced.
#[derive(Debug, Clone)]
pub struct LeaveOutcome {
    /// Whether the room reports no member left.
    pub room_deleted: bool,
    /// For the leaving user.
    pub leave_success: GameMessage,
    /// For the remaining members, when there are any.
    pub user_left: Option<GameMessage>,
    /// The remaining members.
    pub notify: Vec<u32>,
}

/// `o` reports user `u` leaving room `r` of `before`, which gave `after`.
pub open spec fn reports_leave(o: LeaveOutcome, before: RoomState, after: RoomState, r: u32, u: u32) -> bool {
    let n = room_count(after, r);
    &&& o.room_deleted == (n == 0)
    &&& o.leave_success == GameMessage::RoomLeaveSuccess { room_id: r, user_count: n }
    &&& n == 0 ==> o.user_left is None && o.notify@.len() == 0
    &&& n != 0 ==> o.user_left == Some(
        GameMessage::UserLeftRoom { room_id: r, user_id: u, nickname: before.rooms[r][u].nickname, user_count: n },
    ) && lists_once(o.notify@, after.rooms[r].dom())
}

/// What entering a room produced.
#[derive(Debug, Clone)]
pub struct JoinOutcome {
    /// The room's member count afterwards.
    pub user_count: u32,
    /// Leaving the previous room, when the user was in another one.
    pub left: Option<LeaveOutcome>,
    /// For the entering user.
    pub join_success: GameMessage,
    /// For the other members.
    pub user_joined: GameMessage,
    /// The other members.
    pub notify: Vec<u32>,
}

/// A chat line and its recipients.
#[derive(Debug, Clone)]
pub struct ChatOutcome {
    pub message: GameMessage,
    pub recipients: Vec<u32>,
}

/// What a routed client message produced.
#[derive(Debug, Clone)]
pub enum Routed {
    /// The answer to a heartbeat, for the sender.
    HeartBeat(GameMessage),
    Joined(JoinOutcome),
    Left(LeaveOutcome),
    Chat(ChatOutcome),
    /// Nothing to do.
    Ignored,
}

/// The text of an error, as the client sees it.
pub open spec fn error_text(e: ChatRoomError) -> Seq<char> {
    match e {
        ChatRoomError::NotConnectMessage => "잘못된 초기 메시지"@,
        ChatRoomError::UserIdMismatch => "사용자 ID 불일치"@,
        ChatRoomError::EmptyChat => "채팅 내용이 비어있습니다"@,
        ChatRoomError::ChatTooLong => "채팅 내용이 너무 깁니다 (최대 1000자)"@,
        ChatRoomError::NotInRoom { user_id, room_id } => "사용자 "@ + decimal(user_id as nat) + "가 방 "@
            + decimal(room_id as nat) + "에 없습니다"@,
    }
}

/// The reply to a request that failed.
pub fn error_response(e: ChatRoomError) -> (m: GameMessage)
    ensures
        m matches GameMessage::Error { code, message } && code == 500 && message@ == "메시지 처리 실패: "@
            + error_text(e),
{
    let mut text = <String as StringExecFns>::from_str("메시지 처리 실패: ");
    match e {
        ChatRoomError::NotConnectMessage => text.append("잘못된 초기 메시지"),
        ChatRoomError::UserIdMismatch => text.append("사용자 ID 불일치"),
        ChatRoomError::EmptyChat => text.append("채팅 내용이 비어있습니다"),
        ChatRoomError::ChatTooLong => text.append("채팅 내용이 너무 깁니다 (최대 1000자)"),
        ChatRoomError::NotInRoom { user_id, room_id } => {
            text.append("사용자 ");
            let a = u64_to_decimal(user_id as u64);
            text.append(a.as_str());
            text.append("가 방 ");
            let b = u64_to_decimal(room_id as u64);
            text.append(b.as_str());
            text.append("에 없습니다");
        },
    }
    GameMessage::Error { code: 500, message: text }
}

/// The first message of a connection must be `Connect`; it is answered with
/// the acknowledgement for the user it names.
pub fn accept_connect(first: &GameMessage) -> (r: Result<(u32, GameMessage), ChatRoomError>)
    ensures
        match *first {
            GameMessage::Connect { room_id, user_id } => r == Ok::<(u32, GameMessage), ChatRoomError>(
                (user_id, GameMessage::ConnectionAck { user_id }),
            ),
            _ => r == Err::<(u32, GameMessage), ChatRoomError>(ChatRoomError::NotConnectMessage),
        },
{
    match first {
        GameMessage::Connect { room_id: _, user_id } => Ok((*user_id, GameMessage::ConnectionAck { user_id: *user_id })),
        _ => Err(ChatRoomError::NotConnectMessage),
    }
}

/// Whether `u` is a member of room `r`.
pub open spec fn is_member(s: RoomState, r: u32, u: u32) -> bool {
    s.rooms.contains_key(r) && s.rooms[r].contains_key(u)
}

proof fn lemma_user_in_room(s: RoomState, u: u32)
    requires
        state_wf(s),
        s.users.contains_key(u),
    ensures
        is_member(s, s.users[u], u),
{
    reveal(state_wf);
}

/// Handles room requests over the room registry.
pub struct ChatRoomHandler {
    room_service: RoomConnectionService,
}

impl ChatRoomHandler {
    pub closed spec fn rooms(&self) -> RoomConnectionService {
        self.room_service
    }

    pub open spec fn wf(&self) -> bool {
        self.rooms().wf()
    }

    /// A handler over `room_service`.
    pub fn new(room_service: RoomConnectionService) -> (h: Self)
        ensures
            h.rooms() == room_service,
    {
        ChatRoomHandler { room_service }
    }

    /// The room registry.
    pub fn room_service(&self) -> (s: &RoomConnectionService)
        ensures
            *s == self.rooms(),
    {
        &self.room_service
    }

    /// The room registry, for updating it in place.
    pub fn room_service_mut(&mut self) -> (s: &mut RoomConnectionService)
        ensures
            *s == old(self).rooms(),
            final(self).rooms() == *final(s),
    {
        &mut self.room_service
    }

    /// Takes `user_id` out of `room_id` at `now`: the user is told the new
    /// count, and while members remain they are told who left. Refused when
    /// the user is not in that room.
    pub fn handle_room_leave_at(&mut self, user_id: u32, room_id: u32, now: i64) -> (r: Result<LeaveOutcome, ChatRoomError>)
        requires
            old(self).wf(),
        ensures
            final(self).wf(),
            !is_member(old(self).rooms().state(), room_id, user_id) ==> r == Err::<LeaveOutcome, ChatRoomError>(
                ChatRoomError::NotInRoom { user_id, room_id },
            ) && final(self).rooms().state() == old(self).rooms().state(),
            is_member(old(self).rooms().state(), room_id, user_id) ==> (r matches Ok(o) && final(self).rooms().state()
                == depart(old(self).rooms().state(), room_id, user_id, now) && reports_leave(
                o,
                old(self).rooms().state(),
                final(self).rooms().state(),
                room_id,
                user_id,
            )),
    {
        let member = match self.room_service.get_member(room_id, user_id) {
            Some(m) => m,
            None => {
                return Err(ChatRoomError::NotInRoom { user_id, room_id });
            },
        };
        let _ = self.room_service.remove_user_from_room_at(room_id, user_id, now);
        let _ = self.room_service.drop_room_if_empty(room_id);
        let n = self.room_service.get_room_user_count(room_id);
        let leave_success = GameMessage::RoomLeaveSuccess { room_id, user_count: n };
        if n == 0 {
            return Ok(LeaveOutcome { room_deleted: true, leave_success, user_left: None, notify: Vec::new() });
        }
        let user_left = GameMessage::UserLeftRoom { room_id, user_id, nickname: member.nickname, user_count: n };
        let notify = match self.room_service.room_recipients(room_id) {
            Ok(ids) => ids,
            Err(_) => Vec::new(),
        };
        Ok(LeaveOutcome { room_deleted: false, leave_success, user_left: Some(user_left), notify })
    }

    /// Puts `user_id` (as `nickname`, connected from `addr`) into `room_id`
    /// at `now`, leaving another room first; the user is told the new
    /// count, and the other members who joined.
    #[verifier::rlimit(30)]
    pub fn handle_room_join_at(&mut self, user_id: u32, room_id: u32, nickname: String, addr: String, now: i64) -> (r:
        Result<JoinOutcome, ChatRoomError>)
        requires
            old(self).wf(),
        ensures
            final(self).wf(),
            r matches Ok(o) && ({
                let s0 = old(self).rooms().state();
                let moved = s0.users.contains_key(user_id) && s0.users[user_id] != room_id;
                let s1 = if moved { depart(s0, s0.users[user_id], user_id, now) } else { s0 };
                let s2 = final(self).rooms().state();
                &&& moved ==> (o.left matches Some(l) && reports_leave(l, s0, s1, s0.users[user_id], user_id))
                &&& !moved ==> o.left is None
                &&& exists|c: RoomUserConnection| #[trigger] new_member(room_id, user_id, addr@, nickname@, now, c) && s2
                    == join(s1, room_id, user_id, c, now)
                &&& o.user_count == room_count(s2, room_id)
                &&& o.join_success == GameMessage::RoomJoinSuccess { room_id, user_count: o.user_count }
                &&& o.user_joined == GameMessage::UserJoinedRoom {
                    room_id,
                    user_id,
                    nickname,
                    user_count: o.user_count,
                }
                &&& lists_once(o.notify@, s2.rooms[room_id].dom().remove(user_id))
            }),
    {
        let ghost s0 = self.rooms().state();
        let mut left: Option<LeaveOutcome> = None;
        match self.room_service.get_user_room(user_id) {
            Some(cur) => {
                if cur != room_id {
                    proof {
                        lemma_user_in_room(s0, user_id);
                    }
                    match self.handle_room_leave_at(user_id, cur, now) {
                        Ok(o) => {
                            left = Some(o);
                        },
                        Err(e) => {
                            return Err(e);
                        },
                    }
                }
            },
            None => {},
        }
        let ghost s1 = self.rooms().state();
        let nick = nickname.clone();
        let ghost addr_v = addr@;
        let ghost nick_v = nickname@;
        let _ = self.room_service.add_user_to_room_at(room_id, user_id, addr, nickname, now);
        proof {
            let c = choose|c: RoomUserConnection|
                new_member(room_id, user_id, addr_v, nick_v, now, c) && self.rooms().state()
                    == #[trigger] crate::room_connection_service::add_effect(s1, room_id, user_id, c, now);
            assert(!(s1.users.contains_key(user_id) && s1.users[user_id] != room_id));
            assert(self.rooms().state() == join(s1, room_id, user_id, c, now));
            assert(new_member(room_id, user_id, addr_v, nick_v, now, c));
            assert(exists|c2: RoomUserConnection| new_member(room_id, user_id, addr_v, nick_v, now, c2) && self.rooms().state()
                == #[trigger] join(s1, room_id, user_id, c2, now));
        }
        let n = self.room_service.get_room_user_count(room_id);
        let join_success = GameMessage::RoomJoinSuccess { room_id, user_count: n };
        let user_joined = GameMessage::UserJoinedRoom { room_id, user_id, nickname: nick, user_count: n };
        let ids = match self.room_service.room_recipients(room_id) {
            Ok(ids) => ids,
            Err(_) => Vec::new(),
        };
        let notify = others(&ids, user_id);
        proof {
            assert(lists_once(notify@, self.rooms().state().rooms[room_id].dom().remove(user_id)));
        }
        let out = JoinOutcome { user_count: n, left, join_success, user_joined, notify };
        proof {
            let moved = s0.users.contains_key(user_id) && s0.users[user_id] != room_id;
            let t1 = if moved { depart(s0, s0.users[user_id], user_id, now) } else { s0 };
            assert(t1 == s1);
        }
        Ok(out)
    }

    /// A chat line from `user_id` to `room_id`: it goes to every member of
    /// the room, the sender included. Refused unless the sender is in that
    /// room, and refused when it holds no text.
    pub fn handle_chat_message(&self, user_id: u32, room_id: u32, content: String) -> (r: Result<ChatOutcome, ChatRoomError>)
        requires
            self.wf(),
        ensures
            !(self.rooms().state().users.contains_key(user_id) && self.rooms().state().users[user_id] == room_id)
                ==> r == Err::<ChatOutcome, ChatRoomError>(ChatRoomError::NotInRoom { user_id, room_id }),
            self.rooms().state().users.contains_key(user_id) && self.rooms().state().users[user_id] == room_id
                && content@.len() == 0 ==> r == Err::<ChatOutcome, ChatRoomError>(ChatRoomError::EmptyChat),
            self.rooms().state().users.contains_key(user_id) && self.rooms().state().users[user_id] == room_id
                && content@.len() > 0 ==> (r matches Ok(o) && o.message == GameMessage::ChatMessage {
                user_id,
                room_id,
                message: content,
            } && lists_once(o.recipients@, self.rooms().state().rooms[room_id].dom())),
    {
        match self.room_service.get_user_room(user_id) {
            Some(cur) => {
                if cur != room_id {
                    return Err(ChatRoomError::NotInRoom { user_id, room_id });
                }
            },
            None => {
                return Err(ChatRoomError::NotInRoom { user_id, room_id });
            },
        }
        if content.as_str().unicode_len() == 0 {
            return Err(ChatRoomError::EmptyChat);
        }
        proof {
            reveal(state_wf);
        }
        let recipients = match self.room_service.room_recipients(room_id) {
            Ok(ids) => ids,
            Err(_) => Vec::new(),
        };
        Ok(ChatOutcome { message: GameMessage::ChatMessage { user_id, room_id, message: content }, recipients })
    }

    /// The departure of `user_id` at `now`: a user in a room leaves it.
    /// Returns 1 when that emptied the room, else 0, with what leaving
    /// produced.
    pub fn handle_user_disconnect_at(&mut self, user_id: u32, now: i64) -> (r: (usize, Option<LeaveOutcome>))
        requires
            old(self).wf(),
        ensures
            final(self).wf(),
            !old(self).rooms().state().users.contains_key(user_id) ==> r.0 == 0 && r.1 is None
                && final(self).rooms().state() == old(self).rooms().state(),
            old(self).rooms().state().users.contains_key(user_id) ==> ({
                let s0 = old(self).rooms().state();
                let room = s0.users[user_id];
                &&& final(self).rooms().state() == depart(s0, room, user_id, now)
                &&& r.1 matches Some(o) && reports_leave(o, s0, final(self).rooms().state(), room, user_id)
                    && r.0 == (if o.room_deleted { 1usize } else { 0usize })
            }),
    {
        match self.room_service.get_user_room(user_id) {
            Some(room_id) => {
                proof {
                    reveal(state_wf);
                }
                match self.handle_room_leave_at(user_id, room_id, now) {
                    Ok(o) => {
                        let cleaned: usize = if o.room_deleted { 1 } else { 0 };
                        (cleaned, Some(o))
                    },
                    Err(_) => (0, None),
                }
            },
            None => (0, None),
        }
    }

    /// The member count of `room_id` and each member's id and nickname.
    pub fn get_room_status(&self, room_id: u32) -> (r: (u32, Vec<(u32, String)>))
        requires
            self.wf(),
        ensures
            r.0 == room_count(self.rooms().state(), room_id),
            !self.rooms().state().rooms.contains_key(room_id) ==> r.1@.len() == 0,
            self.rooms().state().rooms.contains_key(room_id) ==> ({
                let m = self.rooms().state().rooms[room_id];
                &&& r.1@.len() == m.len()
                &&& forall|i: int| 0 <= i < r.1@.len() ==> m.contains_key(#[trigger] r.1@[i].0) && r.1@[i].1
                    == m[r.1@[i].0].nickname
                &&& forall|k: u32| #[trigger] m.contains_key(k) ==> exists|i: int| 0 <= i < r.1@.len() && r.1@[i].0 == k
            }),
    {
        let n = self.room_service.get_room_user_count(room_id);
        let users = self.room_service.get_room_users(room_id);
        let ghost s = self.rooms().state();
        proof {
            reveal(state_wf);
        }
        let mut out: Vec<(u32, String)> = Vec::new();
        let mut i: usize = 0;
        while i < users.len()
            invariant
                i <= users@.len(),
                out@.len() == i,
                s == self.rooms().state(),
                forall|j: int| 0 <= j < i ==> #[trigger] out@[j] == (users@[j].user_id, users@[j].nickname),
            decreases users@.len() - i,
        {
            let u = &users[i];
            out.push((u.user_id, u.nickname.clone()));
            i = i + 1;
        }
        proof {
            if s.rooms.contains_key(room_id) {
                let m = s.rooms[room_id];
                assert forall|j: int| 0 <= j < out@.len() implies m.contains_key(#[trigger] out@[j].0) && out@[j].1
                    == m[out@[j].0].nickname by {
                    assert(m.contains_value(users@[j]));
                    let k = choose|k: u32| m.contains_key(k) && m[k] == users@[j];
                    assert(m[k].user_id == k);
                }
                assert forall|k: u32| #[trigger] m.contains_key(k) implies exists|j: int| 0 <= j < out@.len() && out@[j].0 == k by {
                    assert(users@.contains(m[k]));
                    let j = choose|j: int| 0 <= j < users@.len() && users@[j] == m[k];
                    assert(out@[j].0 == k);
                }
            }
        }
        (n, out)
    }

    /// Every room with its member count.
    pub fn get_all_rooms_status(&self) -> (v: Vec<(u32, u32)>)
        requires
            self.wf(),
        ensures
            v@.len() == self.rooms().state().infos.len(),
            forall|i: int| 0 <= i < v@.len() ==> self.rooms().state().infos.contains_key(#[trigger] v@[i].0)
                && v@[i].1 == self.rooms().state().infos[v@[i].0].user_count,
            forall|i: int, j: int| 0 <= i < j < v@.len() ==> v@[i].0 != v@[j].0,
    {
        let rooms = self.room_service.get_all_rooms();
        let mut out: Vec<(u32, u32)> = Vec::new();
        let mut i: usize = 0;
        while i < rooms.len()
            invariant
                i <= rooms@.len(),
                out@.len() == i,
                forall|j: int| 0 <= j < i ==> #[trigger] out@[j] == (rooms@[j].room_id, rooms@[j].user_count),
            decreases rooms@.len() - i,
        {
            out.push((rooms[i].room_id, rooms[i].user_count));
            i = i + 1;
        }
        out
    }

    /// Drops rooms left without members; returns how many.
    pub fn cleanup_empty_rooms(&mut self) -> (n: usize)
        requires
            old(self).wf(),
        ensures
            final(self).wf(),
            final(self).rooms().state() == without_empty_rooms(old(self).rooms().state()),
            old(self).rooms().state().rooms.dom().finite(),
            n == (old(self).rooms().state().rooms.dom() - final(self).rooms().state().rooms.dom()).len(),
            final(self).rooms().stats_of() == old(self).rooms().stats_of(),
            final(self).rooms().server_id_of() == old(self).rooms().server_id_of(),
    {
        self.room_service.cleanup_empty_rooms()
    }

    /// Handles one message of the connection of `user_id` (from `addr`) at
    /// `now` (Unix seconds): a heartbeat is answered with the time; a room
    /// entry, a room exit or a chat line must name the connection's user,
    /// and a chat line must hold 1 to 1000 bytes; anything else is ignored.
    pub fn route_message_at(&mut self, user_id: u32, addr: &String, message: GameMessage, now: i64) -> (r: Result<
        Routed,
        ChatRoomError,
    >)
        requires
            old(self).wf(),
        ensures
            final(self).wf(),
            match message {
                GameMessage::HeartBeat => (r matches Ok(Routed::HeartBeat(m)) && m == GameMessage::HeartBeatResponse {
                    timestamp: now,
                }) && final(self).rooms().state() == old(self).rooms().state(),
                GameMessage::RoomJoin { user_id: uid, room_id, nickname } => if uid != user_id {
                    r == Err::<Routed, ChatRoomError>(ChatRoomError::UserIdMismatch) && final(self).rooms().state()
                        == old(self).rooms().state()
                } else {
                    r matches Ok(Routed::Joined(o)) && o.user_count == room_count(final(self).rooms().state(), room_id)
                },
                GameMessage::RoomLeave { user_id: uid, room_id } => if uid != user_id {
                    r == Err::<Routed, ChatRoomError>(ChatRoomError::UserIdMismatch) && final(self).rooms().state()
                        == old(self).rooms().state()
                } else if !is_member(old(self).rooms().state(), room_id, user_id) {
                    r == Err::<Routed, ChatRoomError>(ChatRoomError::NotInRoom { user_id, room_id })
                        && final(self).rooms().state() == old(self).rooms().state()
                } else {
                    r matches Ok(Routed::Left(o)) && final(self).rooms().state() == depart(
                        old(self).rooms().state(),
                        room_id,
                        user_id,
                        now,
                    ) && reports_leave(o, old(self).rooms().state(), final(self).rooms().state(), room_id, user_id)
                },
                GameMessage::ChatMessage { user_id: uid, room_id, message: text } => final(self).rooms().state()
                    == old(self).rooms().state() && if uid != user_id {
                    r == Err::<Routed, ChatRoomError>(ChatRoomError::UserIdMismatch)
                } else if text@.len() == 0 {
                    r == Err::<Routed, ChatRoomError>(ChatRoomError::EmptyChat)
                } else if encode_utf8(text@).len() as usize > MAX_CHAT_BYTES {
                    r == Err::<Routed, ChatRoomError>(ChatRoomError::ChatTooLong)
                } else if !(old(self).rooms().state().users.contains_key(user_id)
                    && old(self).rooms().state().users[user_id] == room_id) {
                    r == Err::<Routed, ChatRoomError>(ChatRoomError::NotInRoom { user_id, room_id })
                } else {
                    r matches Ok(Routed::Chat(o)) && o.message == GameMessage::ChatMessage {
                        user_id,
                        room_id,
                        message: text,
                    } && lists_once(o.recipients@, old(self).rooms().state().rooms[room_id].dom())
                },
                _ => r matches Ok(Routed::Ignored) && final(self).rooms().state() == old(self).rooms().state(),
            },
    {
        match message {
            GameMessage::HeartBeat => Ok(Routed::HeartBeat(GameMessage::HeartBeatResponse { timestamp: now })),
            GameMessage::RoomJoin { user_id: uid, room_id, nickname } => {
                if uid != user_id {
                    return Err(ChatRoomError::UserIdMismatch);
                }
                match self.handle_room_join_at(user_id, room_id, nickname, addr.clone(), now) {
                    Ok(o) => Ok(Routed::Joined(o)),
                    Err(e) => Err(e),
                }
            },
            GameMessage::RoomLeave { user_id: uid, room_id } => {
                if uid != user_id {
                    return Err(ChatRoomError::UserIdMismatch);
                }
                match self.handle_room_leave_at(user_id, room_id, now) {
                    Ok(o) => Ok(Routed::Left(o)),
                    Err(e) => Err(e),
                }
            },
            GameMessage::ChatMessage { user_id: uid, room_id, message: text } => {
                if uid != user_id {
                    return Err(ChatRoomError::UserIdMismatch);
                }
                if text.as_str().unicode_len() == 0 {
                    return Err(ChatRoomError::EmptyChat);
                }
                if text.as_str().len() > MAX_CHAT_BYTES {
                    return Err(ChatRoomError::ChatTooLong);
                }
                match self.handle_chat_message(user_id, room_id, text) {
                    Ok(o) => Ok(Routed::Chat(o)),
                    Err(e) => Err(e),
                }
            },
            _ => Ok(Routed::Ignored),
        }
    }
}

/// The ids of `ids` other than `user_id`, in order.
fn others(ids: &Vec<u32>, user_id: u32) -> (v: Vec<u32>)
    ensures
        ids@.no_duplicates() ==> v@.no_duplicates(),
        forall|k: u32| #[trigger] v@.contains(k) <==> (ids@.contains(k) && k != user_id),
{
    let mut v: Vec<u32> = Vec::new();
    let mut i: usize = 0;
    while i < ids.len()
        invariant
            i <= ids@.len(),
            forall|a: int| #![trigger v@[a]] 0 <= a < v@.len() ==> exists|b: int| 0 <= b < i && #[trigger] ids@[b] == v@[a],
            forall|a: int| 0 <= a < v@.len() ==> #[trigger] v@[a] != user_id,
            forall|b: int| 0 <= b < i && #[trigger] ids@[b] != user_id ==> v@.contains(ids@[b]),
            ids@.no_duplicates() ==> v@.no_duplicates(),
        decreases ids@.len() - i,
    {
        let x = ids[i];
        if x != user_id {
            let ghost v0 = v@;
            proof {
                if ids@.no_duplicates() {
                    assert forall|a: int| 0 <= a < v0.len() implies v0[a] != x by {
                        let b = choose|b: int| 0 <= b < i && #[trigger] ids@[b] == v0[a];
                        assert(ids@[b] != ids@[i as int]);
                    }
                }
            }
            v.push(x);
            proof {
                assert forall|a: int| #![trigger v@[a]] 0 <= a < v@.len() implies exists|b: int| 0 <= b < i + 1 && #[trigger] ids@[b] == v@[a] by {
                    if a < v0.len() {
                        let b = choose|b: int| 0 <= b < i && #[trigger] ids@[b] == v0[a];
                        assert(ids@[b] == v@[a]);
                    } else {
                        assert(ids@[i as int] == v@[a]);
                    }
                }
                assert forall|b: int| 0 <= b < i + 1 && #[trigger] ids@[b] != user_id implies v@.contains(ids@[b]) by {
                    if b < i {
                        assert(v0.contains(ids@[b]));
                        let a = choose|a: int| 0 <= a < v0.len() && v0[a] == ids@[b];
                        assert(v@[a] == ids@[b]);
                    } else {
                        assert(v@[v@.len() - 1] == ids@[b]);
                    }
                }
            }
        }
        i = i + 1;
    }
    proof {
        assert forall|k: u32| #[trigger] v@.contains(k) <==> (ids@.contains(k) && k != user_id) by {
            if v@.contains(k) {
                let a = choose|a: int| 0 <= a < v@.len() && v@[a] == k;
                let b = choose|b: int| 0 <= b < i && #[trigger] ids@[b] == v@[a];
                assert(ids@.contains(k));
            }
            if ids@.contains(k) && k != user_id {
                let b = choose|b: int| 0 <= b < ids@.len() && ids@[b] == k;
                assert(v@.contains(ids@[b]));
            }
        }
    }
    v
}

} // verus!
