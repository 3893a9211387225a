//! Room membership: which users are in which room, each room's details,
//! joining, leaving and moving, and the heartbeat timeout of members. The
//! sockets stay with the caller, who asks here whom a room message goes to
//! and reports how the deliveries went.

use vstd::prelude::*;
use vstd::std_specs::hash::spec_hash_map_iter;
use vstd::std_specs::iter::IteratorSpec;
use std::collections::HashMap;
use crate::clock::utc_now_timestamp;
use crate::protocol::GameMessage;
use crate::ring_buffer::wrap_add_u64;
use crate::room_tables::{
    RoomUserConnection, RoomInfo, RoomTable, UserRoomTable, RoomInfoTable, room_table_view,
    user_table_view, info_table_view, room_table_new, room_table_get, room_table_insert,
    room_table_remove, room_table_len, room_table_keys, user_table_new, user_table_get,
    user_table_insert, user_table_remove, user_table_len, info_table_new, info_table_get,
    info_table_insert, info_table_remove, info_table_entries,
};

verus! {

broadcast use vstd::std_specs::hash::group_hash_axioms;

/// A member that has not sent a heartbeat for longer than this is dropped
/// (30 minutes).
pub const ROOM_HEARTBEAT_TIMEOUT_SECS: i64 = 1800;

/// Room service counters (the 64-bit ones wrap).
#[derive(Debug, Clone, Copy)]
pub struct RoomConnectionStats {
    pub total_rooms: u32,
    pub total_users: u32,
    pub total_connections: u64,
    pub total_messages_sent: u64,
    pub failed_messages: u64,
    pub redis_sync_count: u64,
    pub redis_sync_failures: u64,
}

/// Why a room operation was refused.
#[derive(Debug, Clone, Copy, PartialEq, Eq)]
pub enum RoomError {
    /// The user is not in that room.
    UserNotInRoom { user_id: u32, room_id: u32 },
    /// No such room.
    RoomNotFound(u32),
    /// The user is in no room.
    NotInAnyRoom(u32),
    /// The user's connection record is missing.
    ConnectionNotFound(u32),
}

/// The whole membership state.
pub struct RoomState {
    pub rooms: Map<u32, Map<u32, RoomUserConnection>>,
    pub users: Map<u32, u32>,
    pub infos: Map<u32, RoomInfo>,
}

/// Every member is recorded in their room and nowhere else, records name
/// their user and room, and exactly the rooms have details, which count
/// their members. A room may be empty until it is cleaned up.
#[verifier::opaque]
pub open spec fn state_wf(s: RoomState) -> bool {
    &&& forall|r: u32, u: u32|
        s.rooms.contains_key(r) && #[trigger] s.rooms[r].contains_key(u) ==> {
            &&& s.users.contains_key(u)
            &&& s.users[u] == r
            &&& s.rooms[r][u].user_id == u
            &&& s.rooms[r][u].room_id == r
        }
    &&& forall|u: u32|
        #[trigger] s.users.contains_key(u) ==> s.rooms.contains_key(s.users[u])
            && s.rooms[s.users[u]].contains_key(u)
    &&& s.infos.dom() == s.rooms.dom()
    &&& forall|r: u32| #[trigger] s.infos.contains_key(r) ==> s.infos[r].room_id == r
        && s.infos[r].user_count == count_u32(s.rooms[r])
}

/// The member count a room's details record.
pub open spec fn count_u32(m: Map<u32, RoomUserConnection>) -> u32 {
    (m.len() % 0x1_0000_0000) as u32
}

/// The state after member `u` leaves room `r` at `now`: the room's count
/// and activity time are updated; an emptied room stays until cleanup.
pub open spec fn leave(s: RoomState, r: u32, u: u32, now: i64) -> RoomState {
    let rest = s.rooms[r].remove(u);
    RoomState {
        rooms: s.rooms.insert(r, rest),
        users: s.users.remove(u),
        infos: s.infos.insert(r, RoomInfo { user_count: count_u32(rest), last_activity: now, ..s.infos[r] }),
    }
}

/// `s` without room `r` when that room is empty.
pub open spec fn drop_if_empty(s: RoomState, r: u32) -> RoomState {
    if s.rooms.contains_key(r) && s.rooms[r].is_empty() {
        RoomState { rooms: s.rooms.remove(r), users: s.users, infos: s.infos.remove(r) }
    } else {
        s
    }
}

/// The state after member `u` leaves room `r` at `now` and an emptied room
/// is dropped at once.
pub open spec fn depart(s: RoomState, r: u32, u: u32, now: i64) -> RoomState {
    drop_if_empty(leave(s, r, u, now), r)
}

/// The rooms of `s` that have members.
pub open spec fn occupied(s: RoomState) -> Set<u32> {
    s.rooms.dom().filter(|r: u32| !s.rooms[r].is_empty())
}

/// `s` with every empty room dropped.
pub open spec fn without_empty_rooms(s: RoomState) -> RoomState {
    RoomState { rooms: s.rooms.restrict(occupied(s)), users: s.users, infos: s.infos.restrict(occupied(s)) }
}

/// The state after `conn` joins room `r` as member `u` at `now`: the room
/// is created if needed (created now), and its count and activity time
/// are updated.
pub open spec fn join(s: RoomState, r: u32, u: u32, conn: RoomUserConnection, now: i64) -> RoomState {
    let members = if s.rooms.contains_key(r) {
        s.rooms[r]
    } else {
        Map::empty()
    };
    let ms = members.insert(u, conn);
    let base = if s.infos.contains_key(r) {
        s.infos[r]
    } else {
        RoomInfo { room_id: r, user_count: 0, created_at: now, last_activity: now }
    };
    RoomState {
        rooms: s.rooms.insert(r, ms),
        users: s.users.insert(u, r),
        infos: s.infos.insert(r, RoomInfo { user_count: count_u32(ms), last_activity: now, ..base }),
    }
}

/// The connection record of a user joining now.
pub open spec fn new_member(r: u32, u: u32, addr: Seq<char>, nickname: Seq<char>, now: i64, c: RoomUserConnection) -> bool {
    &&& c.user_id == u
    &&& c.room_id == r
    &&& c.addr@ == addr
    &&& c.nickname@ == nickname
    &&& c.connected_at == now
    &&& c.last_heartbeat == now
}

/// The room service.
pub struct RoomConnectionService {
    room_connections: RoomTable,
    user_room_map: UserRoomTable,
    room_info: RoomInfoTable,
    server_id: String,
    stats: RoomConnectionStats,
}

impl RoomConnectionService {
    /// The membership state.
    pub closed spec fn state(&self) -> RoomState {
        RoomState {
            rooms: room_table_view(self.room_connections),
            users: user_table_view(self.user_room_map),
            infos: info_table_view(self.room_info),
        }
    }

    pub closed spec fn stats_of(&self) -> RoomConnectionStats {
        self.stats
    }

    pub closed spec fn server_id_of(&self) -> Seq<char> {
        self.server_id@
    }

    pub open spec fn wf(&self) -> bool {
        state_wf(self.state())
    }

    /// An empty service for the server `server_id`.
    pub fn new(server_id: String) -> (s: Self)
        ensures
            s.wf(),
            s.state().rooms == Map::<u32, Map<u32, RoomUserConnection>>::empty(),
            s.state().users == Map::<u32, u32>::empty(),
            s.state().infos == Map::<u32, RoomInfo>::empty(),
            s.server_id_of() == server_id@,
            s.stats_of() == (RoomConnectionStats {
                total_rooms: 0,
                total_users: 0,
                total_connections: 0,
                total_messages_sent: 0,
                failed_messages: 0,
                redis_sync_count: 0,
                redis_sync_failures: 0,
            }),
    {
        let s = RoomConnectionService {
            room_connections: room_table_new(),
            user_room_map: user_table_new(),
            room_info: info_table_new(),
            server_id,
            stats: RoomConnectionStats {
                total_rooms: 0,
                total_users: 0,
                total_connections: 0,
                total_messages_sent: 0,
                failed_messages: 0,
                redis_sync_count: 0,
                redis_sync_failures: 0,
            },
        };
        assert(s.state().rooms =~= Map::<u32, Map<u32, RoomUserConnection>>::empty());
        assert(s.state().users =~= Map::<u32, u32>::empty());
        assert(s.state().infos =~= Map::<u32, RoomInfo>::empty());
        proof {
            reveal(state_wf);
        }
        s
    }

    /// Recounts the users and rooms.
    fn refresh_totals(&mut self)
        ensures
            final(self).state() == old(self).state(),
            final(self).server_id_of() == old(self).server_id_of(),
            final(self).stats_of() == (RoomConnectionStats {
                total_users: (old(self).state().users.len() % 0x1_0000_0000) as u32,
                total_rooms: (old(self).state().rooms.len() % 0x1_0000_0000) as u32,
                ..old(self).stats_of()
            }),
    {
        let users = user_table_len(&self.user_room_map);
        let rooms = room_table_len(&self.room_connections);
        #[verifier::truncate]
        let u32_users: u32 = (users as u64 % 0x1_0000_0000u64) as u32;
        #[verifier::truncate]
        let u32_rooms: u32 = (rooms as u64 % 0x1_0000_0000u64) as u32;
        self.stats.total_users = u32_users;
        self.stats.total_rooms = u32_rooms;
    }

    /// Removes `user_id` from `room_id` at `now` (Unix seconds); an emptied
    /// room stays, with no members, until `cleanup_empty_rooms`. Refused when
    /// the user is not in that room.
    pub fn remove_user_from_room_at(&mut self, room_id: u32, user_id: u32, now: i64) -> (r: Result<(), RoomError>)
        requires
            old(self).wf(),
        ensures
            final(self).wf(),
            final(self).server_id_of() == old(self).server_id_of(),
            !(old(self).state().rooms.contains_key(room_id) && old(self).state().rooms[room_id].contains_key(
                user_id,
            )) ==> {
                &&& r == Err::<(), RoomError>(RoomError::UserNotInRoom { user_id, room_id })
                &&& final(self).state() == old(self).state()
                &&& final(self).stats_of() == old(self).stats_of()
            },
            old(self).state().rooms.contains_key(room_id) && old(self).state().rooms[room_id].contains_key(
                user_id,
            ) ==> {
                &&& r is Ok
                &&& final(self).state() == leave(old(self).state(), room_id, user_id, now)
                &&& final(self).stats_of() == (RoomConnectionStats {
                    total_users: (final(self).state().users.len() % 0x1_0000_0000) as u32,
                    total_rooms: (final(self).state().rooms.len() % 0x1_0000_0000) as u32,
                    ..old(self).stats_of()
                })
            },
    {
        let ghost s = self.state();
        let mut members = match room_table_get(&self.room_connections, room_id) {
            Some(m) => m,
            None => return Err(RoomError::UserNotInRoom { user_id, room_id }),
        };
        let removed = members.remove(&user_id);
        if removed.is_none() {
            return Err(RoomError::UserNotInRoom { user_id, room_id });
        }
        let ghost rest = members@;
        assert(rest == s.rooms[room_id].remove(user_id));
        user_table_remove(&mut self.user_room_map, user_id);
        let count = members.len();
        #[verifier::truncate]
        let c32: u32 = (count as u64 % 0x1_0000_0000u64) as u32;
        let old_info = match info_table_get(&self.room_info, room_id) {
            Some(i) => i,
            None => RoomInfo { room_id, user_count: 0, created_at: now, last_activity: now },
        };
        room_table_insert(&mut self.room_connections, room_id, members);
        info_table_insert(
            &mut self.room_info,
            room_id,
            RoomInfo { user_count: c32, last_activity: now, ..old_info },
        );
        proof {
            reveal(state_wf);
            let t = leave(s, room_id, user_id, now);
            assert(self.state().rooms =~= t.rooms);
            assert(self.state().users =~= t.users);
            assert(self.state().infos =~= t.infos);
            lemma_leave_wf(s, room_id, user_id, now);
        }
        self.refresh_totals();
        Ok(())
    }
}

/// The state after `conn` is added as member `u` of room `r` at `now`: a
/// user in another room leaves it first.
pub open spec fn add_effect(s: RoomState, r: u32, u: u32, conn: RoomUserConnection, now: i64) -> RoomState {
    if s.users.contains_key(u) && s.users[u] != r {
        join(leave(s, s.users[u], u, now), r, u, conn, now)
    } else {
        join(s, r, u, conn, now)
    }
}

impl RoomConnectionService {
    /// Records `conn` as member `user_id` of `room_id` at `now`.
    fn join_room(&mut self, room_id: u32, user_id: u32, conn: RoomUserConnection, now: i64)
        requires
            old(self).wf(),
            conn.user_id == user_id,
            conn.room_id == room_id,
            old(self).state().users.contains_key(user_id) ==> old(self).state().users[user_id] == room_id,
        ensures
            final(self).wf(),
            final(self).state() == join(old(self).state(), room_id, user_id, conn, now),
            final(self).stats_of() == old(self).stats_of(),
            final(self).server_id_of() == old(self).server_id_of(),
    {
        let ghost s1 = self.state();
        let ghost c = conn;
        let mut members = match room_table_get(&self.room_connections, room_id) {
            Some(m) => m,
            None => HashMap::new(),
        };
        let base = match info_table_get(&self.room_info, room_id) {
            Some(i) => i,
            None => RoomInfo { room_id, user_count: 0, created_at: now, last_activity: now },
        };
        members.insert(user_id, conn);
        let count = members.len();
        #[verifier::truncate]
        let c32: u32 = (count as u64 % 0x1_0000_0000u64) as u32;
        room_table_insert(&mut self.room_connections, room_id, members);
        user_table_insert(&mut self.user_room_map, user_id, room_id);
        info_table_insert(
            &mut self.room_info,
            room_id,
            RoomInfo { user_count: c32, last_activity: now, ..base },
        );
        proof {
            let t = join(s1, room_id, user_id, c, now);
            assert(self.state().rooms =~= t.rooms);
            assert(self.state().users =~= t.users);
            assert(self.state().infos =~= t.infos);
            lemma_join_wf(s1, room_id, user_id, c, now);
        }
    }

    /// Adds `user_id` to `room_id` at `now` (Unix seconds), creating the
    /// room if needed; a user in another room leaves it first, and a user
    /// already in this room gets a fresh record.
    pub fn add_user_to_room_at(
        &mut self,
        room_id: u32,
        user_id: u32,
        addr: String,
        nickname: String,
        now: i64,
    ) -> (r: Result<(), RoomError>)
        requires
            old(self).wf(),
        ensures
            final(self).wf(),
            r is Ok,
            final(self).server_id_of() == old(self).server_id_of(),
            exists|c: RoomUserConnection|
                new_member(room_id, user_id, addr@, nickname@, now, c) && final(self).state()
                    == #[trigger] add_effect(old(self).state(), room_id, user_id, c, now),
            final(self).stats_of() == (RoomConnectionStats {
                total_users: (final(self).state().users.len() % 0x1_0000_0000) as u32,
                total_rooms: (final(self).state().rooms.len() % 0x1_0000_0000) as u32,
                total_connections: wrap_add_u64(old(self).stats_of().total_connections, 1),
                ..old(self).stats_of()
            }),
    {
        let ghost s0 = self.state();
        match user_table_get(&self.user_room_map, user_id) {
            Some(old_room) => {
                if old_room != room_id {
                    assert(self.state().rooms.contains_key(old_room) && self.state().rooms[old_room].contains_key(user_id)) by {
                        reveal(state_wf);
                        assert(self.state().users.contains_key(user_id));
                    }
                    let left = self.remove_user_from_room_at(old_room, user_id, now);
                    if left.is_err() {
                        return left;
                    }
                }
            },
            None => {},
        }
        let ghost s1 = self.state();
        let conn = RoomUserConnection {
            user_id,
            room_id,
            addr,
            nickname,
            connected_at: now,
            last_heartbeat: now,
        };
        let ghost c = conn;
        self.join_room(room_id, user_id, conn, now);
        assert(self.state() == add_effect(s0, room_id, user_id, c, now));
        self.stats.total_connections = self.stats.total_connections.wrapping_add(1);
        self.refresh_totals();
        Ok(())
    }

    /// Adds `user_id` to `room_id` now, as the clock reads it.
    pub fn add_user_to_room(&mut self, room_id: u32, user_id: u32, addr: String, nickname: String) -> (r: Result<(), RoomError>)
        requires
            old(self).wf(),
        ensures
            final(self).wf(),
            r is Ok,
            final(self).server_id_of() == old(self).server_id_of(),
            exists|c: RoomUserConnection, now: i64|
                new_member(room_id, user_id, addr@, nickname@, now, c) && final(self).state()
                    == #[trigger] add_effect(old(self).state(), room_id, user_id, c, now),
    {
        let now = utc_now_timestamp();
        self.add_user_to_room_at(room_id, user_id, addr, nickname, now)
    }

    /// Removes `user_id` from `room_id` now, as the clock reads it.
    pub fn remove_user_from_room(&mut self, room_id: u32, user_id: u32) -> (r: Result<(), RoomError>)
        requires
            old(self).wf(),
        ensures
            final(self).wf(),
            final(self).server_id_of() == old(self).server_id_of(),
            !(old(self).state().rooms.contains_key(room_id) && old(self).state().rooms[room_id].contains_key(
                user_id,
            )) ==> r == Err::<(), RoomError>(RoomError::UserNotInRoom { user_id, room_id })
                && final(self).state() == old(self).state(),
            old(self).state().rooms.contains_key(room_id) && old(self).state().rooms[room_id].contains_key(
                user_id,
            ) ==> r is Ok && exists|now: i64| final(self).state() == #[trigger] leave(old(self).state(), room_id, user_id, now),
    {
        let now = utc_now_timestamp();
        self.remove_user_from_room_at(room_id, user_id, now)
    }
}

proof fn lemma_join_wf(s: RoomState, r: u32, u: u32, c: RoomUserConnection, now: i64)
    requires
        state_wf(s),
        c.user_id == u,
        c.room_id == r,
        s.users.contains_key(u) ==> s.users[u] == r,
    ensures
        state_wf(join(s, r, u, c, now)),
{
    reveal(state_wf);
    let t = join(s, r, u, c, now);
    assert forall|r2: u32, u2: u32| t.rooms.contains_key(r2) && #[trigger] t.rooms[r2].contains_key(u2) implies {
        &&& t.users.contains_key(u2)
        &&& t.users[u2] == r2
        &&& t.rooms[r2][u2].user_id == u2
        &&& t.rooms[r2][u2].room_id == r2
    } by {
        if r2 == r && u2 == u {
        } else if r2 == r {
            assert(s.rooms.contains_key(r) && s.rooms[r].contains_key(u2));
        } else {
            assert(s.rooms[r2].contains_key(u2));
            if u2 == u {
                assert(s.users[u] == r2);
            }
        }
    }
    assert forall|u2: u32| #[trigger] t.users.contains_key(u2) implies t.rooms.contains_key(t.users[u2])
        && t.rooms[t.users[u2]].contains_key(u2) by {
        if u2 != u {
            assert(s.users.contains_key(u2));
        }
    }
    assert(t.infos.dom() =~= t.rooms.dom());
}

fn copy_member(c: &RoomUserConnection) -> (r: RoomUserConnection)
    ensures
        r == *c,
{
    RoomUserConnection {
        user_id: c.user_id,
        room_id: c.room_id,
        addr: c.addr.clone(),
        nickname: c.nickname.clone(),
        connected_at: c.connected_at,
        last_heartbeat: c.last_heartbeat,
    }
}

/// The members of a room's table, in its iteration order.
fn member_list(m: &HashMap<u32, RoomUserConnection>) -> (v: Vec<RoomUserConnection>)
    ensures
        v@.len() == m@.len(),
        forall|i: int| 0 <= i < v@.len() ==> m@.contains_value(#[trigger] v@[i]),
        forall|k: u32| #[trigger] m@.contains_key(k) ==> v@.contains(m@[k]),
{
    let mut v: Vec<RoomUserConnection> = Vec::new();
    let ghost s = spec_hash_map_iter(m).remaining();
    for (k, x) in it: m.iter()
        invariant
            v@.len() == it.index(),
            forall|j: int| 0 <= j < it.index() ==> v@[j] == *it.seq()[j].1,
            it.seq() == s,
    {
        v.push(copy_member(x));
    }
    proof {
        assert forall|i: int| 0 <= i < v@.len() implies m@.contains_value(#[trigger] v@[i]) by {
            assert(m@.contains_key(*s[i].0));
        }
        assert forall|k: u32| #[trigger] m@.contains_key(k) implies v@.contains(m@[k]) by {
            assert(s.contains((&k, &m@[k])));
            let j = choose|j: int| 0 <= j < s.len() && s[j] == (&k, &m@[k]);
            assert(v@[j] == m@[k]);
        }
    }
    v
}

/// What kind of message a room message is, for the statistics.
pub open spec fn category_of(m: GameMessage) -> Seq<char> {
    match m {
        GameMessage::ChatMessage { .. } => "chat"@,
        GameMessage::HeartBeat => "heartbeat"@,
        GameMessage::RoomJoinSuccess { .. } => "room"@,
        GameMessage::RoomLeaveSuccess { .. } => "room"@,
        GameMessage::UserJoinedRoom { .. } => "room"@,
        GameMessage::UserLeftRoom { .. } => "room"@,
        GameMessage::SystemMessage { .. } => "system"@,
        GameMessage::Error { .. } => "error"@,
        _ => "other"@,
    }
}

/// Whether a member last heard from at `last` has timed out at `now`.
pub open spec fn member_timed_out(last: i64, now: i64) -> bool {
    now - last > ROOM_HEARTBEAT_TIMEOUT_SECS
}

/// The users whose membership has timed out at `now`.
pub open spec fn stale_users(s: RoomState, now: i64) -> Set<u32> {
    Set::new(|u: u32| s.users.contains_key(u) && member_timed_out(s.rooms[s.users[u]][u].last_heartbeat, now))
}

impl RoomConnectionService {
    /// The room of `user_id`.
    pub fn get_user_room(&self, user_id: u32) -> (r: Option<u32>)
        ensures
            r == (if self.state().users.contains_key(user_id) {
                Some(self.state().users[user_id])
            } else {
                None::<u32>
            }),
    {
        user_table_get(&self.user_room_map, user_id)
    }

    /// How many members `room_id` has (0 for no such room).
    pub fn get_room_user_count(&self, room_id: u32) -> (n: u32)
        ensures
            n == if self.state().rooms.contains_key(room_id) {
                count_u32(self.state().rooms[room_id])
            } else {
                0
            },
    {
        match room_table_get(&self.room_connections, room_id) {
            Some(m) => {
                let count = m.len();
                #[verifier::truncate]
                let c32: u32 = (count as u64 % 0x1_0000_0000u64) as u32;
                c32
            },
            None => 0,
        }
    }

    /// How many users are in a room.
    pub fn get_total_users(&self) -> (n: u32)
        ensures
            n == (self.state().users.len() % 0x1_0000_0000) as u32,
    {
        let users = user_table_len(&self.user_room_map);
        #[verifier::truncate]
        let n: u32 = (users as u64 % 0x1_0000_0000u64) as u32;
        n
    }

    /// How many rooms there are.
    pub fn get_total_rooms(&self) -> (n: u32)
        ensures
            n == (self.state().rooms.len() % 0x1_0000_0000) as u32,
    {
        let rooms = room_table_len(&self.room_connections);
        #[verifier::truncate]
        let n: u32 = (rooms as u64 % 0x1_0000_0000u64) as u32;
        n
    }

    /// The members of `room_id` (none for no such room).
    pub fn get_room_users(&self, room_id: u32) -> (v: Vec<RoomUserConnection>)
        ensures
            !self.state().rooms.contains_key(room_id) ==> v@.len() == 0,
            self.state().rooms.contains_key(room_id) ==> {
                let m = self.state().rooms[room_id];
                &&& v@.len() == m.len()
                &&& forall|i: int| 0 <= i < v@.len() ==> m.contains_value(#[trigger] v@[i])
                &&& forall|k: u32| #[trigger] m.contains_key(k) ==> v@.contains(m[k])
            },
    {
        match room_table_get(&self.room_connections, room_id) {
            Some(m) => member_list(&m),
            None => Vec::new(),
        }
    }

    /// The details of every room, in the table's order.
    pub fn get_all_rooms(&self) -> (v: Vec<RoomInfo>)
        requires
            self.wf(),
        ensures
            v@.len() == self.state().infos.len(),
            forall|i: int| 0 <= i < v@.len() ==> self.state().infos.contains_key(#[trigger] v@[i].room_id)
                && self.state().infos[v@[i].room_id] == v@[i],
            forall|i: int, j: int| 0 <= i < j < v@.len() ==> v@[i].room_id != v@[j].room_id,
    {
        let entries = info_table_entries(&self.room_info);
        let mut v: Vec<RoomInfo> = Vec::new();
        let mut i: usize = 0;
        while i < entries.len()
            invariant
                i <= entries@.len(),
                v@.len() == i,
                forall|j: int| 0 <= j < i ==> #[trigger] v@[j] == entries@[j].1,
            decreases entries@.len() - i,
        {
            v.push(entries[i].1);
            i = i + 1;
        }
        proof {
            reveal(state_wf);
            assert forall|j: int| 0 <= j < v@.len() implies self.state().infos.contains_key(#[trigger] v@[j].room_id)
                && self.state().infos[v@[j].room_id] == v@[j] by {
                assert(self.state().infos.contains_key(entries@[j].0));
            }
            assert forall|a: int, b: int| 0 <= a < b < v@.len() implies v@[a].room_id != v@[b].room_id by {
                assert(self.state().infos.contains_key(entries@[a].0));
                assert(self.state().infos.contains_key(entries@[b].0));
            }
        }
        v
    }

    /// The record of member `user_id` of `room_id`, if there is one.
    pub fn get_member(&self, room_id: u32, user_id: u32) -> (r: Option<RoomUserConnection>)
        ensures
            self.state().rooms.contains_key(room_id) && self.state().rooms[room_id].contains_key(user_id)
                ==> r == Some(self.state().rooms[room_id][user_id]),
            !(self.state().rooms.contains_key(room_id) && self.state().rooms[room_id].contains_key(user_id))
                ==> r is None,
    {
        match room_table_get(&self.room_connections, room_id) {
            Some(m) => match m.get(&user_id) {
                Some(c) => Some(copy_member(c)),
                None => None,
            },
            None => None,
        }
    }

    /// The user ids a message to `room_id` goes to; refused for no such room.
    pub fn room_recipients(&self, room_id: u32) -> (r: Result<Vec<u32>, RoomError>)
        ensures
            !self.state().rooms.contains_key(room_id) ==> r == Err::<Vec<u32>, RoomError>(
                RoomError::RoomNotFound(room_id),
            ),
            self.state().rooms.contains_key(room_id) ==> (r matches Ok(ids) && ids@.len()
                == self.state().rooms[room_id].len() && ids@.no_duplicates() && forall|k: u32|
                #[trigger] ids@.contains(k) <==> self.state().rooms[room_id].contains_key(k)),
    {
        match room_table_get(&self.room_connections, room_id) {
            Some(m) => {
                let mut ids: Vec<u32> = Vec::new();
                let ghost s = spec_hash_map_iter(&m).remaining();
                for (k, x) in it: m.iter()
                    invariant
                        ids@.len() == it.index(),
                        forall|j: int| 0 <= j < it.index() ==> ids@[j] == *it.seq()[j].0,
                        it.seq() == s,
                        s.no_duplicates(),
                {
                    ids.push(*k);
                }
                proof {
                    assert forall|a: int, b: int| 0 <= a < ids@.len() && 0 <= b < ids@.len() && a != b
                        implies ids@[a] != ids@[b] by {
                        if ids@[a] == ids@[b] {
                            assert(m@.contains_key(*s[a].0));
                            assert(m@.contains_key(*s[b].0));
                            assert(s[a] == s[b]);
                        }
                    }
                    assert forall|k: u32| #[trigger] ids@.contains(k) <==> m@.contains_key(k) by {
                        if m@.contains_key(k) {
                            assert(s.contains((&k, &m@[k])));
                            let j = choose|j: int| 0 <= j < s.len() && s[j] == (&k, &m@[k]);
                            assert(ids@[j] == k);
                        }
                        if ids@.contains(k) {
                            let j = choose|j: int| 0 <= j < ids@.len() && ids@[j] == k;
                            assert(m@.contains_key(*s[j].0));
                        }
                    }
                }
                Ok(ids)
            },
            None => Err(RoomError::RoomNotFound(room_id)),
        }
    }

    /// Whether a message can go to `user_id` in `room_id`.
    pub fn check_room_recipient(&self, room_id: u32, user_id: u32) -> (r: Result<(), RoomError>)
        ensures
            !self.state().rooms.contains_key(room_id) ==> r == Err::<(), RoomError>(
                RoomError::RoomNotFound(room_id),
            ),
            self.state().rooms.contains_key(room_id) && !self.state().rooms[room_id].contains_key(user_id)
                ==> r == Err::<(), RoomError>(RoomError::UserNotInRoom { user_id, room_id }),
            self.state().rooms.contains_key(room_id) && self.state().rooms[room_id].contains_key(user_id)
                ==> r is Ok,
    {
        match room_table_get(&self.room_connections, room_id) {
            Some(m) => {
                if m.contains_key(&user_id) {
                    Ok(())
                } else {
                    Err(RoomError::UserNotInRoom { user_id, room_id })
                }
            },
            None => Err(RoomError::RoomNotFound(room_id)),
        }
    }

    /// Counts the deliveries of a room message.
    pub fn record_room_delivery(&mut self, sent: u64, failed: u64)
        ensures
            final(self).state() == old(self).state(),
            final(self).server_id_of() == old(self).server_id_of(),
            final(self).stats_of() == (RoomConnectionStats {
                total_messages_sent: wrap_add_u64(old(self).stats_of().total_messages_sent, sent as int),
                failed_messages: wrap_add_u64(old(self).stats_of().failed_messages, failed as int),
                ..old(self).stats_of()
            }),
    {
        self.stats.total_messages_sent = self.stats.total_messages_sent.wrapping_add(sent);
        self.stats.failed_messages = self.stats.failed_messages.wrapping_add(failed);
    }

    /// The statistics category of a message sent to a room.
    pub fn message_category(message: &GameMessage) -> (c: &'static str)
        ensures
            c@ == category_of(*message),
    {
        match message {
            GameMessage::ChatMessage { .. } => "chat",
            GameMessage::HeartBeat => "heartbeat",
            GameMessage::RoomJoinSuccess { .. } => "room",
            GameMessage::RoomLeaveSuccess { .. } => "room",
            GameMessage::UserJoinedRoom { .. } => "room",
            GameMessage::UserLeftRoom { .. } => "room",
            GameMessage::SystemMessage { .. } => "system",
            GameMessage::Error { .. } => "error",
            _ => "other",
        }
    }

    /// A snapshot of the counters.
    pub fn get_stats(&self) -> (s: RoomConnectionStats)
        ensures
            s == self.stats_of(),
    {
        self.stats
    }
}

impl RoomConnectionService {
    /// Moves `user_id` to `to_room_id` at `now`: the user leaves their room
    /// and joins the other with a fresh record under the same address and
    /// nickname. Refused for a user in no room; nothing happens when the
    /// rooms are the same.
    pub fn move_user_to_room_at(&mut self, user_id: u32, to_room_id: u32, now: i64) -> (r: Result<(), RoomError>)
        requires
            old(self).wf(),
        ensures
            final(self).wf(),
            final(self).server_id_of() == old(self).server_id_of(),
            !old(self).state().users.contains_key(user_id) ==> r == Err::<(), RoomError>(
                RoomError::NotInAnyRoom(user_id),
            ) && final(self).state() == old(self).state() && final(self).stats_of() == old(self).stats_of(),
            old(self).state().users.contains_key(user_id) && old(self).state().users[user_id] == to_room_id
                ==> r is Ok && final(self).state() == old(self).state() && final(self).stats_of() == old(
                self,
            ).stats_of(),
            old(self).state().users.contains_key(user_id) && old(self).state().users[user_id] != to_room_id
                ==> {
                let from = old(self).state().users[user_id];
                let prev = old(self).state().rooms[from][user_id];
                &&& r is Ok
                &&& exists|c: RoomUserConnection|
                    new_member(to_room_id, user_id, prev.addr@, prev.nickname@, now, c) && final(self).state()
                        == #[trigger] join(leave(old(self).state(), from, user_id, now), to_room_id, user_id, c, now)
            },
    {
        let from = match self.get_user_room(user_id) {
            Some(f) => f,
            None => return Err(RoomError::NotInAnyRoom(user_id)),
        };
        if from == to_room_id {
            return Ok(());
        }
        proof {
            reveal(state_wf);
            assert(self.state().rooms.contains_key(from) && self.state().rooms[from].contains_key(user_id));
        }
        let members = match room_table_get(&self.room_connections, from) {
            Some(m) => m,
            None => return Err(RoomError::ConnectionNotFound(user_id)),
        };
        let conn = match members.get(&user_id) {
            Some(c) => copy_member(c),
            None => return Err(RoomError::ConnectionNotFound(user_id)),
        };
        let ghost s0 = self.state();
        let left = self.remove_user_from_room_at(from, user_id, now);
        if left.is_err() {
            return left;
        }
        let ghost s1 = self.state();
        proof {
            assert(!s1.users.contains_key(user_id));
        }
        self.add_user_to_room_at(to_room_id, user_id, conn.addr, conn.nickname, now)
    }

    /// Moves `user_id` to `to_room_id` now, as the clock reads it.
    pub fn move_user_to_room(&mut self, user_id: u32, to_room_id: u32) -> (r: Result<(), RoomError>)
        requires
            old(self).wf(),
        ensures
            final(self).wf(),
            !old(self).state().users.contains_key(user_id) ==> r == Err::<(), RoomError>(
                RoomError::NotInAnyRoom(user_id),
            ),
            old(self).state().users.contains_key(user_id) ==> r is Ok,
    {
        let now = utc_now_timestamp();
        self.move_user_to_room_at(user_id, to_room_id, now)
    }

    /// Drops room `room_id` if it has no members; tells whether it did.
    pub fn drop_room_if_empty(&mut self, room_id: u32) -> (dropped: bool)
        requires
            old(self).wf(),
        ensures
            final(self).wf(),
            dropped == (old(self).state().rooms.contains_key(room_id) && old(self).state().rooms[room_id].is_empty()),
            final(self).state() == drop_if_empty(old(self).state(), room_id),
            final(self).server_id_of() == old(self).server_id_of(),
            dropped ==> final(self).stats_of() == (RoomConnectionStats {
                total_users: (final(self).state().users.len() % 0x1_0000_0000) as u32,
                total_rooms: (final(self).state().rooms.len() % 0x1_0000_0000) as u32,
                ..old(self).stats_of()
            }),
            !dropped ==> final(self).stats_of() == old(self).stats_of(),
    {
        let ghost s = self.state();
        match room_table_get(&self.room_connections, room_id) {
            Some(m) => {
                if m.is_empty() {
                    room_table_remove(&mut self.room_connections, room_id);
                    info_table_remove(&mut self.room_info, room_id);
                    proof {
                        lemma_drop_empty_wf(s, room_id);
                        let t = drop_if_empty(s, room_id);
                        assert(self.state().rooms =~= t.rooms);
                        assert(self.state().infos =~= t.infos);
                        assert(self.state().users =~= t.users);
                    }
                    self.refresh_totals();
                    true
                } else {
                    false
                }
            },
            None => false,
        }
    }

    /// Drops every room without members and returns how many it dropped.
    pub fn cleanup_empty_rooms(&mut self) -> (n: usize)
        requires
            old(self).wf(),
        ensures
            final(self).wf(),
            final(self).state() == without_empty_rooms(old(self).state()),
            old(self).state().rooms.dom().finite(),
            n == (old(self).state().rooms.dom() - final(self).state().rooms.dom()).len(),
            final(self).stats_of() == old(self).stats_of(),
            final(self).server_id_of() == old(self).server_id_of(),
    {
        let ghost s = self.state();
        let keys = room_table_keys(&self.room_connections);
        proof {
            broadcast use vstd::seq_lib::seq_to_set_is_finite;
            assert(keys@.to_set().finite());
        }
        let mut removed: usize = 0;
        let mut i: usize = 0;
        proof {
            assert(s.rooms.dom() - s.rooms.dom() =~= Set::<u32>::empty());
        }
        while i < keys.len()
            invariant
                i <= keys@.len(),
                keys@.no_duplicates(),
                keys@.to_set() == s.rooms.dom(),
                s.rooms.dom().finite(),
                state_wf(s),
                state_wf(self.state()),
                self.stats_of() == old(self).stats_of(),
                self.server_id_of() == old(self).server_id_of(),
                self.state().users == s.users,
                self.state().rooms.dom() <= s.rooms.dom(),
                forall|r: u32| #[trigger] self.state().rooms.contains_key(r) ==> self.state().rooms[r] == s.rooms[r]
                    && self.state().infos[r] == s.infos[r],
                forall|r: u32| #[trigger] s.rooms.contains_key(r) ==> (self.state().rooms.contains_key(r) <==> (
                    !s.rooms[r].is_empty() || !(exists|j: int| 0 <= j < i && #[trigger] keys@[j] == r))),
                removed == (s.rooms.dom() - self.state().rooms.dom()).len(),
                removed <= i,
            decreases keys@.len() - i,
        {
            let room = keys[i];
            proof {
                assert(keys@.to_set().contains(room));
                assert forall|j: int| 0 <= j < i implies #[trigger] keys@[j] != room by {
                    assert(keys@[j] != keys@[i as int]);
                }
            }
            let ghost before = self.state();
            match room_table_get(&self.room_connections, room) {
                Some(m) => {
                    if m.is_empty() {
                        room_table_remove(&mut self.room_connections, room);
                        info_table_remove(&mut self.room_info, room);
                        proof {
                            lemma_drop_empty_wf(before, room);
                            let t = drop_if_empty(before, room);
                            assert(self.state().rooms =~= t.rooms);
                            assert(self.state().infos =~= t.infos);
                            assert(self.state().users =~= t.users);
                            assert(s.rooms.dom() - self.state().rooms.dom() =~= (s.rooms.dom() - before.rooms.dom()).insert(room));
                            vstd::set_lib::lemma_set_subset_finite(s.rooms.dom(), s.rooms.dom() - before.rooms.dom());
                        }
                        removed = removed + 1;
                    }
                },
                None => {},
            }
            i = i + 1;
            proof {
                assert forall|r: u32| #[trigger] s.rooms.contains_key(r) implies (self.state().rooms.contains_key(r) <==> (
                    !s.rooms[r].is_empty() || !(exists|j: int| 0 <= j < i && #[trigger] keys@[j] == r))) by {
                    if r == room {
                        assert(keys@[i - 1] == r);
                    } else {
                        if exists|j: int| 0 <= j < i && #[trigger] keys@[j] == r {
                            let j = choose|j: int| 0 <= j < i && #[trigger] keys@[j] == r;
                            assert(j < i - 1);
                        }
                    }
                }
            }
        }
        proof {
            assert forall|r: u32| #[trigger] s.rooms.contains_key(r) implies (exists|j: int| 0 <= j < i && #[trigger] keys@[j] == r) by {
                assert(keys@.to_set().contains(r));
                let j = choose|j: int| 0 <= j < keys@.len() && keys@[j] == r;
            }
            assert(self.state().rooms =~= s.rooms.restrict(occupied(s)));
            reveal(state_wf);
            assert(self.state().infos =~= s.infos.restrict(occupied(s)));
        }
        removed
    }
}

/// Dropping an empty room keeps the state well formed.
proof fn lemma_drop_empty_wf(s: RoomState, r: u32)
    requires
        state_wf(s),
        s.rooms.contains_key(r),
        s.rooms[r].is_empty(),
    ensures
        state_wf(drop_if_empty(s, r)),
{
    reveal(state_wf);
    let t = drop_if_empty(s, r);
    assert forall|u: u32| #[trigger] t.users.contains_key(u) implies t.rooms.contains_key(t.users[u])
        && t.rooms[t.users[u]].contains_key(u) by {
        assert(s.rooms[s.users[u]].contains_key(u));
    }
    assert(t.infos.dom() =~= t.rooms.dom());
}

/// The members of a room whose heartbeat timed out at `now`, in the
/// table's iteration order.
fn stale_members(r: u32, m: &HashMap<u32, RoomUserConnection>, now: i64) -> (v: Vec<(u32, u32)>)
    ensures
        forall|j: int|
            0 <= j < v@.len() ==> (#[trigger] v@[j]).0 == r && m@.contains_key(v@[j].1) && member_timed_out(
                m@[v@[j].1].last_heartbeat,
                now,
            ),
        forall|k: u32|
            m@.contains_key(k) && member_timed_out(m@[k].last_heartbeat, now) ==> #[trigger] v@.contains((r, k)),
        forall|a: int, b: int| 0 <= a < b < v@.len() ==> v@[a].1 != v@[b].1,
{
    let mut v: Vec<(u32, u32)> = Vec::new();
    let ghost s = spec_hash_map_iter(m).remaining();
    for (k, c) in it: m.iter()
        invariant
            it.seq() == s,
            s.no_duplicates(),
            s.len() == m@.len(),
            forall|i: int| 0 <= i < s.len() ==> m@.contains_key(*s[i].0) && m@[*s[i].0] == *s[i].1,
            forall|j: int|
                0 <= j < v@.len() ==> (#[trigger] v@[j]).0 == r && exists|i: int|
                    0 <= i < it.index() && *s[i].0 == v@[j].1 && member_timed_out(m@[v@[j].1].last_heartbeat, now),
            forall|i: int|
                0 <= i < it.index() && member_timed_out((*s[i].1).last_heartbeat, now) ==> #[trigger] v@.contains(
                    (r, *s[i].0),
                ),
            forall|a: int, b: int| 0 <= a < b < v@.len() ==> v@[a].1 != v@[b].1,
    {
        let ghost idx = it.index();
        let ghost before = v@;
        let late: bool = (now as i128) - (c.last_heartbeat as i128) > 1800;
        if late {
            proof {
                assert forall|j: int| 0 <= j < before.len() implies before[j].1 != *k by {
                    let i = choose|i: int| 0 <= i < idx && *s[i].0 == before[j].1 && member_timed_out(m@[before[j].1].last_heartbeat, now);
                    if *s[i].0 == *k {
                        assert(s[i] == s[idx]);
                    }
                }
            }
            v.push((r, *k));
            proof {
                assert forall|a: int, b: int| 0 <= a < b < v@.len() implies v@[a].1 != v@[b].1 by {
                    if b < before.len() {
                        assert(v@[a] == before[a] && v@[b] == before[b]);
                    } else {
                        assert(v@[a] == before[a]);
                    }
                }
                assert forall|j: int| 0 <= j < v@.len() implies (#[trigger] v@[j]).0 == r && exists|i: int|
                    0 <= i < idx + 1 && *s[i].0 == v@[j].1 && member_timed_out(m@[v@[j].1].last_heartbeat, now) by {
                    if j < before.len() {
                        assert(v@[j] == before[j]);
                    } else {
                        assert(*s[idx].0 == v@[j].1);
                    }
                }
                assert forall|i: int|
                    0 <= i < idx + 1 && member_timed_out((*s[i].1).last_heartbeat, now) implies #[trigger] v@.contains(
                        (r, *s[i].0),
                    ) by {
                    if i < idx {
                        assert(before.contains((r, *s[i].0)));
                        let j = choose|j: int| 0 <= j < before.len() && before[j] == (r, *s[i].0);
                        assert(v@[j] == before[j]);
                    } else {
                        assert(v@[before.len() as int] == (r, *s[i].0));
                    }
                }
            }
        }
    }
    proof {
        assert forall|k: u32| m@.contains_key(k) && member_timed_out(m@[k].last_heartbeat, now) implies #[trigger] v@.contains((r, k)) by {
            assert(s.contains((&k, &m@[k])));
            let i = choose|i: int| 0 <= i < s.len() && s[i] == (&k, &m@[k]);
        }
    }
    v
}

impl RoomConnectionService {
    /// Every (room, user) membership that has timed out at `now`, each user once.
    fn collect_stale(&self, now: i64) -> (v: Vec<(u32, u32)>)
        requires
            self.wf(),
        ensures
            forall|j: int|
                0 <= j < v@.len() ==> self.state().rooms.contains_key((#[trigger] v@[j]).0)
                    && self.state().rooms[v@[j].0].contains_key(v@[j].1) && member_timed_out(
                    self.state().rooms[v@[j].0][v@[j].1].last_heartbeat,
                    now,
                ),
            forall|r: u32, u: u32|
                self.state().rooms.contains_key(r) && self.state().rooms[r].contains_key(u)
                    && member_timed_out(self.state().rooms[r][u].last_heartbeat, now)
                    ==> #[trigger] v@.contains((r, u)),
            forall|a: int, b: int| 0 <= a < b < v@.len() ==> v@[a].1 != v@[b].1,
    {
        let ghost st = self.state();
        let keys = room_table_keys(&self.room_connections);
        let mut v: Vec<(u32, u32)> = Vec::new();
        let mut i: usize = 0;
        while i < keys.len()
            invariant
                st == self.state(),
                state_wf(st),
                i <= keys@.len(),
                keys@.no_duplicates(),
                keys@.to_set() == st.rooms.dom(),
                forall|j: int|
                    0 <= j < v@.len() ==> st.rooms.contains_key((#[trigger] v@[j]).0)
                        && st.rooms[v@[j].0].contains_key(v@[j].1) && member_timed_out(
                        st.rooms[v@[j].0][v@[j].1].last_heartbeat,
                        now,
                    ) && exists|k: int| 0 <= k < i && keys@[k] == v@[j].0,
                forall|k: int, u: u32|
                    0 <= k < i && st.rooms[keys@[k]].contains_key(u) && member_timed_out(
                        st.rooms[keys@[k]][u].last_heartbeat,
                        now,
                    ) ==> #[trigger] v@.contains((keys@[k], u)),
                forall|a: int, b: int| 0 <= a < b < v@.len() ==> v@[a].1 != v@[b].1,
            decreases keys@.len() - i,
        {
            let room = keys[i];
            proof {
                assert(keys@.to_set().contains(room));
            }
            match room_table_get(&self.room_connections, room) {
                Some(m) => {
                    let part = stale_members(room, &m, now);
                    let ghost before = v@;
                    let mut j: usize = 0;
                    while j < part.len()
                        invariant
                            j <= part@.len(),
                            v@.len() == before.len() + j,
                            forall|a: int| 0 <= a < before.len() ==> #[trigger] v@[a] == before[a],
                            forall|a: int| 0 <= a < j ==> v@[before.len() + a] == #[trigger] part@[a],
                        decreases part@.len() - j,
                    {
                        v.push(part[j]);
                        j = j + 1;
                    }
                    proof {
                        reveal(state_wf);
                        assert forall|a: int, b: int| 0 <= a < b < v@.len() implies v@[a].1 != v@[b].1 by {
                            if b < before.len() {
                                assert(v@[a] == before[a] && v@[b] == before[b]);
                            } else if a < before.len() {
                                let pb = part@[b - before.len()];
                                assert(v@[b] == pb);
                                assert(v@[a] == before[a]);
                                let k = choose|k: int| 0 <= k < i && keys@[k] == before[a].0;
                                assert(keys@[k] != room);
                                assert(st.users[before[a].1] == before[a].0);
                                assert(st.users[pb.1] == room);
                            } else {
                                assert(v@[a] == part@[a - before.len()]);
                                assert(v@[b] == part@[b - before.len()]);
                            }
                        }
                        assert forall|jj: int|
                            0 <= jj < v@.len() implies st.rooms.contains_key((#[trigger] v@[jj]).0)
                                && st.rooms[v@[jj].0].contains_key(v@[jj].1) && member_timed_out(
                                st.rooms[v@[jj].0][v@[jj].1].last_heartbeat,
                                now,
                            ) && exists|k: int| 0 <= k < i + 1 && keys@[k] == v@[jj].0 by {
                            if jj < before.len() {
                                assert(v@[jj] == before[jj]);
                            } else {
                                assert(v@[jj] == part@[jj - before.len()]);
                                assert(keys@[i as int] == v@[jj].0);
                            }
                        }
                        assert forall|k: int, u: u32|
                            0 <= k < i + 1 && st.rooms[keys@[k]].contains_key(u) && member_timed_out(
                                st.rooms[keys@[k]][u].last_heartbeat,
                                now,
                            ) implies #[trigger] v@.contains((keys@[k], u)) by {
                            if k < i {
                                assert(before.contains((keys@[k], u)));
                                let a = choose|a: int| 0 <= a < before.len() && before[a] == (keys@[k], u);
                                assert(v@[a] == before[a]);
                            } else {
                                assert(part@.contains((room, u)));
                                let a = choose|a: int| 0 <= a < part@.len() && part@[a] == (room, u);
                                assert(v@[before.len() + a] == part@[a]);
                            }
                        }
                    }
                },
                None => {},
            }
            i = i + 1;
        }
        proof {
            assert forall|r: u32, u: u32|
                st.rooms.contains_key(r) && st.rooms[r].contains_key(u) && member_timed_out(st.rooms[r][u].last_heartbeat, now)
                implies #[trigger] v@.contains((r, u)) by {
                assert(keys@.to_set().contains(r));
                let k = choose|k: int| 0 <= k < keys@.len() && keys@[k] == r;
            }
        }
        v
    }
}

impl RoomConnectionService {
    /// Drops, at `now`, every member whose heartbeat timed out; returns how
    /// many were dropped. Emptied rooms disappear; the other members keep
    /// their records.
    pub fn cleanup_timeout_connections_at(&mut self, now: i64) -> (n: usize)
        requires
            old(self).wf(),
        ensures
            final(self).wf(),
            final(self).server_id_of() == old(self).server_id_of(),
            forall|u: u32|
                #[trigger] final(self).state().users.contains_key(u) <==> old(self).state().users.contains_key(u)
                    && !stale_users(old(self).state(), now).contains(u),
            forall|u: u32|
                #[trigger] final(self).state().users.contains_key(u) ==> final(self).state().users[u] == old(
                    self,
                ).state().users[u] && final(self).state().rooms[final(self).state().users[u]][u] == old(
                    self,
                ).state().rooms[old(self).state().users[u]][u],
            stale_users(old(self).state(), now).finite(),
            n == stale_users(old(self).state(), now).len(),
    {
        let ghost s0 = self.state();
        let stale = self.collect_stale(now);
        let ghost stale_ids = stale@.map_values(|p: (u32, u32)| p.1);
        proof {
            reveal(state_wf);
            assert(stale_ids.no_duplicates()) by {
                assert forall|a: int, b: int| 0 <= a < stale_ids.len() && 0 <= b < stale_ids.len() && a != b implies stale_ids[a] != stale_ids[b] by {
                    if a < b {
                        assert(stale@[a].1 != stale@[b].1);
                    } else {
                        assert(stale@[b].1 != stale@[a].1);
                    }
                }
            }
            assert forall|u: u32| #[trigger] stale_ids.to_set().contains(u) <==> stale_users(s0, now).contains(u) by {
                if stale_ids.to_set().contains(u) {
                    let j = choose|j: int| 0 <= j < stale_ids.len() && stale_ids[j] == u;
                    assert(stale@[j].1 == u);
                }
                if stale_users(s0, now).contains(u) {
                    let r = s0.users[u];
                    assert(stale@.contains((r, u)));
                    let j = choose|j: int| 0 <= j < stale@.len() && stale@[j] == (r, u);
                    assert(stale_ids[j] == u);
                }
            }
            assert(stale_ids.to_set() =~= stale_users(s0, now));
            stale_ids.unique_seq_to_set();
        }
        let mut removed: usize = 0;
        let mut i: usize = 0;
        while i < stale.len()
            invariant
                i <= stale@.len(),
                removed == i,
                state_wf(s0),
                state_wf(self.state()),
                self.server_id_of() == old(self).server_id_of(),
                stale_ids == stale@.map_values(|p: (u32, u32)| p.1),
                forall|j: int|
                    0 <= j < stale@.len() ==> s0.rooms.contains_key((#[trigger] stale@[j]).0)
                        && s0.rooms[stale@[j].0].contains_key(stale@[j].1),
                forall|a: int, b: int| 0 <= a < b < stale@.len() ==> stale@[a].1 != stale@[b].1,
                forall|u: u32|
                    #[trigger] self.state().users.contains_key(u) <==> s0.users.contains_key(u)
                        && !stale_ids.take(i as int).contains(u),
                forall|u: u32|
                    #[trigger] self.state().users.contains_key(u) ==> self.state().users[u] == s0.users[u]
                        && self.state().rooms[self.state().users[u]][u] == s0.rooms[s0.users[u]][u],
            decreases stale@.len() - i,
        {
            let (room, user) = stale[i];
            let ghost cur = self.state();
            proof {
                reveal(state_wf);
                assert(s0.users[user] == room);
                assert(!stale_ids.take(i as int).contains(user)) by {
                    if stale_ids.take(i as int).contains(user) {
                        let j = choose|j: int| 0 <= j < i && stale_ids.take(i as int)[j] == user;
                        assert(stale@[j].1 == stale@[i as int].1);
                    }
                }
                assert(cur.users.contains_key(user));
                assert(cur.rooms.contains_key(room) && cur.rooms[room].contains_key(user));
            }
            let res = self.remove_user_from_room_at(room, user, now);
            proof {
                reveal(state_wf);
                assert(stale_ids.take(i + 1) =~= stale_ids.take(i as int).push(user));
                assert(stale_ids[i as int] == user);
                let nxt = self.state();
                assert(nxt.users == cur.users.remove(user));
                assert forall|u: u32| #[trigger] nxt.users.contains_key(u) <==> s0.users.contains_key(u)
                    && !stale_ids.take(i + 1).contains(u) by {
                    let t0 = stale_ids.take(i as int);
                    let t1 = stale_ids.take(i + 1);
                    if t1.contains(u) && u != user {
                        let j = choose|j: int| 0 <= j < t1.len() && t1[j] == u;
                        assert(j < i);
                        assert(t0[j] == u);
                    }
                    if t0.contains(u) {
                        let j = choose|j: int| 0 <= j < t0.len() && t0[j] == u;
                        assert(t1[j] == u);
                    }
                    if u == user {
                        assert(t1[i as int] == u);
                    }
                }
                assert forall|u: u32| #[trigger] nxt.users.contains_key(u) implies nxt.users[u] == s0.users[u]
                    && nxt.rooms[nxt.users[u]][u] == s0.rooms[s0.users[u]][u] by {
                    assert(cur.users.contains_key(u));
                    assert(u != user);
                    let r2 = cur.users[u];
                    assert(cur.rooms[r2].contains_key(u));
                }
            }
            if res.is_ok() {
                removed = removed + 1;
            }
            i = i + 1;
        }
        proof {
            assert(stale_ids.take(i as int) =~= stale_ids);
        }
        removed
    }

    /// Drops the timed-out members now, as the clock reads it; returns how many.
    pub fn cleanup_timeout_connections(&mut self) -> (n: usize)
        requires
            old(self).wf(),
        ensures
            final(self).wf(),
            exists|now: i64| n == #[trigger] stale_users(old(self).state(), now).len(),
    {
        let now = utc_now_timestamp();
        self.cleanup_timeout_connections_at(now)
    }
}

/// Adding a user to a room keeps the bookkeeping consistent (each member
/// recorded in exactly one room, and the user-to-room index agreeing with
/// the rooms); afterwards the user is in that room, with the new record, and
/// in no other, and every other user keeps their room and their record.
pub proof fn lemma_added_user_is_in_room(s: RoomState, r: u32, u: u32, c: RoomUserConnection, now: i64)
    requires
        state_wf(s),
        c.user_id == u,
        c.room_id == r,
    ensures
        state_wf(add_effect(s, r, u, c, now)),
        add_effect(s, r, u, c, now).users.contains_key(u),
        add_effect(s, r, u, c, now).users[u] == r,
        add_effect(s, r, u, c, now).rooms[r].contains_key(u),
        add_effect(s, r, u, c, now).rooms[r][u] == c,
        forall|r2: u32|
            r2 != r && #[trigger] add_effect(s, r, u, c, now).rooms.contains_key(r2) ==> !add_effect(
                s,
                r,
                u,
                c,
                now,
            ).rooms[r2].contains_key(u),
        forall|u2: u32|
            u2 != u ==> (#[trigger] add_effect(s, r, u, c, now).users.contains_key(u2) <==> s.users.contains_key(u2)),
        forall|u2: u32|
            u2 != u && #[trigger] s.users.contains_key(u2) ==> {
                &&& add_effect(s, r, u, c, now).users[u2] == s.users[u2]
                &&& add_effect(s, r, u, c, now).rooms[s.users[u2]][u2] == s.rooms[s.users[u2]][u2]
            },
{
    reveal(state_wf);
    let t = add_effect(s, r, u, c, now);
    if s.users.contains_key(u) && s.users[u] != r {
        let from = s.users[u];
        lemma_leave_wf(s, from, u, now);
        lemma_join_wf(leave(s, from, u, now), r, u, c, now);
    } else {
        lemma_join_wf(s, r, u, c, now);
    }
    reveal(state_wf);
    assert forall|r2: u32| r2 != r && #[trigger] t.rooms.contains_key(r2) implies !t.rooms[r2].contains_key(u) by {
        if s.users.contains_key(u) && s.users[u] != r {
            let from = s.users[u];
            let mid = leave(s, from, u, now);
            if r2 == from {
                assert(!s.rooms[from].remove(u).contains_key(u));
            } else if s.rooms.contains_key(r2) && s.rooms[r2].contains_key(u) {
                assert(s.users[u] == r2);
            }
        } else if s.rooms.contains_key(r2) && s.rooms[r2].contains_key(u) {
            assert(s.users[u] == r2);
        }
    }
    assert forall|u2: u32| u2 != u && #[trigger] s.users.contains_key(u2) implies {
        &&& t.users[u2] == s.users[u2]
        &&& t.rooms[s.users[u2]][u2] == s.rooms[s.users[u2]][u2]
    } by {
        let r2 = s.users[u2];
        assert(s.rooms.contains_key(r2) && s.rooms[r2].contains_key(u2));
    }
}

/// Leaving a room takes the user out of every room.
pub proof fn lemma_left_user_is_gone(s: RoomState, r: u32, u: u32, now: i64)
    requires
        state_wf(s),
        s.rooms.contains_key(r),
        s.rooms[r].contains_key(u),
    ensures
        !leave(s, r, u, now).users.contains_key(u),
        forall|r2: u32|
            #[trigger] leave(s, r, u, now).rooms.contains_key(r2) ==> !leave(s, r, u, now).rooms[r2].contains_key(u),
{
    reveal(state_wf);
    let t = leave(s, r, u, now);
    assert forall|r2: u32| #[trigger] t.rooms.contains_key(r2) implies !t.rooms[r2].contains_key(u) by {
        if r2 != r && s.rooms[r2].contains_key(u) {
            assert(s.users[u] == r2);
        }
    }
}

proof fn lemma_leave_wf(s: RoomState, r: u32, u: u32, now: i64)
    requires
        state_wf(s),
        s.rooms.contains_key(r),
        s.rooms[r].contains_key(u),
    ensures
        state_wf(leave(s, r, u, now)),
{
    reveal(state_wf);
    let t = leave(s, r, u, now);
    let rest = s.rooms[r].remove(u);
    assert forall|r2: u32, u2: u32| t.rooms.contains_key(r2) && #[trigger] t.rooms[r2].contains_key(u2) implies {
        &&& t.users.contains_key(u2)
        &&& t.users[u2] == r2
        &&& t.rooms[r2][u2].user_id == u2
        &&& t.rooms[r2][u2].room_id == r2
    } by {
        assert(s.rooms[r2].contains_key(u2));
        if r2 == r {
            assert(u2 != u);
        } else {
            assert(s.users[u2] == r2);
            assert(u2 != u);
        }
    }
    assert forall|u2: u32| #[trigger] t.users.contains_key(u2) implies t.rooms.contains_key(t.users[u2])
        && t.rooms[t.users[u2]].contains_key(u2) by {
        assert(s.users.contains_key(u2));
        let r2 = s.users[u2];
        if r2 == r {
            assert(rest.contains_key(u2));
        }
    }
    assert(t.infos.dom() =~= t.rooms.dom());
}

} // verus!
