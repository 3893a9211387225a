//! The concurrent tables of the room service (`dashmap::DashMap`): the
//! members of each room, the room of each user, and each room's details.
//! Each table is modelled by the map it holds.

use vstd::prelude::*;
use std::collections::HashMap;
use dashmap::DashMap;

verus! {

broadcast use vstd::std_specs::hash::group_hash_axioms;

/// The concurrent hash map of the `dashmap` crate.
#[verifier::external_type_specification]
#[verifier::external_body]
#[verifier::reject_recursive_types(K)]
#[verifier::reject_recursive_types(V)]
#[verifier::reject_recursive_types(S)]
pub struct ExDashMap<K, V, S>(DashMap<K, V, S>);

/// A user's connection to a room.
#[derive(Debug, Clone)]
pub struct RoomUserConnection {
    pub user_id: u32,
    pub room_id: u32,
    pub addr: String,
    pub nickname: String,
    /// Unix time of the connection, in seconds.
    pub connected_at: i64,
    /// Unix time of the last heartbeat, in seconds.
    pub last_heartbeat: i64,
}

/// A room's details.
#[derive(Debug, Clone, Copy, PartialEq, Eq)]
pub struct RoomInfo {
    pub room_id: u32,
    pub user_count: u32,
    pub created_at: i64,
    pub last_activity: i64,
}

/// The members of each room, by room id then user id.
pub type RoomTable = DashMap<u32, HashMap<u32, RoomUserConnection>>;

/// The room of each user.
pub type UserRoomTable = DashMap<u32, u32>;

/// The details of each room.
pub type RoomInfoTable = DashMap<u32, RoomInfo>;

/// The members a room table holds.
pub uninterp spec fn room_table_view(t: RoomTable) -> Map<u32, Map<u32, RoomUserConnection>>;

/// The rooms a user table holds.
pub uninterp spec fn user_table_view(t: UserRoomTable) -> Map<u32, u32>;

/// The details a room-info table holds.
pub uninterp spec fn info_table_view(t: RoomInfoTable) -> Map<u32, RoomInfo>;

/// `DashMap::new`: an empty table.
#[verifier::external_body]
pub(crate) fn room_table_new() -> (table: RoomTable)
    ensures
        room_table_view(table).dom().is_empty(),
{
    DashMap::new()
}

/// `DashMap::get`, with the members cloned out.
#[verifier::external_body]
pub(crate) fn room_table_get(t: &RoomTable, room: u32) -> (r: Option<HashMap<u32, RoomUserConnection>>)
    ensures
        r is Some <==> room_table_view(*t).contains_key(room),
        r matches Some(m) ==> m@ == room_table_view(*t)[room],
{
    match t.get(&room) {
        Some(entry) => Some(entry.value().clone()),
        None => None,
    }
}

/// `DashMap::insert`: stores the members of `room`.
#[verifier::external_body]
pub(crate) fn room_table_insert(t: &mut RoomTable, room: u32, members: HashMap<u32, RoomUserConnection>)
    ensures
        room_table_view(*final(t)) == room_table_view(*old(t)).insert(room, members@),
{
    t.insert(room, members);
}

/// `DashMap::remove`: drops `room`.
#[verifier::external_body]
pub(crate) fn room_table_remove(t: &mut RoomTable, room: u32)
    ensures
        room_table_view(*final(t)) == room_table_view(*old(t)).remove(room),
{
    t.remove(&room);
}

/// `DashMap::len`: the number of rooms.
#[verifier::external_body]
pub(crate) fn room_table_len(t: &RoomTable) -> (n: usize)
    ensures
        n == room_table_view(*t).dom().len(),
{
    t.len()
}

/// The room ids, each once, in the table's iteration order (which the
/// table's hasher decides, so it is not stated).
#[verifier::external_body]
pub(crate) fn room_table_keys(t: &RoomTable) -> (ids: Vec<u32>)
    ensures
        ids@.no_duplicates(),
        ids@.to_set() == room_table_view(*t).dom(),
{
    t.iter().map(|entry| *entry.key()).collect()
}

/// `DashMap::new` for the user table: no user has a room.
#[verifier::external_body]
pub(crate) fn user_table_new() -> (table: UserRoomTable)
    ensures
        user_table_view(table).dom().is_empty(),
{
    DashMap::new()
}

/// `DashMap::get`: the room of `user`.
#[verifier::external_body]
pub(crate) fn user_table_get(t: &UserRoomTable, user: u32) -> (r: Option<u32>)
    ensures
        r is Some <==> user_table_view(*t).contains_key(user),
        r matches Some(room) ==> room == user_table_view(*t)[user],
{
    match t.get(&user) {
        Some(entry) => Some(*entry.value()),
        None => None,
    }
}

/// `DashMap::insert`: records the room of `user`.
#[verifier::external_body]
pub(crate) fn user_table_insert(t: &mut UserRoomTable, user: u32, room: u32)
    ensures
        user_table_view(*final(t)) == user_table_view(*old(t)).insert(user, room),
{
    t.insert(user, room);
}

/// `DashMap::remove`: forgets the room of `user`.
#[verifier::external_body]
pub(crate) fn user_table_remove(t: &mut UserRoomTable, user: u32)
    ensures
        user_table_view(*final(t)) == user_table_view(*old(t)).remove(user),
{
    t.remove(&user);
}

/// `DashMap::len` of the user table: how many users have a room.
#[verifier::external_body]
pub(crate) fn user_table_len(t: &UserRoomTable) -> (n: usize)
    ensures
        n == user_table_view(*t).dom().len(),
{
    t.len()
}

/// `DashMap::new` for the details table: no room has details.
#[verifier::external_body]
pub(crate) fn info_table_new() -> (table: RoomInfoTable)
    ensures
        info_table_view(table).dom().is_empty(),
{
    DashMap::new()
}

/// `DashMap::get`: the details of `room`.
#[verifier::external_body]
pub(crate) fn info_table_get(t: &RoomInfoTable, room: u32) -> (r: Option<RoomInfo>)
    ensures
        r is Some <==> info_table_view(*t).contains_key(room),
        r matches Some(info) ==> info == info_table_view(*t)[room],
{
    match t.get(&room) {
        Some(entry) => Some(*entry.value()),
        None => None,
    }
}

/// `DashMap::insert`: stores the details of `room`.
#[verifier::external_body]
pub(crate) fn info_table_insert(t: &mut RoomInfoTable, room: u32, info: RoomInfo)
    ensures
        info_table_view(*final(t)) == info_table_view(*old(t)).insert(room, info),
{
    t.insert(room, info);
}

/// `DashMap::remove`: drops the details of `room`.
#[verifier::external_body]
pub(crate) fn info_table_remove(t: &mut RoomInfoTable, room: u32)
    ensures
        info_table_view(*final(t)) == info_table_view(*old(t)).remove(room),
{
    t.remove(&room);
}

/// Every (room id, details) entry, each once, in the table's iteration
/// order (which the table's hasher decides, so it is not stated).
#[verifier::external_body]
pub(crate) fn info_table_entries(t: &RoomInfoTable) -> (v: Vec<(u32, RoomInfo)>)
    ensures
        v@.len() == info_table_view(*t).dom().len(),
        forall|i: int|
            0 <= i < v@.len() ==> info_table_view(*t).contains_key(#[trigger] v@[i].0)
                && info_table_view(*t)[v@[i].0] == v@[i].1,
        forall|i: int, j: int| 0 <= i < j < v@.len() ==> v@[i].0 != v@[j].0,
{
    t.iter().map(|entry| (*entry.key(), *entry.value())).collect()
}

} // verus!
