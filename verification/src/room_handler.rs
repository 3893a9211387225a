//! Room management requests as the server answers them today: every
//! request is accepted and nothing is stored (the requests are only
//! reported by the caller). The game rooms themselves are kept by
//! `crate::game`.

use vstd::prelude::*;

verus! {

/// A room as the room requests name it.
#[derive(Debug, Clone)]
pub struct Room {
    pub room_id: u32,
    pub name: String,
}

/// Answers room requests; it keeps no state.
pub struct RoomHandler;

impl RoomHandler {
    /// The handler.
    pub fn new() -> (h: Self)
        ensures
            h == RoomHandler,
    {
        RoomHandler
    }

    /// Accepts a join.
    pub fn handle_join_room(&self, user_id: u32, room_id: u32) -> (r: Result<(), anyhow::Error>)
        ensures
            r is Ok,
    {
        Ok(())
    }

    /// Accepts a leave.
    pub fn handle_leave_room(&self, user_id: u32, room_id: u32) -> (r: Result<(), anyhow::Error>)
        ensures
            r is Ok,
    {
        Ok(())
    }

    /// Accepts a creation; every room made this way is room 1.
    pub fn handle_create_room(&self, user_id: u32, room_name: String) -> (r: Result<u32, anyhow::Error>)
        ensures
            r matches Ok(id) && id == 1,
    {
        Ok(1)
    }

    /// Accepts a deletion.
    pub fn handle_delete_room(&self, room_id: u32) -> (r: Result<(), anyhow::Error>)
        ensures
            r is Ok,
    {
        Ok(())
    }

    /// No rooms are kept, so the list is empty.
    pub fn get_room_list(&self) -> (r: Result<Vec<Room>, anyhow::Error>)
        ensures
            r matches Ok(v) && v@.len() == 0,
    {
        Ok(Vec::new())
    }

    /// No rooms are kept, so there is none to show.
    pub fn get_room_info(&self, room_id: u32) -> (r: Result<Option<Room>, anyhow::Error>)
        ensures
            r matches Ok(v) && v is None,
    {
        Ok(None)
    }

    /// Accepts a rename.
    pub fn update_room(&self, room_id: u32, room_name: String) -> (r: Result<(), anyhow::Error>)
        ensures
            r is Ok,
    {
        Ok(())
    }

    /// Accepts a game start.
    pub fn start_game(&self, room_id: u32) -> (r: Result<(), anyhow::Error>)
        ensures
            r is Ok,
    {
        Ok(())
    }

    /// Accepts a game end.
    pub fn end_game(&self, room_id: u32) -> (r: Result<(), anyhow::Error>)
        ensures
            r is Ok,
    {
        Ok(())
    }
}

} // verus!
