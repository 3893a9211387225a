//! Per-player requests as the server answers them today: each is accepted
//! and nothing changes (the requests are only reported by the caller).

use vstd::prelude::*;
use crate::protocol::GameMessage;

verus! {

/// Answers per-player requests; it keeps no state.
pub struct ServerMessageHandler;

impl ServerMessageHandler {
    /// The handler.
    pub fn new() -> (h: Self)
        ensures
            h == ServerMessageHandler,
    {
        ServerMessageHandler
    }

    /// Accepts any message.
    pub fn handle_message(&self, player_id: i64, message: GameMessage) -> (r: Result<(), anyhow::Error>)
        ensures
            r is Ok,
    {
        Ok(())
    }

    /// There is nothing to register.
    pub fn register_all_handlers(&self) -> (r: Result<(), anyhow::Error>)
        ensures
            r is Ok,
    {
        Ok(())
    }

    /// Accepts a heartbeat.
    pub fn handle_heartbeat(&self, player_id: i64) -> (r: Result<(), anyhow::Error>)
        ensures
            r is Ok,
    {
        Ok(())
    }

    /// Accepts an echo request.
    pub fn handle_echo(&self, player_id: i64, data: String) -> (r: Result<(), anyhow::Error>)
        ensures
            r is Ok,
    {
        Ok(())
    }

    /// Accepts a room message.
    pub fn handle_room_message(&self, player_id: i64, room_id: i64, message: String) -> (r: Result<(), anyhow::Error>)
        ensures
            r is Ok,
    {
        Ok(())
    }

    /// Accepts a game action.
    pub fn handle_game_action(&self, player_id: i64, action: String) -> (r: Result<(), anyhow::Error>)
        ensures
            r is Ok,
    {
        Ok(())
    }

    /// Accepts a broadcast request.
    pub fn broadcast_message(&self, room_id: i64, message: String) -> (r: Result<(), anyhow::Error>)
        ensures
            r is Ok,
    {
        Ok(())
    }

    /// Accepts a direct message request.
    pub fn send_to_player(&self, player_id: i64, message: String) -> (r: Result<(), anyhow::Error>)
        ensures
            r is Ok,
    {
        Ok(())
    }
}

} // verus!
