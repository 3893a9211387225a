//! The game server's service object: its settings, the registries it owns
//! and its running state. Listening and the per-client tasks belong to the
//! caller, who reports here when the listener is up.

use vstd::prelude::*;
use vstd::string::*;
use crate::connection_service::{ConnectionService, ConnView, seconds_between};
use crate::heartbeat_service::HeartbeatService;
use crate::room_connection_service::{RoomConnectionService, without_empty_rooms};
use crate::chat_room::{ChatRoomHandler, room_count};

verus! {

/// Server settings.
#[derive(Debug, Clone)]
pub struct TcpServerConfig {
    pub bind_address: String,
    pub max_connections: u32,
    pub heartbeat_interval_secs: u64,
    pub connection_timeout_secs: u64,
    pub enable_compression: bool,
    pub enable_logging: bool,
    pub enable_enhanced_memory_pool: bool,
    pub enable_async_scheduler: bool,
}

impl TcpServerConfig {
    /// 127.0.0.1:4000, 1000 connections, a heartbeat every 10 s with a 30 s
    /// timeout, no compression, logging, memory pool and scheduler on.
    pub fn default() -> (c: Self)
        ensures
            c.bind_address@ == "127.0.0.1:4000"@,
            c.max_connections == 1000,
            c.heartbeat_interval_secs == 10,
            c.connection_timeout_secs == 30,
            !c.enable_compression,
            c.enable_logging,
            c.enable_enhanced_memory_pool,
            c.enable_async_scheduler,
    {
        TcpServerConfig {
            bind_address: <String as StringExecFns>::from_str("127.0.0.1:4000"),
            max_connections: 1000,
            heartbeat_interval_secs: 10,
            connection_timeout_secs: 30,
            enable_compression: false,
            enable_logging: true,
            enable_enhanced_memory_pool: true,
            enable_async_scheduler: true,
        }
    }
}

/// What the server reports of itself.
#[derive(Debug, Clone)]
pub struct ServerStats {
    pub is_running: bool,
    pub connection_count: usize,
    pub heartbeat_running: bool,
    pub uptime_seconds: u64,
    pub max_connections: u32,
    pub bind_address: String,
    pub enhanced_memory_pool_enabled: bool,
    pub async_scheduler_enabled: bool,
}

/// The game server.
pub struct TcpGameService {
    config: TcpServerConfig,
    connection_service: ConnectionService,
    heartbeat_service: HeartbeatService,
    chat_room_handler: ChatRoomHandler,
    running: bool,
}

impl TcpGameService {
    pub closed spec fn config_of(&self) -> TcpServerConfig {
        self.config
    }

    pub closed spec fn connections(&self) -> ConnectionService {
        self.connection_service
    }

    pub closed spec fn heartbeat(&self) -> HeartbeatService {
        self.heartbeat_service
    }

    pub closed spec fn chat(&self) -> ChatRoomHandler {
        self.chat_room_handler
    }

    pub open spec fn rooms(&self) -> RoomConnectionService {
        self.chat().rooms()
    }

    pub closed spec fn running_spec(&self) -> bool {
        self.running
    }

    pub closed spec fn wf(&self) -> bool {
        &&& self.connection_service.wf()
        &&& self.chat_room_handler.wf()
    }

    /// A stopped server with `config`, created at `now_ms`: a registry for
    /// the configured number of connections, the configured heartbeat and
    /// a room handler over an empty room registry.
    pub fn new(config: TcpServerConfig, now_ms: u64) -> (s: Self)
        ensures
            s.wf(),
            !s.running_spec(),
            s.config_of() == config,
            s.connections().connections() == Map::<u32, ConnView>::empty(),
            s.connections().max() == config.max_connections,
            s.connections().started_at() == now_ms,
            !s.heartbeat().running_spec(),
            s.heartbeat().interval_spec() == config.heartbeat_interval_secs,
            s.heartbeat().timeout_spec() == config.connection_timeout_secs,
            s.rooms().state().rooms.is_empty(),
    {
        let connection_service = ConnectionService::new(config.max_connections, now_ms);
        let heartbeat_service = HeartbeatService::new(config.heartbeat_interval_secs, config.connection_timeout_secs);
        let room_connection_service = RoomConnectionService::new(<String as StringExecFns>::from_str("tcp_server"));
        let chat_room_handler = ChatRoomHandler::new(room_connection_service);
        TcpGameService { config, connection_service, heartbeat_service, chat_room_handler, running: false }
    }

    /// A stopped server with the default settings.
    pub fn with_default_config(now_ms: u64) -> (s: Self)
        ensures
            s.wf(),
            !s.running_spec(),
            s.config_of().bind_address@ == "127.0.0.1:4000"@,
            s.config_of().max_connections == 1000,
            s.connections().connections() == Map::<u32, ConnView>::empty(),
    {
        Self::new(TcpServerConfig::default(), now_ms)
    }

    /// A stopped server with `config`.
    pub fn with_config(config: TcpServerConfig, now_ms: u64) -> (s: Self)
        ensures
            s.wf(),
            !s.running_spec(),
            s.config_of() == config,
            s.connections().connections() == Map::<u32, ConnView>::empty(),
    {
        Self::new(config, now_ms)
    }

    /// The listener is bound: the server runs and its heartbeat starts.
    /// Says whether it was stopped (a running server changes nothing).
    pub fn mark_started(&mut self) -> (started: bool)
        requires
            old(self).wf(),
        ensures
            final(self).wf(),
            started == !old(self).running_spec(),
            final(self).running_spec(),
            started ==> final(self).heartbeat().running_spec(),
            !started ==> final(self).heartbeat() == old(self).heartbeat(),
            final(self).connections() == old(self).connections(),
            final(self).config_of() == old(self).config_of(),
    {
        if self.running {
            return false;
        }
        self.running = true;
        self.heartbeat_service.start();
        true
    }

    /// Stops the server and its heartbeat and drops every connection; says
    /// whether it was running (a stopped server changes nothing).
    pub fn stop(&mut self) -> (stopped: bool)
        requires
            old(self).wf(),
        ensures
            final(self).wf(),
            stopped == old(self).running_spec(),
            !final(self).running_spec(),
            stopped ==> !final(self).heartbeat().running_spec() && final(self).connections().connections()
                == Map::<u32, ConnView>::empty(),
            !stopped ==> final(self).heartbeat() == old(self).heartbeat() && final(self).connections()
                == old(self).connections(),
            final(self).config_of() == old(self).config_of(),
    {
        if !self.running {
            return false;
        }
        self.running = false;
        self.heartbeat_service.stop();
        self.connection_service.close_all_connections();
        true
    }

    /// Whether the server runs.
    pub fn is_running(&self) -> (r: bool)
        ensures
            r == self.running_spec(),
    {
        self.running
    }

    /// The number of open connections.
    pub fn get_connection_count(&self) -> (n: usize)
        requires
            self.wf(),
        ensures
            n == self.connections().connections().dom().len(),
    {
        self.connection_service.get_connection_count()
    }

    /// The state of the server at `now_ms`.
    pub fn get_server_stats(&self, now_ms: u64) -> (s: ServerStats)
        requires
            self.wf(),
        ensures
            s.is_running == self.running_spec(),
            s.connection_count == self.connections().connections().dom().len(),
            s.heartbeat_running == self.heartbeat().running_spec(),
            s.uptime_seconds == seconds_between(self.connections().started_at(), now_ms),
            s.max_connections == self.config_of().max_connections,
            s.bind_address@ == self.config_of().bind_address@,
            s.enhanced_memory_pool_enabled == self.config_of().enable_enhanced_memory_pool,
            s.async_scheduler_enabled == self.config_of().enable_async_scheduler,
    {
        ServerStats {
            is_running: self.running,
            connection_count: self.connection_service.get_connection_count(),
            heartbeat_running: self.heartbeat_service.is_running(),
            uptime_seconds: self.connection_service.get_uptime_seconds(now_ms),
            max_connections: self.config.max_connections,
            bind_address: self.config.bind_address.clone(),
            enhanced_memory_pool_enabled: self.config.enable_enhanced_memory_pool,
            async_scheduler_enabled: self.config.enable_async_scheduler,
        }
    }

    /// The settings.
    pub fn get_config(&self) -> (c: &TcpServerConfig)
        ensures
            *c == self.config_of(),
    {
        &self.config
    }

    /// The connection registry.
    pub fn connection_service(&self) -> (c: &ConnectionService)
        ensures
            *c == self.connections(),
    {
        &self.connection_service
    }

    /// The room registry.
    pub fn room_connection_service(&self) -> (r: &RoomConnectionService)
        ensures
            *r == self.rooms(),
    {
        self.chat_room_handler.room_service()
    }

    /// The room request handler, for handling a client's requests.
    pub fn chat_room_handler_mut(&mut self) -> (h: &mut ChatRoomHandler)
        ensures
            *h == old(self).chat(),
            final(self).chat() == *final(h),
            final(self).config_of() == old(self).config_of(),
            final(self).connections() == old(self).connections(),
            final(self).heartbeat() == old(self).heartbeat(),
            final(self).running_spec() == old(self).running_spec(),
    {
        &mut self.chat_room_handler
    }

    /// The member count of `room_id` and each member's id and nickname.
    pub fn get_room_status(&self, room_id: u32) -> (r: (u32, Vec<(u32, String)>))
        requires
            self.wf(),
        ensures
            r.0 == room_count(self.rooms().state(), room_id),
            !self.rooms().state().rooms.contains_key(room_id) ==> r.1@.len() == 0,
            self.rooms().state().rooms.contains_key(room_id) ==> ({
                let m = self.rooms().state().rooms[room_id];
                &&& r.1@.len() == m.len()
                &&& forall|i: int| 0 <= i < r.1@.len() ==> m.contains_key(#[trigger] r.1@[i].0) && r.1@[i].1
                    == m[r.1@[i].0].nickname
                &&& forall|k: u32| #[trigger] m.contains_key(k) ==> exists|i: int| 0 <= i < r.1@.len() && r.1@[i].0 == k
            }),
    {
        self.chat_room_handler.get_room_status(room_id)
    }

    /// Every room with its member count.
    pub fn get_all_rooms_status(&self) -> (v: Vec<(u32, u32)>)
        requires
            self.wf(),
        ensures
            v@.len() == self.rooms().state().infos.len(),
            forall|i: int| 0 <= i < v@.len() ==> self.rooms().state().infos.contains_key(#[trigger] v@[i].0)
                && v@[i].1 == self.rooms().state().infos[v@[i].0].user_count,
            forall|i: int, j: int| 0 <= i < j < v@.len() ==> v@[i].0 != v@[j].0,
    {
        self.chat_room_handler.get_all_rooms_status()
    }

    /// Drops rooms left without members; returns how many.
    pub fn cleanup_empty_rooms(&mut self) -> (n: usize)
        requires
            old(self).wf(),
        ensures
            final(self).wf(),
            final(self).rooms().state() == without_empty_rooms(old(self).rooms().state()),
            old(self).rooms().state().rooms.dom().finite(),
            n == (old(self).rooms().state().rooms.dom() - final(self).rooms().state().rooms.dom()).len(),
            final(self).rooms().stats_of() == old(self).rooms().stats_of(),
            final(self).rooms().server_id_of() == old(self).rooms().server_id_of(),
            final(self).connections() == old(self).connections(),
            final(self).heartbeat() == old(self).heartbeat(),
            final(self).config_of() == old(self).config_of(),
            final(self).running_spec() == old(self).running_spec(),
    {
        self.chat_room_handler.cleanup_empty_rooms()
    }
}

} // verus!
