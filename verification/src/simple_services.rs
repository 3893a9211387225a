//! The minimal TCP service: a running flag over the connection registry and
//! the heartbeat service.

use vstd::prelude::*;
use vstd::string::*;
use crate::connection_service::{ConnectionService, ConnView};
use crate::heartbeat_service::HeartbeatService;

verus! {

/// The minimal TCP service.
pub struct SimpleTcpService {
    connection_service: ConnectionService,
    heartbeat_service: HeartbeatService,
    running: bool,
}

impl SimpleTcpService {
    pub closed spec fn running_spec(&self) -> bool {
        self.running
    }

    pub closed spec fn connections(&self) -> ConnectionService {
        self.connection_service
    }

    pub closed spec fn heartbeat(&self) -> HeartbeatService {
        self.heartbeat_service
    }

    pub closed spec fn wf(&self) -> bool {
        self.connection_service.wf()
    }

    /// A stopped service for at most 100 connections, with the default
    /// heartbeat settings, created at `now_ms`.
    pub fn new(now_ms: u64) -> (s: Self)
        ensures
            s.wf(),
            !s.running_spec(),
            s.connections().connections() == Map::<u32, ConnView>::empty(),
            s.connections().max() == 100,
            !s.heartbeat().running_spec(),
            s.heartbeat().interval_spec() == 10,
            s.heartbeat().timeout_spec() == 30,
    {
        SimpleTcpService {
            connection_service: ConnectionService::new(100, now_ms),
            heartbeat_service: HeartbeatService::with_default_config(),
            running: false,
        }
    }

    /// Starts the service and its heartbeat; says whether it was stopped
    /// (starting a running service changes nothing).
    pub fn start(&mut self, bind_addr: &str) -> (started: bool)
        requires
            old(self).wf(),
        ensures
            final(self).wf(),
            started == !old(self).running_spec(),
            final(self).running_spec(),
            final(self).connections() == old(self).connections(),
            started ==> final(self).heartbeat().running_spec(),
            !started ==> final(self).heartbeat() == old(self).heartbeat(),
    {
        if self.running {
            return false;
        }
        self.running = true;
        self.heartbeat_service.start();
        true
    }

    /// Stops the service and its heartbeat and drops every connection; says
    /// whether it was running (stopping a stopped service changes nothing).
    pub fn stop(&mut self) -> (stopped: bool)
        requires
            old(self).wf(),
        ensures
            final(self).wf(),
            stopped == old(self).running_spec(),
            !final(self).running_spec(),
            stopped ==> !final(self).heartbeat().running_spec() && final(self).connections().connections()
                == Map::<u32, ConnView>::empty(),
            !stopped ==> final(self).heartbeat() == old(self).heartbeat() && final(self).connections()
                == old(self).connections(),
    {
        if !self.running {
            return false;
        }
        self.running = false;
        self.heartbeat_service.stop();
        self.connection_service.close_all_connections();
        true
    }

    /// Whether the service runs.
    pub fn is_running(&self) -> (r: bool)
        ensures
            r == self.running_spec(),
    {
        self.running
    }

    /// "running" or "ready".
    pub fn get_status(&self) -> (s: String)
        ensures
            s@ == if self.running_spec() {
                "running"@
            } else {
                "ready"@
            },
    {
        if self.running {
            String::from_str("running")
        } else {
            String::from_str("ready")
        }
    }
}

} // verus!
