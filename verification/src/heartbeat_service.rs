//! The heartbeat service: whether the periodic cleanup runs, what each
//! cleanup round does to the connection registry, the heartbeat counters,
//! and the connection health grade.

use vstd::prelude::*;
use vstd::string::*;
use crate::connection_service::{ConnectionService, ConnView, live_at, timed_out};
use crate::error::{ErrorHandler, ErrorReport, ErrorSeverity, TcpServerError};
use crate::protocol::GameMessage;
use crate::ring_buffer::wrap_add_u64;
use crate::text::{u64_to_decimal, decimal};

verus! {

/// Heartbeat counters.
#[derive(Debug, Clone, Copy)]
pub struct HeartbeatStats {
    pub total_heartbeats: u64,
    pub timeout_cleanups: u64,
    /// Unix time (seconds) of the last cleanup that dropped a connection.
    pub last_cleanup_timestamp: Option<i64>,
    /// The open connections seen by the last periodic round.
    pub active_connections: u32,
}

/// Connection health by the share of timeouts among heartbeats.
#[derive(Debug, Clone, Copy, PartialEq, Eq)]
pub enum HealthScore {
    /// Under 1% timeouts.
    Excellent,
    /// Under 5%.
    Good,
    /// Under 10%.
    Fair,
    /// Under 20%.
    Poor,
    /// 20% or more.
    Critical,
}

/// The grade for `timeouts` timeouts among `heartbeats` heartbeats (a rate
/// of zero when there were no heartbeats).
pub open spec fn health_for(timeouts: u64, heartbeats: u64) -> HealthScore {
    if heartbeats == 0 || 100 * timeouts < heartbeats {
        HealthScore::Excellent
    } else if 100 * timeouts < 5 * heartbeats {
        HealthScore::Good
    } else if 100 * timeouts < 10 * heartbeats {
        HealthScore::Fair
    } else if 100 * timeouts < 20 * heartbeats {
        HealthScore::Poor
    } else {
        HealthScore::Critical
    }
}

impl HealthScore {
    /// Grades the timeout rate `timeouts / heartbeats` against 1%, 5%, 10%
    /// and 20%, exactly.
    pub fn for_rates(timeouts: u64, heartbeats: u64) -> (h: HealthScore)
        ensures
            h == health_for(timeouts, heartbeats),
    {
        let t: u128 = (timeouts as u128) * 100;
        let b: u128 = heartbeats as u128;
        if heartbeats == 0 || t < b {
            HealthScore::Excellent
        } else if t < 5 * b {
            HealthScore::Good
        } else if t < 10 * b {
            HealthScore::Fair
        } else if t < 20 * b {
            HealthScore::Poor
        } else {
            HealthScore::Critical
        }
    }
}

/// The health report (the timeout rate and the average round time, which
/// are fractions, are left to the caller).
#[derive(Debug, Clone, Copy)]
pub struct ConnectionHealth {
    pub score: HealthScore,
    pub active_connections: usize,
    pub total_heartbeats: u64,
    pub timeout_cleanups: u64,
}

/// The counters after a cleanup that dropped `n` connections at `now_secs`.
pub open spec fn after_cleanup(s: HeartbeatStats, n: nat, now_secs: i64) -> HeartbeatStats {
    if n > 0 {
        HeartbeatStats {
            timeout_cleanups: wrap_add_u64(s.timeout_cleanups, n as int),
            last_cleanup_timestamp: Some(now_secs),
            ..s
        }
    } else {
        s
    }
}

/// The heartbeat service.
pub struct HeartbeatService {
    running: bool,
    heartbeat_interval_secs: u64,
    connection_timeout_secs: u64,
    stats: HeartbeatStats,
}

impl HeartbeatService {
    pub closed spec fn running_spec(&self) -> bool {
        self.running
    }

    pub closed spec fn stats_of(&self) -> HeartbeatStats {
        self.stats
    }

    pub closed spec fn interval_spec(&self) -> u64 {
        self.heartbeat_interval_secs
    }

    pub closed spec fn timeout_spec(&self) -> u64 {
        self.connection_timeout_secs
    }

    /// A stopped service with zeroed counters.
    pub fn new(heartbeat_interval_secs: u64, connection_timeout_secs: u64) -> (s: Self)
        ensures
            !s.running_spec(),
            s.interval_spec() == heartbeat_interval_secs,
            s.timeout_spec() == connection_timeout_secs,
            s.stats_of() == (HeartbeatStats {
                total_heartbeats: 0,
                timeout_cleanups: 0,
                last_cleanup_timestamp: None,
                active_connections: 0,
            }),
    {
        HeartbeatService {
            running: false,
            heartbeat_interval_secs,
            connection_timeout_secs,
            stats: HeartbeatStats {
                total_heartbeats: 0,
                timeout_cleanups: 0,
                last_cleanup_timestamp: None,
                active_connections: 0,
            },
        }
    }

    /// Ten-second rounds, thirty-second timeout.
    pub fn with_default_config() -> (s: Self)
        ensures
            !s.running_spec(),
            s.interval_spec() == 10,
            s.timeout_spec() == 30,
            s.stats_of() == (HeartbeatStats {
                total_heartbeats: 0,
                timeout_cleanups: 0,
                last_cleanup_timestamp: None,
                active_connections: 0,
            }),
    {
        Self::new(10, 30)
    }

    /// Starts the periodic cleanup; says whether it was stopped before
    /// (starting a running service changes nothing).
    pub fn start(&mut self) -> (started: bool)
        ensures
            started == !old(self).running_spec(),
            final(self).running_spec(),
            final(self).stats_of() == old(self).stats_of(),
            final(self).interval_spec() == old(self).interval_spec(),
            final(self).timeout_spec() == old(self).timeout_spec(),
    {
        if self.running {
            return false;
        }
        self.running = true;
        true
    }

    /// Stops the periodic cleanup; says whether it was running before.
    pub fn stop(&mut self) -> (stopped: bool)
        ensures
            stopped == old(self).running_spec(),
            !final(self).running_spec(),
            final(self).stats_of() == old(self).stats_of(),
            final(self).interval_spec() == old(self).interval_spec(),
            final(self).timeout_spec() == old(self).timeout_spec(),
    {
        if !self.running {
            return false;
        }
        self.running = false;
        true
    }

    /// Whether the periodic cleanup runs.
    pub fn is_running(&self) -> (r: bool)
        ensures
            r == self.running_spec(),
    {
        self.running
    }

    /// One periodic round at `now_ms` (wall-clock milliseconds): drops the
    /// timed-out connections, counts them, and records how many remain.
    /// Returns the dropped user ids.
    pub fn run_cleanup_round(&mut self, connections: &mut ConnectionService, now_ms: u64) -> (removed: Vec<u32>)
        requires
            old(connections).wf(),
        ensures
            final(connections).wf(),
            final(connections).connections() == live_at(old(connections).connections(), now_ms),
            forall|id: u32|
                removed@.contains(id) <==> old(connections).connections().dom().contains(id)
                    && timed_out(old(connections).connections()[id].last_heartbeat_ms, now_ms),
            final(self).stats_of() == (HeartbeatStats {
                active_connections: (final(connections).connections().dom().len() % 0x1_0000_0000) as u32,
                ..after_cleanup(old(self).stats_of(), removed@.len(), (now_ms / 1000) as i64)
            }),
            final(self).running_spec() == old(self).running_spec(),
            final(self).interval_spec() == old(self).interval_spec(),
            final(self).timeout_spec() == old(self).timeout_spec(),
    {
        let removed = self.cleanup_now(connections, now_ms);
        let count = connections.get_connection_count();
        #[verifier::truncate]
        let active: u32 = (count as u64 % 0x1_0000_0000u64) as u32;
        self.stats.active_connections = active;
        removed
    }

    /// Drops the timed-out connections now and counts them; returns their
    /// user ids.
    pub fn cleanup_now(&mut self, connections: &mut ConnectionService, now_ms: u64) -> (removed: Vec<u32>)
        requires
            old(connections).wf(),
        ensures
            final(connections).wf(),
            final(connections).connections() == live_at(old(connections).connections(), now_ms),
            forall|id: u32|
                removed@.contains(id) <==> old(connections).connections().dom().contains(id)
                    && timed_out(old(connections).connections()[id].last_heartbeat_ms, now_ms),
            final(self).stats_of() == after_cleanup(old(self).stats_of(), removed@.len(), (now_ms / 1000) as i64),
            final(self).running_spec() == old(self).running_spec(),
            final(self).interval_spec() == old(self).interval_spec(),
            final(self).timeout_spec() == old(self).timeout_spec(),
    {
        let removed = connections.cleanup_timeout_connections(now_ms);
        let n = removed.len();
        if n > 0 {
            self.stats.timeout_cleanups = self.stats.timeout_cleanups.wrapping_add(n as u64);
            let secs: u64 = now_ms / 1000;
            self.stats.last_cleanup_timestamp = Some(secs as i64);
        }
        removed
    }

    /// The answer to a client's heartbeat: the server time in seconds.
    pub fn heartbeat_response(now_secs: i64) -> (m: GameMessage)
        ensures
            m == (GameMessage::HeartBeatResponse { timestamp: now_secs }),
    {
        GameMessage::HeartBeatResponse { timestamp: now_secs }
    }

    /// Whether a heartbeat answer can go to `client_id`: the failure
    /// report when the client is not connected.
    pub fn check_heartbeat_client(connections: &ConnectionService, client_id: u32) -> (r: Option<ErrorReport>)
        requires
            connections.wf(),
        ensures
            connections.connections().dom().contains(client_id) ==> r is None,
            !connections.connections().dom().contains(client_id) ==> (r matches Some(report)
                && report.context.error matches TcpServerError::Heartbeat { client_id: c, operation, message }
                && c == Some(client_id) && operation@ == "send_response"@ && message@
                == "사용자 "@ + decimal(client_id as nat) + "를 찾을 수 없습니다"@
                && report.context.severity == ErrorSeverity::Error),
    {
        if connections.has_user(client_id) {
            return None;
        }
        let mut detail = String::from_str("사용자 ");
        let d = u64_to_decimal(client_id as u64);
        detail.append(d.as_str());
        detail.append("를 찾을 수 없습니다");
        Some(Self::heartbeat_failed(client_id, detail.as_str()))
    }

    /// The report of a heartbeat answer that could not be sent; `detail` is
    /// the send error's text.
    pub fn heartbeat_failed(client_id: u32, detail: &str) -> (report: ErrorReport)
        ensures
            report.context.error matches TcpServerError::Heartbeat { client_id: c, operation, message }
                && c == Some(client_id) && operation@ == "send_response"@ && message@ == detail@,
            report.context.severity == ErrorSeverity::Error,
            report.context.component@ == "HeartbeatService"@,
            report.context.operation@ == "handle_heartbeat"@,
    {
        let error = TcpServerError::heartbeat_error(Some(client_id), "send_response", detail);
        ErrorHandler::handle_error(error, ErrorSeverity::Error, "HeartbeatService", "handle_heartbeat")
    }

    /// Counts a heartbeat that was answered.
    pub fn heartbeat_delivered(&mut self)
        ensures
            final(self).stats_of() == (HeartbeatStats {
                total_heartbeats: wrap_add_u64(old(self).stats_of().total_heartbeats, 1),
                ..old(self).stats_of()
            }),
            final(self).running_spec() == old(self).running_spec(),
            final(self).interval_spec() == old(self).interval_spec(),
            final(self).timeout_spec() == old(self).timeout_spec(),
    {
        self.stats.total_heartbeats = self.stats.total_heartbeats.wrapping_add(1);
    }

    /// A snapshot of the counters.
    pub fn get_heartbeat_stats(&self) -> (s: HeartbeatStats)
        ensures
            s == self.stats_of(),
    {
        self.stats
    }

    /// The number of open connections.
    pub fn get_active_connections(connections: &ConnectionService) -> (n: usize)
        requires
            connections.wf(),
        ensures
            n == connections.connections().dom().len(),
    {
        connections.get_connection_count()
    }

    /// The round interval and the timeout, in seconds.
    pub fn get_config(&self) -> (c: (u64, u64))
        ensures
            c == (self.interval_spec(), self.timeout_spec()),
    {
        (self.heartbeat_interval_secs, self.connection_timeout_secs)
    }

    /// The health grade from the counters and the open connections.
    pub fn evaluate_connection_health(&self, connections: &ConnectionService) -> (h: ConnectionHealth)
        requires
            connections.wf(),
        ensures
            h.score == health_for(self.stats_of().timeout_cleanups, self.stats_of().total_heartbeats),
            h.active_connections == connections.connections().dom().len(),
            h.total_heartbeats == self.stats_of().total_heartbeats,
            h.timeout_cleanups == self.stats_of().timeout_cleanups,
    {
        ConnectionHealth {
            score: HealthScore::for_rates(self.stats.timeout_cleanups, self.stats.total_heartbeats),
            active_connections: connections.get_connection_count(),
            total_heartbeats: self.stats.total_heartbeats,
            timeout_cleanups: self.stats.timeout_cleanups,
        }
    }
}

} // verus!
