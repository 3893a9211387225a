//! Admission and inspection of client connections: which addresses are let
//! in, what a new connection must send first, how a connection is graded
//! by its age and heartbeats, and which connections are about to time out.

use vstd::prelude::*;
use vstd::string::*;
use crate::connection_service::{
    ConnectionService, ConnectionError, ConnectionStats, ConnView, UserInfo, seconds_between, reports,
};
use crate::network_utils::{ConnectionQuality, IpInfo};
use crate::protocol::GameMessage;
use crate::text::{decimal, u64_to_decimal};

verus! {

/// The number of connections at which new clients are turned away.
pub const CONNECTION_LIMIT: usize = 1000;

/// Why a client was not admitted or a lookup failed.
#[derive(Debug, Clone, PartialEq, Eq)]
pub enum HandlerError {
    /// The client's address is empty.
    InvalidAddress,
    /// The server holds this many connections already.
    ServerFull(usize),
    /// The first message was not `Connect`.
    NotConnectMessage,
    /// No connection has this user id.
    UserNotFound(u32),
    /// The registry refused the connection.
    Registration(ConnectionError),
}

/// The grade of a connection open for `uptime` seconds whose last
/// heartbeat was `hb_secs` seconds ago.
pub open spec fn quality_of(uptime: u64, hb_secs: u64) -> ConnectionQuality {
    if uptime > 3600 && hb_secs < 600 {
        ConnectionQuality::Excellent
    } else if uptime > 1800 && hb_secs < 900 {
        ConnectionQuality::Good
    } else if uptime > 600 && hb_secs < 1200 {
        ConnectionQuality::Fair
    } else if hb_secs < 1500 {
        ConnectionQuality::Poor
    } else {
        ConnectionQuality::VeryPoor
    }
}

/// The grade of connection `v` at `now_ms`.
pub open spec fn conn_quality(v: ConnView, now_ms: u64) -> ConnectionQuality {
    quality_of(seconds_between(v.connected_at_ms, now_ms), seconds_between(v.last_heartbeat_ms, now_ms))
}

/// The users of `conns` whose connection has grade `q` at `now_ms`.
pub open spec fn users_graded(conns: Map<u32, ConnView>, now_ms: u64, q: ConnectionQuality) -> Set<u32> {
    conns.dom().filter(|id: u32| conn_quality(conns[id], now_ms) == q)
}

fn grade(uptime: u64, hb_secs: u64) -> (q: ConnectionQuality)
    ensures
        q == quality_of(uptime, hb_secs),
{
    if uptime > 3600 && hb_secs < 600 {
        ConnectionQuality::Excellent
    } else if uptime > 1800 && hb_secs < 900 {
        ConnectionQuality::Good
    } else if uptime > 600 && hb_secs < 1200 {
        ConnectionQuality::Fair
    } else if hb_secs < 1500 {
        ConnectionQuality::Poor
    } else {
        ConnectionQuality::VeryPoor
    }
}

fn since_secs(from_ms: u64, now_ms: u64) -> (s: u64)
    ensures
        s == seconds_between(from_ms, now_ms),
{
    if now_ms >= from_ms { (now_ms - from_ms) / 1000 } else { 0 }
}

/// How many connections have each grade.
#[derive(Debug, Clone, Copy, PartialEq, Eq)]
pub struct QualityDistribution {
    pub excellent: usize,
    pub good: usize,
    pub fair: usize,
    pub poor: usize,
    pub very_poor: usize,
    pub disconnected: usize,
}

impl QualityDistribution {
    /// The count of grade `q`.
    pub open spec fn count(self, q: ConnectionQuality) -> usize {
        match q {
            ConnectionQuality::Excellent => self.excellent,
            ConnectionQuality::Good => self.good,
            ConnectionQuality::Fair => self.fair,
            ConnectionQuality::Poor => self.poor,
            ConnectionQuality::VeryPoor => self.very_poor,
            ConnectionQuality::Disconnected => self.disconnected,
        }
    }
}

/// An overview of the open connections.
#[derive(Debug, Clone, Copy)]
pub struct ConnectionsSummary {
    pub total_connections: usize,
    pub quality_distribution: QualityDistribution,
    pub peak_connections: u32,
    pub total_lifetime_connections: u64,
    pub timeout_disconnections: u64,
}

/// A connection that is close to its heartbeat timeout.
#[derive(Debug, Clone)]
pub struct ProblematicConnection {
    pub user_id: u32,
    pub addr: String,
    pub issue: String,
    pub severity: String,
    pub last_heartbeat_secs: u64,
}

/// A connection silent for longer than this (25 minutes) is reported.
pub const SILENCE_WARNING_SECS: u64 = 1500;

/// `p` reports connection `v` of user `id`, silent for `secs` seconds.
pub open spec fn reports_problem(p: ProblematicConnection, id: u32, v: ConnView, secs: u64) -> bool {
    &&& p.user_id == id
    &&& p.addr@ == v.addr
    &&& p.issue@ == "하트비트 지연"@
    &&& p.severity@ == (if secs > 1800 { "높음"@ } else { "보통"@ })
    &&& p.last_heartbeat_secs == secs
}

/// The notice sent to everyone when `user_id` leaves.
pub open spec fn leave_notice_text(user_id: u32) -> Seq<char> {
    "사용자 "@ + decimal(user_id as nat) + "가 연결을 해제했습니다"@
}

/// Admits clients and reports on their connections.
pub struct ConnectionHandler {
    connection_service: ConnectionService,
}

impl ConnectionHandler {
    pub closed spec fn service(&self) -> ConnectionService {
        self.connection_service
    }

    /// A handler over the connection registry `connection_service`.
    pub fn new(connection_service: ConnectionService) -> (h: Self)
        ensures
            h.service() == connection_service,
    {
        ConnectionHandler { connection_service }
    }

    /// The connection registry.
    pub fn connection_service(&self) -> (s: &ConnectionService)
        ensures
            *s == self.service(),
    {
        &self.connection_service
    }

    /// The connection registry, for updating it in place.
    pub fn connection_service_mut(&mut self) -> (s: &mut ConnectionService)
        ensures
            *s == old(self).service(),
            final(self).service() == *final(s),
    {
        &mut self.connection_service
    }

    /// Whether a client at `ip_info` may connect: an empty address is
    /// refused, loopback clients are always let in, and others only while
    /// fewer than 1000 connections are open.
    pub fn validate_user_connection(&self, ip_info: &IpInfo) -> (r: Result<(), HandlerError>)
        requires
            self.service().wf(),
        ensures
            ip_info.address@.len() == 0 ==> r == Err::<(), HandlerError>(HandlerError::InvalidAddress),
            ip_info.address@.len() > 0 && ip_info.is_localhost ==> r is Ok,
            ip_info.address@.len() > 0 && !ip_info.is_localhost ==> (if self.service().connections().dom().len()
                >= CONNECTION_LIMIT {
                r == Err::<(), HandlerError>(
                    HandlerError::ServerFull(self.service().connections().dom().len() as usize),
                )
            } else {
                r is Ok
            }),
    {
        if ip_info.address.as_str().unicode_len() == 0 {
            return Err(HandlerError::InvalidAddress);
        }
        if ip_info.is_localhost {
            return Ok(());
        }
        let current = self.connection_service.get_connection_count();
        if current >= CONNECTION_LIMIT {
            return Err(HandlerError::ServerFull(current));
        }
        Ok(())
    }

    /// Admits a client at `ip_info` (address text `addr`) whose first
    /// message is `first`, at `now_ms`: the address must pass validation
    /// and the message must be `Connect`; the connection is then registered
    /// under the user id it names, and the welcome message returned.
    pub fn accept_connection(&mut self, ip_info: &IpInfo, first: GameMessage, addr: String, now_ms: u64) -> (r:
        Result<(u32, GameMessage), HandlerError>)
        requires
            old(self).service().wf(),
        ensures
            final(self).service().wf(),
            ({
                let s = old(self).service();
                let full = s.connections().dom().len() >= CONNECTION_LIMIT;
                if ip_info.address@.len() == 0 {
                    r == Err::<(u32, GameMessage), HandlerError>(HandlerError::InvalidAddress) && final(self).service()
                        == s
                } else if !ip_info.is_localhost && full {
                    r == Err::<(u32, GameMessage), HandlerError>(
                        HandlerError::ServerFull(s.connections().dom().len() as usize),
                    ) && final(self).service() == s
                } else {
                    match first {
                        GameMessage::Connect { room_id, user_id } => {
                            if s.connections().dom().len() >= s.max() {
                                r == Err::<(u32, GameMessage), HandlerError>(
                                    HandlerError::Registration(ConnectionError::ServerFull),
                                ) && final(self).service().connections() == s.connections()
                            } else {
                                &&& r == Ok::<(u32, GameMessage), HandlerError>(
                                    (user_id, GameMessage::ConnectionAck { user_id }),
                                )
                                &&& final(self).service().connections() == s.connections().insert(
                                    user_id,
                                    ConnView { addr: addr@, connected_at_ms: now_ms, last_heartbeat_ms: now_ms },
                                )
                            }
                        },
                        _ => r == Err::<(u32, GameMessage), HandlerError>(HandlerError::NotConnectMessage)
                            && final(self).service() == s,
                    }
                }
            }),
    {
        match self.validate_user_connection(ip_info) {
            Ok(()) => {},
            Err(e) => {
                return Err(e);
            },
        }
        let user_id = match first {
            GameMessage::Connect { room_id: _, user_id } => user_id,
            _ => {
                return Err(HandlerError::NotConnectMessage);
            },
        };
        match self.connection_service.handle_new_connection_with_id(addr, user_id, now_ms) {
            Ok(id) => Ok((id, GameMessage::ConnectionAck { user_id: id })),
            Err(e) => Err(HandlerError::Registration(e)),
        }
    }

    /// Handles the departure of `user_id`: the connection is dropped, and
    /// the notice for the others is returned with whether it was open.
    pub fn handle_disconnection(&mut self, user_id: u32) -> (r: (GameMessage, bool))
        requires
            old(self).service().wf(),
        ensures
            final(self).service().wf(),
            r.1 == old(self).service().connections().dom().contains(user_id),
            final(self).service().connections() == old(self).service().connections().remove(user_id),
            r.0 matches GameMessage::Error { code, message } && code == 1001 && message@ == leave_notice_text(
                user_id,
            ),
    {
        let mut text = <String as StringExecFns>::from_str("사용자 ");
        let digits = u64_to_decimal(user_id as u64);
        text.append(digits.as_str());
        text.append("가 연결을 해제했습니다");
        let removed = self.connection_service.remove_connection(user_id);
        (GameMessage::Error { code: 1001, message: text }, removed)
    }

    /// The grade of `user_id`'s connection at `now_ms`.
    pub fn check_connection_quality(&self, user_id: u32, now_ms: u64) -> (r: Result<ConnectionQuality, HandlerError>)
        requires
            self.service().wf(),
        ensures
            self.service().connections().dom().contains(user_id) ==> r == Ok::<ConnectionQuality, HandlerError>(
                conn_quality(self.service().connections()[user_id], now_ms),
            ),
            !self.service().connections().dom().contains(user_id) ==> r == Err::<ConnectionQuality, HandlerError>(
                HandlerError::UserNotFound(user_id),
            ),
    {
        match self.connection_service.get_user_info(user_id, now_ms) {
            Some(info) => Ok(grade(info.uptime_seconds, since_secs(info.last_heartbeat_ms, now_ms))),
            None => Err(HandlerError::UserNotFound(user_id)),
        }
    }

    /// The number of open connections, how many have each grade at
    /// `now_ms`, and the registry's lifetime counters.
    pub fn get_connections_summary(&self, now_ms: u64) -> (s: ConnectionsSummary)
        requires
            self.service().wf(),
        ensures
            s.total_connections == self.service().connections().dom().len(),
            forall|q: ConnectionQuality| #[trigger] s.quality_distribution.count(q) == users_graded(
                self.service().connections(),
                now_ms,
                q,
            ).len(),
            s.peak_connections == self.service().stats_of().peak_connections,
            s.total_lifetime_connections == self.service().stats_of().total_connections,
            s.timeout_disconnections == self.service().stats_of().timeout_disconnections,
    {
        let users = self.connection_service.get_all_users(now_ms);
        let ghost conns = self.service().connections();
        let mut dist = QualityDistribution { excellent: 0, good: 0, fair: 0, poor: 0, very_poor: 0, disconnected: 0 };
        proof {
            assert forall|q: ConnectionQuality| #[trigger] graded_prefix(users@, 0, conns, now_ms, q).len() == 0 by {
                assert(graded_prefix(users@, 0, conns, now_ms, q) =~= Set::<u32>::empty());
            }
        }
        let mut i: usize = 0;
        while i < users.len()
            invariant
                i <= users@.len(),
                conns == self.service().connections(),
                forall|a: int, b: int| 0 <= a < b < users@.len() ==> users@[a].user_id < users@[b].user_id,
                forall|a: int|
                    0 <= a < users@.len() ==> conns.dom().contains(#[trigger] users@[a].user_id) && reports(
                        users@[a],
                        users@[a].user_id,
                        conns[users@[a].user_id],
                        now_ms,
                    ),
                forall|q: ConnectionQuality| #[trigger] dist.count(q) == graded_prefix(users@, i as int, conns, now_ms, q).len(),
                forall|q: ConnectionQuality| #[trigger] graded_prefix(users@, i as int, conns, now_ms, q).len() <= i,
            decreases users@.len() - i,
        {
            let u = &users[i];
            let q = grade(u.uptime_seconds, since_secs(u.last_heartbeat_ms, now_ms));
            proof {
                assert(conns.dom().contains(users@[i as int].user_id));
                assert(q == conn_quality(conns[users@[i as int].user_id], now_ms));
                lemma_graded_step(users@, i as int, conns, now_ms);
                assert(dist.count(q) == graded_prefix(users@, i as int, conns, now_ms, q).len());
            }
            let ghost d0 = dist;
            match q {
                ConnectionQuality::Excellent => dist.excellent = dist.excellent + 1,
                ConnectionQuality::Good => dist.good = dist.good + 1,
                ConnectionQuality::Fair => dist.fair = dist.fair + 1,
                ConnectionQuality::Poor => dist.poor = dist.poor + 1,
                ConnectionQuality::VeryPoor => dist.very_poor = dist.very_poor + 1,
                ConnectionQuality::Disconnected => dist.disconnected = dist.disconnected + 1,
            }
            proof {
                assert forall|q2: ConnectionQuality| #[trigger] dist.count(q2) == graded_prefix(users@, i + 1, conns, now_ms, q2).len() by {
                    assert(d0.count(q2) == graded_prefix(users@, i as int, conns, now_ms, q2).len());
                    if q2 == q {
                        assert(dist.count(q2) == d0.count(q2) + 1);
                    } else {
                        assert(dist.count(q2) == d0.count(q2));
                    }
                }
            }
            i = i + 1;
        }
        proof {
            assert forall|q: ConnectionQuality| #[trigger] graded_prefix(users@, users@.len() as int, conns, now_ms, q)
                == users_graded(conns, now_ms, q) by {
                lemma_graded_all(users@, conns, now_ms, q);
            }
        }
        let stats = self.connection_service.get_connection_stats();
        ConnectionsSummary {
            total_connections: users.len(),
            quality_distribution: dist,
            peak_connections: stats.peak_connections,
            total_lifetime_connections: stats.total_connections,
            timeout_disconnections: stats.timeout_disconnections,
        }
    }

    /// The connections silent for more than 25 minutes at `now_ms`, by
    /// increasing user id; over 30 minutes the severity is high.
    #[verifier::rlimit(40)]
    pub fn identify_problematic_connections(&self, now_ms: u64) -> (v: Vec<ProblematicConnection>)
        requires
            self.service().wf(),
        ensures
            forall|a: int, b: int| 0 <= a < b < v@.len() ==> v@[a].user_id < v@[b].user_id,
            forall|a: int|
                0 <= a < v@.len() ==> self.service().connections().dom().contains(#[trigger] v@[a].user_id)
                    && reports_problem(
                    v@[a],
                    v@[a].user_id,
                    self.service().connections()[v@[a].user_id],
                    seconds_between(self.service().connections()[v@[a].user_id].last_heartbeat_ms, now_ms),
                ) && v@[a].last_heartbeat_secs > SILENCE_WARNING_SECS,
            forall|id: u32|
                self.service().connections().dom().contains(id) && seconds_between(
                    self.service().connections()[id].last_heartbeat_ms,
                    now_ms,
                ) > SILENCE_WARNING_SECS ==> exists|a: int| 0 <= a < v@.len() && #[trigger] v@[a].user_id == id,
    {
        let users = self.connection_service.get_all_users(now_ms);
        let ghost conns = self.service().connections();
        let mut out: Vec<ProblematicConnection> = Vec::new();
        let mut i: usize = 0;
        while i < users.len()
            invariant
                i <= users@.len(),
                conns == self.service().connections(),
                forall|a: int, b: int| 0 <= a < b < users@.len() ==> users@[a].user_id < users@[b].user_id,
                forall|a: int|
                    0 <= a < users@.len() ==> conns.dom().contains(#[trigger] users@[a].user_id) && reports(
                        users@[a],
                        users@[a].user_id,
                        conns[users@[a].user_id],
                        now_ms,
                    ),
                forall|id: u32| conns.dom().contains(id) ==> exists|a: int| 0 <= a < users@.len() && #[trigger] users@[a].user_id == id,
                forall|a: int, b: int| 0 <= a < b < out@.len() ==> out@[a].user_id < out@[b].user_id,
                i == 0 ==> out@.len() == 0,
                i > 0 ==> forall|a: int| 0 <= a < out@.len() ==> #[trigger] out@[a].user_id <= users@[i - 1].user_id,
                forall|a: int|
                    0 <= a < out@.len() ==> conns.dom().contains(#[trigger] out@[a].user_id) && reports_problem(
                        out@[a],
                        out@[a].user_id,
                        conns[out@[a].user_id],
                        seconds_between(conns[out@[a].user_id].last_heartbeat_ms, now_ms),
                    ) && out@[a].last_heartbeat_secs > SILENCE_WARNING_SECS,
                forall|k: int|
                    0 <= k < i && seconds_between(conns[users@[k].user_id].last_heartbeat_ms, now_ms) > SILENCE_WARNING_SECS
                        ==> exists|a: int| 0 <= a < out@.len() && #[trigger] out@[a].user_id == users@[k].user_id,
            decreases users@.len() - i,
        {
            let u = &users[i];
            proof {
                assert(conns.dom().contains(users@[i as int].user_id));
            }
            let secs = since_secs(u.last_heartbeat_ms, now_ms);
            if secs > SILENCE_WARNING_SECS {
                let severity = if secs > 1800 {
                    <String as StringExecFns>::from_str("높음")
                } else {
                    <String as StringExecFns>::from_str("보통")
                };
                let p = ProblematicConnection {
                    user_id: u.user_id,
                    addr: u.addr.clone(),
                    issue: <String as StringExecFns>::from_str("하트비트 지연"),
                    severity,
                    last_heartbeat_secs: secs,
                };
                proof {
                    if i > 0 {
                        assert(users@[i - 1].user_id < users@[i as int].user_id);
                    }
                }
                let ghost o0 = out@;
                out.push(p);
                proof {
                    assert(out@[out@.len() - 1].user_id == users@[i as int].user_id);
                    assert forall|a: int| 0 <= a < o0.len() implies out@[a] == o0[a] by {}
                    assert(reports_problem(out@[o0.len() as int], users@[i as int].user_id, conns[users@[i as int].user_id], secs));
                }
            }
            i = i + 1;
        }
        proof {
            assert forall|id: u32|
                conns.dom().contains(id) && seconds_between(conns[id].last_heartbeat_ms, now_ms) > SILENCE_WARNING_SECS
                implies exists|a: int| 0 <= a < out@.len() && #[trigger] out@[a].user_id == id by {
                let k = choose|k: int| 0 <= k < users@.len() && users@[k].user_id == id;
                assert(seconds_between(conns[users@[k].user_id].last_heartbeat_ms, now_ms) > SILENCE_WARNING_SECS);
            }
        }
        out
    }
}

/// The user ids among the first `n` reports whose connection has grade `q`.
pub open spec fn graded_prefix(users: Seq<UserInfo>, n: int, conns: Map<u32, ConnView>, now_ms: u64, q: ConnectionQuality) -> Set<u32> {
    Set::new(|id: u32| exists|k: int| 0 <= k < n && users[k].user_id == id && conn_quality(conns[id], now_ms) == q)
}

proof fn lemma_graded_step(users: Seq<UserInfo>, i: int, conns: Map<u32, ConnView>, now_ms: u64)
    requires
        0 <= i < users.len(),
        forall|a: int, b: int| 0 <= a < b < users.len() ==> users[a].user_id < users[b].user_id,
        forall|q: ConnectionQuality| #[trigger] graded_prefix(users, i, conns, now_ms, q).len() <= i,
    ensures
        forall|q: ConnectionQuality| #![trigger graded_prefix(users, i + 1, conns, now_ms, q)] graded_prefix(users, i + 1, conns, now_ms, q) == if conn_quality(
            conns[users[i].user_id],
            now_ms,
        ) == q {
            graded_prefix(users, i, conns, now_ms, q).insert(users[i].user_id)
        } else {
            graded_prefix(users, i, conns, now_ms, q)
        },
        forall|q: ConnectionQuality| #![trigger graded_prefix(users, i + 1, conns, now_ms, q)] graded_prefix(users, i + 1, conns, now_ms, q).len() == if conn_quality(
            conns[users[i].user_id],
            now_ms,
        ) == q {
            graded_prefix(users, i, conns, now_ms, q).len() + 1int
        } else {
            graded_prefix(users, i, conns, now_ms, q).len() as int
        },
        forall|q: ConnectionQuality| #![trigger graded_prefix(users, i + 1, conns, now_ms, q)] graded_prefix(users, i + 1, conns, now_ms, q).len() <= i + 1,
        forall|q: ConnectionQuality| #![trigger graded_prefix(users, i + 1, conns, now_ms, q)] graded_prefix(users, i + 1, conns, now_ms, q).finite(),
{
    assert forall|q: ConnectionQuality| #![trigger graded_prefix(users, i + 1, conns, now_ms, q)] graded_prefix(users, i + 1, conns, now_ms, q) == if conn_quality(
        conns[users[i].user_id],
        now_ms,
    ) == q {
        graded_prefix(users, i, conns, now_ms, q).insert(users[i].user_id)
    } else {
        graded_prefix(users, i, conns, now_ms, q)
    } by {
        let a = graded_prefix(users, i + 1, conns, now_ms, q);
        let b = if conn_quality(conns[users[i].user_id], now_ms) == q {
            graded_prefix(users, i, conns, now_ms, q).insert(users[i].user_id)
        } else {
            graded_prefix(users, i, conns, now_ms, q)
        };
        assert forall|id: u32| a.contains(id) <==> b.contains(id) by {
            if a.contains(id) {
                let k = choose|k: int| 0 <= k < i + 1 && users[k].user_id == id && conn_quality(conns[id], now_ms) == q;
                if k < i {
                    assert(graded_prefix(users, i, conns, now_ms, q).contains(id));
                }
            }
            if graded_prefix(users, i, conns, now_ms, q).contains(id) {
                let k = choose|k: int| 0 <= k < i && users[k].user_id == id && conn_quality(conns[id], now_ms) == q;
                assert(a.contains(id));
            }
        }
        assert(a =~= b);
    }
    assert forall|q: ConnectionQuality| #![trigger graded_prefix(users, i + 1, conns, now_ms, q)] graded_prefix(users, i + 1, conns, now_ms, q).len() == if conn_quality(
        conns[users[i].user_id],
        now_ms,
    ) == q {
        graded_prefix(users, i, conns, now_ms, q).len() + 1int
    } else {
        graded_prefix(users, i, conns, now_ms, q).len() as int
    } && graded_prefix(users, i + 1, conns, now_ms, q).finite() && graded_prefix(users, i + 1, conns, now_ms, q).len() <= i + 1 by {
        lemma_graded_finite(users, i, conns, now_ms, q);
        lemma_graded_finite(users, i + 1, conns, now_ms, q);
        let p = graded_prefix(users, i, conns, now_ms, q);
        if p.contains(users[i].user_id) {
            let k = choose|k: int| 0 <= k < i && users[k].user_id == users[i].user_id && conn_quality(conns[users[i].user_id], now_ms) == q;
            assert(users[k].user_id < users[i].user_id);
        }
    }
}

proof fn lemma_graded_finite(users: Seq<UserInfo>, n: int, conns: Map<u32, ConnView>, now_ms: u64, q: ConnectionQuality)
    requires
        0 <= n <= users.len(),
    ensures
        graded_prefix(users, n, conns, now_ms, q).finite(),
    decreases n,
{
    let p = graded_prefix(users, n, conns, now_ms, q);
    if n == 0 {
        assert(p =~= Set::<u32>::empty());
    } else {
        lemma_graded_finite(users, n - 1, conns, now_ms, q);
        let r = graded_prefix(users, n - 1, conns, now_ms, q).insert(users[n - 1].user_id);
        assert forall|id: u32| p.contains(id) implies r.contains(id) by {
            let k = choose|k: int| 0 <= k < n && users[k].user_id == id && conn_quality(conns[id], now_ms) == q;
            if k < n - 1 {
                assert(graded_prefix(users, n - 1, conns, now_ms, q).contains(id));
            }
        }
        assert(p.subset_of(r));
        vstd::set_lib::lemma_len_subset(p, r);
    }
}

proof fn lemma_graded_all(users: Seq<UserInfo>, conns: Map<u32, ConnView>, now_ms: u64, q: ConnectionQuality)
    requires
        forall|a: int| 0 <= a < users.len() ==> conns.dom().contains(#[trigger] users[a].user_id),
        forall|id: u32| conns.dom().contains(id) ==> exists|a: int| 0 <= a < users.len() && #[trigger] users[a].user_id == id,
    ensures
        graded_prefix(users, users.len() as int, conns, now_ms, q) == users_graded(conns, now_ms, q),
{
    let a = graded_prefix(users, users.len() as int, conns, now_ms, q);
    let b = users_graded(conns, now_ms, q);
    assert forall|id: u32| a.contains(id) <==> b.contains(id) by {
        if b.contains(id) {
            let k = choose|k: int| 0 <= k < users.len() && #[trigger] users[k].user_id == id;
            assert(a.contains(id));
        }
        if a.contains(id) {
            let k = choose|k: int| 0 <= k < users.len() && users[k].user_id == id && conn_quality(conns[id], now_ms) == q;
            assert(conns.dom().contains(users[k].user_id));
        }
    }
    assert(a =~= b);
}


/// How bad a grade is: 0 for excellent up to 4 for very poor.
pub open spec fn grade_rank(q: ConnectionQuality) -> nat {
    match q {
        ConnectionQuality::Excellent => 0,
        ConnectionQuality::Good => 1,
        ConnectionQuality::Fair => 2,
        ConnectionQuality::Poor => 3,
        ConnectionQuality::VeryPoor => 4,
        ConnectionQuality::Disconnected => 5,
    }
}

/// Grading a connection: one up for more than an hour whose last heartbeat
/// is under ten minutes old is excellent, and only such a connection is;
/// one whose heartbeat is 1500 s old or older is very poor, and only such a
/// one is; a connection is good or better when up more than 30 minutes
/// with a heartbeat under 15 minutes old (or excellent), and fair or better
/// when up more than 10 minutes with one under 20 minutes old (or better);
/// an older heartbeat never gives a better grade, and a longer uptime never
/// gives a worse one.
pub proof fn lemma_grade_thresholds_and_order(uptime: u64, hb_secs: u64, uptime2: u64, hb_secs2: u64)
    ensures
        (quality_of(uptime, hb_secs) == ConnectionQuality::Excellent) <==> (uptime > 3600 && hb_secs < 600),
        (quality_of(uptime, hb_secs) == ConnectionQuality::VeryPoor) <==> hb_secs >= 1500,
        quality_of(uptime, hb_secs) != ConnectionQuality::Disconnected,
        (grade_rank(quality_of(uptime, hb_secs)) <= 1) <==> ((uptime > 3600 && hb_secs < 600) || (uptime
            > 1800 && hb_secs < 900)),
        (grade_rank(quality_of(uptime, hb_secs)) <= 2) <==> ((uptime > 3600 && hb_secs < 600) || (uptime
            > 1800 && hb_secs < 900) || (uptime > 600 && hb_secs < 1200)),
        hb_secs <= hb_secs2 ==> grade_rank(quality_of(uptime, hb_secs)) <= grade_rank(quality_of(uptime, hb_secs2)),
        uptime <= uptime2 ==> grade_rank(quality_of(uptime2, hb_secs)) <= grade_rank(quality_of(uptime, hb_secs)),
{
}

} // verus!
