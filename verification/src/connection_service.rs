//! The connection registry: who is connected, from where and since when,
//! the user ids it hands out, the heartbeat timeout, and the connection
//! counters. Sockets stay with the caller, who reports each event here and
//! performs the action returned.

use vstd::prelude::*;
use vstd::string::*;
use crate::protocol::GameMessage;
use crate::error::{ErrorHandler, ErrorReport, ErrorSeverity, TcpServerError};
use crate::ring_buffer::wrap_add_u64;

verus! {

/// A connection that has not sent a heartbeat for longer than this is
/// dropped (30 minutes).
pub const HEARTBEAT_TIMEOUT_MS: u64 = 1800000;

/// One registered connection.
#[derive(Debug, Clone)]
pub struct ConnectionRecord {
    pub user_id: u32,
    pub addr: String,
    /// Wall-clock milliseconds since the Unix epoch.
    pub connected_at_ms: u64,
    pub last_heartbeat_ms: u64,
}

/// What is known of a connection.
pub struct ConnView {
    pub addr: Seq<char>,
    pub connected_at_ms: u64,
    pub last_heartbeat_ms: u64,
}

pub open spec fn rec_view(r: ConnectionRecord) -> ConnView {
    ConnView { addr: r.addr@, connected_at_ms: r.connected_at_ms, last_heartbeat_ms: r.last_heartbeat_ms }
}

/// Records ordered by strictly increasing user id.
pub open spec fn sorted_by_id(recs: Seq<ConnectionRecord>) -> bool {
    forall|i: int, j: int| 0 <= i < j < recs.len() ==> recs[i].user_id < recs[j].user_id
}

pub open spec fn has_id(recs: Seq<ConnectionRecord>, id: u32) -> bool {
    exists|i: int| 0 <= i < recs.len() && recs[i].user_id == id
}

pub open spec fn id_index(recs: Seq<ConnectionRecord>, id: u32) -> int {
    choose|i: int| 0 <= i < recs.len() && recs[i].user_id == id
}

/// The connections by user id.
pub open spec fn records_map(recs: Seq<ConnectionRecord>) -> Map<u32, ConnView> {
    Map::new(|id: u32| has_id(recs, id), |id: u32| rec_view(recs[id_index(recs, id)]))
}

/// Whether a connection last heard from at `last_ms` has timed out at `now_ms`.
pub open spec fn timed_out(last_ms: u64, now_ms: u64) -> bool {
    now_ms > last_ms && now_ms - last_ms > HEARTBEAT_TIMEOUT_MS
}

proof fn lemma_index_unique(recs: Seq<ConnectionRecord>, i: int)
    requires
        sorted_by_id(recs),
        0 <= i < recs.len(),
    ensures
        has_id(recs, recs[i].user_id),
        id_index(recs, recs[i].user_id) == i,
{
    let id = recs[i].user_id;
    assert(has_id(recs, id));
    let k = id_index(recs, id);
    if k < i {
        assert(recs[k].user_id < recs[i].user_id);
    } else if k > i {
        assert(recs[i].user_id < recs[k].user_id);
    }
}

/// Inserting a record at its place in the order adds it to the map.
proof fn lemma_insert_at(recs: Seq<ConnectionRecord>, pos: int, r: ConnectionRecord)
    requires
        sorted_by_id(recs),
        0 <= pos <= recs.len(),
        forall|k: int| 0 <= k < pos ==> recs[k].user_id < r.user_id,
        forall|k: int| pos <= k < recs.len() ==> recs[k].user_id > r.user_id,
    ensures
        sorted_by_id(recs.insert(pos, r)),
        records_map(recs.insert(pos, r)) == records_map(recs).insert(r.user_id, rec_view(r)),
{
    let t = recs.insert(pos, r);
    assert forall|i: int, j: int| 0 <= i < j < t.len() implies t[i].user_id < t[j].user_id by {
        if j < pos {
        } else if i < pos && j == pos {
        } else if i < pos {
            assert(t[j] == recs[j - 1]);
        } else if i == pos {
            assert(t[j] == recs[j - 1]);
        } else {
            assert(t[i] == recs[i - 1]);
            assert(t[j] == recs[j - 1]);
        }
    }
    let m = records_map(recs).insert(r.user_id, rec_view(r));
    assert forall|id: u32| has_id(t, id) <==> m.dom().contains(id) by {
        if has_id(t, id) {
            let k = choose|k: int| 0 <= k < t.len() && t[k].user_id == id;
            if k < pos {
                assert(t[k] == recs[k]);
            } else if k > pos {
                assert(t[k] == recs[k - 1]);
            }
        }
        if has_id(recs, id) {
            let k = choose|k: int| 0 <= k < recs.len() && recs[k].user_id == id;
            if k < pos {
                assert(t[k] == recs[k]);
            } else {
                assert(t[k + 1] == recs[k]);
            }
        }
        if id == r.user_id {
            assert(t[pos] == r);
        }
    }
    assert forall|id: u32| #[trigger] m.dom().contains(id) implies records_map(t)[id] == m[id] by {
        if id == r.user_id {
            assert(t[pos] == r);
            lemma_index_unique(t, pos);
        } else {
            let k = id_index(recs, id);
            lemma_index_unique(recs, k);
            if k < pos {
                assert(t[k] == recs[k]);
                lemma_index_unique(t, k);
            } else {
                assert(t[k + 1] == recs[k]);
                lemma_index_unique(t, k + 1);
            }
        }
    }
    assert(records_map(t) =~= m);
}

/// Replacing the record of a present id updates the map.
proof fn lemma_replace_at(recs: Seq<ConnectionRecord>, pos: int, r: ConnectionRecord)
    requires
        sorted_by_id(recs),
        0 <= pos < recs.len(),
        recs[pos].user_id == r.user_id,
    ensures
        sorted_by_id(recs.update(pos, r)),
        records_map(recs.update(pos, r)) == records_map(recs).insert(r.user_id, rec_view(r)),
{
    let t = recs.update(pos, r);
    assert forall|i: int, j: int| 0 <= i < j < t.len() implies t[i].user_id < t[j].user_id by {
        assert(recs[i].user_id < recs[j].user_id);
    }
    let m = records_map(recs).insert(r.user_id, rec_view(r));
    assert forall|id: u32| has_id(t, id) <==> m.dom().contains(id) by {
        if has_id(t, id) {
            let k = choose|k: int| 0 <= k < t.len() && t[k].user_id == id;
            assert(recs[k].user_id == id);
        }
        if has_id(recs, id) {
            let k = choose|k: int| 0 <= k < recs.len() && recs[k].user_id == id;
            assert(t[k].user_id == id);
        }
        if id == r.user_id {
            assert(t[pos].user_id == id);
        }
    }
    assert forall|id: u32| #[trigger] m.dom().contains(id) implies records_map(t)[id] == m[id] by {
        if id == r.user_id {
            lemma_index_unique(t, pos);
        } else {
            let k = id_index(recs, id);
            lemma_index_unique(recs, k);
            lemma_index_unique(t, k);
        }
    }
    assert(records_map(t) =~= m);
}

/// Removing the record at a position removes its id from the map.
proof fn lemma_remove_at(recs: Seq<ConnectionRecord>, pos: int)
    requires
        sorted_by_id(recs),
        0 <= pos < recs.len(),
    ensures
        sorted_by_id(recs.remove(pos)),
        records_map(recs.remove(pos)) == records_map(recs).remove(recs[pos].user_id),
{
    let t = recs.remove(pos);
    let gone = recs[pos].user_id;
    assert forall|i: int, j: int| 0 <= i < j < t.len() implies t[i].user_id < t[j].user_id by {
        let oi = if i < pos { i } else { i + 1 };
        let oj = if j < pos { j } else { j + 1 };
        assert(t[i] == recs[oi]);
        assert(t[j] == recs[oj]);
    }
    let m = records_map(recs).remove(gone);
    assert forall|id: u32| has_id(t, id) <==> m.dom().contains(id) by {
        if has_id(t, id) {
            let k = choose|k: int| 0 <= k < t.len() && t[k].user_id == id;
            let ok = if k < pos { k } else { k + 1 };
            assert(t[k] == recs[ok]);
            if ok < pos {
                assert(recs[ok].user_id < gone);
            } else {
                assert(recs[ok].user_id > gone);
            }
        }
        if has_id(recs, id) && id != gone {
            let k = choose|k: int| 0 <= k < recs.len() && recs[k].user_id == id;
            if k < pos {
                assert(t[k] == recs[k]);
            } else {
                assert(k != pos);
                assert(t[k - 1] == recs[k]);
            }
        }
    }
    assert forall|id: u32| #[trigger] m.dom().contains(id) implies records_map(t)[id] == m[id] by {
        let k = id_index(recs, id);
        lemma_index_unique(recs, k);
        if k < pos {
            assert(t[k] == recs[k]);
            lemma_index_unique(t, k);
        } else {
            assert(k != pos);
            assert(t[k - 1] == recs[k]);
            lemma_index_unique(t, k - 1);
        }
    }
    assert(records_map(t) =~= m);
}

proof fn lemma_insert_len(m: Map<u32, ConnView>, k: u32)
    requires
        m.dom().finite(),
    ensures
        forall|v: ConnView| #[trigger] m.insert(k, v).dom().len() <= m.dom().len() + 1,
{
    assert forall|v: ConnView| #[trigger] m.insert(k, v).dom().len() <= m.dom().len() + 1 by {
        assert(m.insert(k, v).dom() == m.dom().insert(k));
    }
}

/// A sorted list of records holds as many connections as it has entries.
proof fn lemma_map_len(recs: Seq<ConnectionRecord>)
    requires
        sorted_by_id(recs),
    ensures
        records_map(recs).dom().finite(),
        records_map(recs).dom().len() == recs.len(),
{
    let ids = recs.map_values(|r: ConnectionRecord| r.user_id);
    assert(ids.no_duplicates()) by {
        assert forall|i: int, j: int| 0 <= i < ids.len() && 0 <= j < ids.len() && i != j implies ids[i] != ids[j] by {
            if i < j {
                assert(recs[i].user_id < recs[j].user_id);
            } else {
                assert(recs[j].user_id < recs[i].user_id);
            }
        }
    }
    ids.unique_seq_to_set();
    assert forall|id: u32| ids.to_set().contains(id) <==> records_map(recs).dom().contains(id) by {
        if has_id(recs, id) {
            let k = choose|k: int| 0 <= k < recs.len() && recs[k].user_id == id;
            assert(ids[k] == id);
        }
        if ids.to_set().contains(id) {
            let k = choose|k: int| 0 <= k < ids.len() && ids[k] == id;
            assert(recs[k].user_id == id);
        }
    }
    assert(ids.to_set() =~= records_map(recs).dom());
}

pub open spec fn wrap_add_u32(a: u32, b: int) -> u32 {
    ((a + b) % 0x1_0000_0000) as u32
}

/// Connection counters. The 64-bit counters and the current count wrap on
/// overflow.
#[derive(Debug, Clone, Copy)]
pub struct ConnectionStats {
    pub total_connections: u64,
    pub current_connections: u32,
    pub peak_connections: u32,
    pub total_messages: u64,
    pub failed_connections: u64,
    pub timeout_disconnections: u64,
}

/// The counters after a connection is made: one more in total and now,
/// and the peak raised to the current count.
pub open spec fn after_connect(s: ConnectionStats) -> ConnectionStats {
    let cur = wrap_add_u32(s.current_connections, 1);
    ConnectionStats {
        total_connections: wrap_add_u64(s.total_connections, 1),
        current_connections: cur,
        peak_connections: if s.peak_connections >= cur {
            s.peak_connections
        } else {
            cur
        },
        ..s
    }
}

/// The counters after `n` connections end (the current count stops at zero).
pub open spec fn after_disconnect(s: ConnectionStats, n: u32) -> ConnectionStats {
    ConnectionStats {
        current_connections: if s.current_connections >= n {
            (s.current_connections - n) as u32
        } else {
            0
        },
        ..s
    }
}

/// The counters after `n` more messages.
pub open spec fn after_messages(s: ConnectionStats, n: u64) -> ConnectionStats {
    ConnectionStats { total_messages: wrap_add_u64(s.total_messages, n as int), ..s }
}

/// Why a connection request or a delivery was refused.
#[derive(Debug, Clone, Copy, PartialEq, Eq)]
pub enum ConnectionError {
    /// As many connections as allowed are open.
    ServerFull,
    /// No connection has this user id.
    UserNotFound(u32),
}

/// What is reported of a connection.
#[derive(Debug, Clone)]
pub struct UserInfo {
    pub user_id: u32,
    pub addr: String,
    pub connected_at_ms: u64,
    pub last_heartbeat_ms: u64,
    /// Whole seconds since the connection was made.
    pub uptime_seconds: u64,
    /// Unix time of the connection, in seconds.
    pub connected_timestamp: i64,
    /// Unix time of the last heartbeat, in seconds.
    pub last_heartbeat_timestamp: i64,
}

/// Whole seconds from `from_ms` to `now_ms`, zero when the clock went back.
pub open spec fn seconds_between(from_ms: u64, now_ms: u64) -> u64 {
    if now_ms >= from_ms {
        ((now_ms - from_ms) / 1000) as u64
    } else {
        0
    }
}

/// `u` reports the connection `v` of user `id` at `now_ms`.
pub open spec fn reports(u: UserInfo, id: u32, v: ConnView, now_ms: u64) -> bool {
    &&& u.user_id == id
    &&& u.addr@ == v.addr
    &&& u.connected_at_ms == v.connected_at_ms
    &&& u.last_heartbeat_ms == v.last_heartbeat_ms
    &&& u.uptime_seconds == seconds_between(v.connected_at_ms, now_ms)
    &&& u.connected_timestamp == (v.connected_at_ms / 1000) as i64
    &&& u.last_heartbeat_timestamp == (v.last_heartbeat_ms / 1000) as i64
}

/// The registry of open connections.
pub struct ConnectionService {
    records: Vec<ConnectionRecord>,
    next_user_id: u32,
    max_connections: u32,
    server_start_ms: u64,
    stats: ConnectionStats,
}

impl ConnectionService {
    /// The open connections by user id.
    pub closed spec fn connections(&self) -> Map<u32, ConnView> {
        records_map(self.records@)
    }

    /// The id the next anonymous connection gets.
    pub closed spec fn next_id(&self) -> u32 {
        self.next_user_id
    }

    pub closed spec fn max(&self) -> u32 {
        self.max_connections
    }

    pub closed spec fn started_at(&self) -> u64 {
        self.server_start_ms
    }

    pub closed spec fn stats_of(&self) -> ConnectionStats {
        self.stats
    }

    pub closed spec fn wf(&self) -> bool {
        sorted_by_id(self.records@)
    }

    /// A registry for at most `max_connections` connections, started at
    /// `now_ms`; ids start at 1.
    pub fn new(max_connections: u32, now_ms: u64) -> (s: Self)
        ensures
            s.wf(),
            s.connections() == Map::<u32, ConnView>::empty(),
            s.next_id() == 1,
            s.max() == max_connections,
            s.started_at() == now_ms,
            s.stats_of() == (ConnectionStats {
                total_connections: 0,
                current_connections: 0,
                peak_connections: 0,
                total_messages: 0,
                failed_connections: 0,
                timeout_disconnections: 0,
            }),
    {
        let s = ConnectionService {
            records: Vec::new(),
            next_user_id: 1,
            max_connections,
            server_start_ms: now_ms,
            stats: ConnectionStats {
                total_connections: 0,
                current_connections: 0,
                peak_connections: 0,
                total_messages: 0,
                failed_connections: 0,
                timeout_disconnections: 0,
            },
        };
        assert(s.connections() =~= Map::<u32, ConnView>::empty());
        s
    }

    /// Where `id` is, or where it would go.
    fn locate(&self, id: u32) -> (r: (bool, usize))
        requires
            self.wf(),
        ensures
            r.1 <= self.records@.len(),
            forall|k: int| 0 <= k < r.1 ==> self.records@[k].user_id < id,
            r.0 ==> r.1 < self.records@.len() && self.records@[r.1 as int].user_id == id,
            !r.0 ==> forall|k: int| r.1 <= k < self.records@.len() ==> self.records@[k].user_id > id,
    {
        let mut i: usize = 0;
        while i < self.records.len() && self.records[i].user_id < id
            invariant
                i <= self.records@.len(),
                forall|k: int| 0 <= k < i ==> self.records@[k].user_id < id,
            decreases self.records@.len() - i,
        {
            i = i + 1;
        }
        if i < self.records.len() && self.records[i].user_id == id {
            (true, i)
        } else {
            proof {
                assert forall|k: int| i <= k < self.records@.len() implies self.records@[k].user_id > id by {
                    if k > i {
                        assert(self.records@[i as int].user_id < self.records@[k].user_id);
                    }
                }
            }
            (false, i)
        }
    }

    proof fn lemma_locate_absent(&self, id: u32, pos: int)
        requires
            self.wf(),
            0 <= pos <= self.records@.len(),
            forall|k: int| 0 <= k < pos ==> self.records@[k].user_id < id,
            forall|k: int| pos <= k < self.records@.len() ==> self.records@[k].user_id > id,
        ensures
            !self.connections().dom().contains(id),
    {
        if has_id(self.records@, id) {
            let k = choose|k: int| 0 <= k < self.records@.len() && self.records@[k].user_id == id;
            assert(k < pos || k >= pos);
        }
    }

    /// Registers `r`, replacing the record of its user id.
    fn put_record(&mut self, r: ConnectionRecord)
        requires
            old(self).wf(),
        ensures
            final(self).wf(),
            final(self).connections() == old(self).connections().insert(r.user_id, rec_view(r)),
            final(self).next_id() == old(self).next_id(),
            final(self).max() == old(self).max(),
            final(self).started_at() == old(self).started_at(),
            final(self).stats_of() == old(self).stats_of(),
    {
        let (found, pos) = self.locate(r.user_id);
        let ghost recs = self.records@;
        if found {
            proof {
                lemma_replace_at(recs, pos as int, r);
            }
            self.records.set(pos, r);
        } else {
            proof {
                lemma_insert_at(recs, pos as int, r);
            }
            self.records.insert(pos, r);
        }
    }

    /// Drops the record of `id`, if there is one; says whether there was.
    fn take_record(&mut self, id: u32) -> (removed: bool)
        requires
            old(self).wf(),
        ensures
            final(self).wf(),
            removed == old(self).connections().dom().contains(id),
            final(self).connections() == old(self).connections().remove(id),
            final(self).next_id() == old(self).next_id(),
            final(self).max() == old(self).max(),
            final(self).started_at() == old(self).started_at(),
            final(self).stats_of() == old(self).stats_of(),
    {
        let (found, pos) = self.locate(id);
        let ghost recs = self.records@;
        if found {
            proof {
                lemma_remove_at(recs, pos as int);
                lemma_index_unique(recs, pos as int);
            }
            self.records.remove(pos);
            true
        } else {
            proof {
                self.lemma_locate_absent(id, pos as int);
                assert(self.connections().remove(id) =~= self.connections());
            }
            false
        }
    }

    /// The number of open connections.
    pub fn get_connection_count(&self) -> (n: usize)
        requires
            self.wf(),
        ensures
            n == self.connections().dom().len(),
    {
        proof {
            lemma_map_len(self.records@);
        }
        self.records.len()
    }

    fn count_connect(&mut self)
        ensures
            final(self).stats_of() == after_connect(old(self).stats_of()),
            final(self).records@ == old(self).records@,
            final(self).next_user_id == old(self).next_user_id,
            final(self).max_connections == old(self).max_connections,
            final(self).server_start_ms == old(self).server_start_ms,
    {
        self.stats.total_connections = self.stats.total_connections.wrapping_add(1);
        self.stats.current_connections = self.stats.current_connections.wrapping_add(1);
        if self.stats.current_connections > self.stats.peak_connections {
            self.stats.peak_connections = self.stats.current_connections;
        }
    }

    fn count_disconnect(&mut self, n: u32)
        ensures
            final(self).stats_of() == after_disconnect(old(self).stats_of(), n),
            final(self).records@ == old(self).records@,
            final(self).next_user_id == old(self).next_user_id,
            final(self).max_connections == old(self).max_connections,
            final(self).server_start_ms == old(self).server_start_ms,
    {
        self.stats.current_connections = self.stats.current_connections.saturating_sub(n);
    }

    /// Admits a connection from `addr` under the next user id, unless the
    /// registry is full.
    pub fn handle_new_connection(&mut self, addr: String, now_ms: u64) -> (r: Result<u32, ConnectionError>)
        requires
            old(self).wf(),
            old(self).connections().dom().len() < old(self).max() ==> old(self).next_id() < u32::MAX,
        ensures
            final(self).wf(),
            old(self).connections().dom().len() <= old(self).max() ==> final(self).connections().dom().len()
                <= final(self).max(),
            final(self).max() == old(self).max(),
            final(self).started_at() == old(self).started_at(),
            old(self).connections().dom().len() >= old(self).max() ==> {
                &&& r == Err::<u32, ConnectionError>(ConnectionError::ServerFull)
                &&& final(self).connections() == old(self).connections()
                &&& final(self).next_id() == old(self).next_id()
                &&& final(self).stats_of() == old(self).stats_of()
            },
            old(self).connections().dom().len() < old(self).max() ==> {
                &&& r == Ok::<u32, ConnectionError>(old(self).next_id())
                &&& final(self).next_id() == old(self).next_id() + 1
                &&& final(self).connections() == old(self).connections().insert(
                    old(self).next_id(),
                    ConnView { addr: addr@, connected_at_ms: now_ms, last_heartbeat_ms: now_ms },
                )
                &&& final(self).stats_of() == after_connect(old(self).stats_of())
            },
    {
        let count = self.get_connection_count();
        if count >= self.max_connections as usize {
            return Err(ConnectionError::ServerFull);
        }
        let user_id = self.next_user_id;
        self.next_user_id = self.next_user_id + 1;
        self.put_record(
            ConnectionRecord { user_id, addr, connected_at_ms: now_ms, last_heartbeat_ms: now_ms },
        );
        proof {
            lemma_map_len(old(self).records@);
            lemma_map_len(self.records@);
            lemma_insert_len(old(self).connections(), user_id);
        }
        self.count_connect();
        Ok(user_id)
    }

    /// Admits a connection from `addr` under the user id the client gave,
    /// unless the registry is full; an earlier connection of that id is
    /// dropped first.
    pub fn handle_new_connection_with_id(&mut self, addr: String, user_id: u32, now_ms: u64) -> (r: Result<u32, ConnectionError>)
        requires
            old(self).wf(),
        ensures
            final(self).wf(),
            old(self).connections().dom().len() <= old(self).max() ==> final(self).connections().dom().len()
                <= final(self).max(),
            final(self).max() == old(self).max(),
            final(self).started_at() == old(self).started_at(),
            final(self).next_id() == old(self).next_id(),
            old(self).connections().dom().len() >= old(self).max() ==> {
                &&& r == Err::<u32, ConnectionError>(ConnectionError::ServerFull)
                &&& final(self).connections() == old(self).connections()
                &&& final(self).stats_of() == old(self).stats_of()
            },
            old(self).connections().dom().len() < old(self).max() ==> {
                &&& r == Ok::<u32, ConnectionError>(user_id)
                &&& final(self).connections() == old(self).connections().insert(
                    user_id,
                    ConnView { addr: addr@, connected_at_ms: now_ms, last_heartbeat_ms: now_ms },
                )
                &&& final(self).stats_of() == after_connect(
                    if old(self).connections().dom().contains(user_id) {
                        after_disconnect(old(self).stats_of(), 1)
                    } else {
                        old(self).stats_of()
                    },
                )
            },
    {
        let count = self.get_connection_count();
        if count >= self.max_connections as usize {
            return Err(ConnectionError::ServerFull);
        }
        let removed = self.take_record(user_id);
        if removed {
            self.count_disconnect(1);
        }
        self.put_record(
            ConnectionRecord { user_id, addr, connected_at_ms: now_ms, last_heartbeat_ms: now_ms },
        );
        proof {
            assert(old(self).connections().remove(user_id).insert(
                user_id,
                ConnView { addr: addr@, connected_at_ms: now_ms, last_heartbeat_ms: now_ms },
            ) =~= old(self).connections().insert(
                user_id,
                ConnView { addr: addr@, connected_at_ms: now_ms, last_heartbeat_ms: now_ms },
            ));
        }
        proof {
            lemma_map_len(old(self).records@);
            lemma_map_len(self.records@);
            lemma_insert_len(old(self).connections(), user_id);
        }
        self.count_connect();
        Ok(user_id)
    }

    /// Drops a connection; says whether it was registered.
    pub fn remove_connection(&mut self, user_id: u32) -> (removed: bool)
        requires
            old(self).wf(),
        ensures
            final(self).wf(),
            removed == old(self).connections().dom().contains(user_id),
            final(self).connections() == old(self).connections().remove(user_id),
            final(self).stats_of() == if removed {
                after_disconnect(old(self).stats_of(), 1)
            } else {
                old(self).stats_of()
            },
            final(self).next_id() == old(self).next_id(),
            final(self).max() == old(self).max(),
            final(self).started_at() == old(self).started_at(),
    {
        let removed = self.take_record(user_id);
        if removed {
            self.count_disconnect(1);
        }
        removed
    }
}

impl ConnectionService {
    /// The failed acknowledgement of a new connection: the connection is
    /// dropped and the error is reported at error severity. `detail` is the
    /// send error's text.
    pub fn on_ack_failed(&mut self, user_id: u32, addr: String, detail: &str) -> (report: ErrorReport)
        requires
            old(self).wf(),
        ensures
            final(self).wf(),
            report.context.error matches TcpServerError::Connection { client_id, addr: a, message }
                && client_id == Some(user_id) && a == Some(addr) && message@
                == "연결 확인 메시지 전송 실패: "@ + detail@,
            report.context.severity == ErrorSeverity::Error,
            report.context.component@ == "ConnectionService"@,
            report.context.operation@ == "send_ack_message"@,
            final(self).connections() == old(self).connections().remove(user_id),
            final(self).stats_of() == if old(self).connections().dom().contains(user_id) {
                after_disconnect(old(self).stats_of(), 1)
            } else {
                old(self).stats_of()
            },
            final(self).next_id() == old(self).next_id(),
            final(self).max() == old(self).max(),
            final(self).started_at() == old(self).started_at(),
    {
        let mut message = String::from_str("연결 확인 메시지 전송 실패: ");
        message.append(detail);
        let error = TcpServerError::connection_error(Some(user_id), Some(addr), message.as_str());
        let report = ErrorHandler::handle_error(error, ErrorSeverity::Error, "ConnectionService", "send_ack_message");
        self.remove_connection(user_id);
        report
    }

    /// A message arrived from `user_id` at `now_ms` (wall-clock milliseconds).
    /// Every message is counted and is to be forwarded to the broadcast
    /// channel; a heartbeat of a registered connection also renews it and
    /// is answered with the server time, which is returned.
    pub fn on_message(&mut self, user_id: u32, message: &GameMessage, now_ms: u64) -> (reply: Option<GameMessage>)
        requires
            old(self).wf(),
        ensures
            final(self).wf(),
            final(self).stats_of() == after_messages(old(self).stats_of(), 1),
            final(self).next_id() == old(self).next_id(),
            final(self).max() == old(self).max(),
            final(self).started_at() == old(self).started_at(),
            (*message is HeartBeat && old(self).connections().dom().contains(user_id)) ==> {
                &&& reply == Some(GameMessage::HeartBeatResponse { timestamp: (now_ms / 1000) as i64 })
                &&& final(self).connections() == old(self).connections().insert(
                    user_id,
                    ConnView { last_heartbeat_ms: now_ms, ..old(self).connections()[user_id] },
                )
            },
            !(*message is HeartBeat && old(self).connections().dom().contains(user_id)) ==> {
                &&& reply is None
                &&& final(self).connections() == old(self).connections()
            },
    {
        let is_heartbeat = match message {
            GameMessage::HeartBeat => true,
            _ => false,
        };
        let mut reply = None;
        if is_heartbeat {
            let (found, pos) = self.locate(user_id);
            if found {
                let ghost recs = self.records@;
                let old_rec = &self.records[pos];
                let rec = ConnectionRecord {
                    user_id,
                    addr: old_rec.addr.clone(),
                    connected_at_ms: old_rec.connected_at_ms,
                    last_heartbeat_ms: now_ms,
                };
                proof {
                    lemma_replace_at(recs, pos as int, rec);
                    lemma_index_unique(recs, pos as int);
                }
                self.records.set(pos, rec);
                let secs: u64 = now_ms / 1000;
                reply = Some(GameMessage::HeartBeatResponse { timestamp: secs as i64 });
            } else {
                proof {
                    self.lemma_locate_absent(user_id, pos as int);
                }
            }
        }
        self.stats.total_messages = self.stats.total_messages.wrapping_add(1);
        reply
    }

    /// The failed answer to a heartbeat, reported at warning severity; the
    /// caller then closes the connection (`on_reader_closed`). `detail` is
    /// the send error's text.
    pub fn heartbeat_reply_failed(user_id: u32, detail: &str) -> (report: ErrorReport)
        ensures
            report.context.error matches TcpServerError::Heartbeat { client_id, operation, message }
                && client_id == Some(user_id) && operation@ == "send_response"@ && message@
                == detail@,
            report.context.severity == ErrorSeverity::Warning,
            report.context.component@ == "ConnectionService"@,
            report.context.operation@ == "heartbeat_response"@,
    {
        let error = TcpServerError::heartbeat_error(Some(user_id), "send_response", detail);
        ErrorHandler::handle_error(error, ErrorSeverity::Warning, "ConnectionService", "heartbeat_response")
    }

    /// The connection's reader ended: it is dropped and the current count
    /// goes down by one (stopping at zero), registered or not.
    pub fn on_reader_closed(&mut self, user_id: u32)
        requires
            old(self).wf(),
        ensures
            final(self).wf(),
            final(self).connections() == old(self).connections().remove(user_id),
            final(self).stats_of() == after_disconnect(old(self).stats_of(), 1),
            final(self).next_id() == old(self).next_id(),
            final(self).max() == old(self).max(),
            final(self).started_at() == old(self).started_at(),
    {
        self.take_record(user_id);
        self.count_disconnect(1);
    }

    /// Whether `user_id` is connected.
    pub fn has_user(&self, user_id: u32) -> (r: bool)
        requires
            self.wf(),
        ensures
            r == self.connections().dom().contains(user_id),
    {
        let (found, pos) = self.locate(user_id);
        if found {
            proof {
                lemma_index_unique(self.records@, pos as int);
            }
        } else {
            proof {
                self.lemma_locate_absent(user_id, pos as int);
            }
        }
        found
    }

    /// Checks that a message can be sent to `user_id`.
    pub fn check_recipient(&self, user_id: u32) -> (r: Result<(), ConnectionError>)
        requires
            self.wf(),
        ensures
            self.connections().dom().contains(user_id) ==> r is Ok,
            !self.connections().dom().contains(user_id) ==> r == Err::<(), ConnectionError>(
                ConnectionError::UserNotFound(user_id),
            ),
    {
        if self.has_user(user_id) {
            Ok(())
        } else {
            Err(ConnectionError::UserNotFound(user_id))
        }
    }

    /// Counts `n` delivered messages.
    pub fn record_messages_sent(&mut self, n: u64)
        ensures
            final(self).stats_of() == after_messages(old(self).stats_of(), n),
            final(self).connections() == old(self).connections(),
            final(self).next_id() == old(self).next_id(),
            final(self).max() == old(self).max(),
            final(self).started_at() == old(self).started_at(),
            old(self).wf() ==> final(self).wf(),
    {
        self.stats.total_messages = self.stats.total_messages.wrapping_add(n);
    }

    /// The connected user ids in increasing order.
    pub fn user_ids(&self) -> (ids: Vec<u32>)
        requires
            self.wf(),
        ensures
            ids@.len() == self.connections().dom().len(),
            forall|i: int, j: int| 0 <= i < j < ids@.len() ==> ids@[i] < ids@[j],
            forall|id: u32| ids@.contains(id) <==> self.connections().dom().contains(id),
    {
        proof {
            lemma_map_len(self.records@);
        }
        let mut ids: Vec<u32> = Vec::new();
        let mut i: usize = 0;
        while i < self.records.len()
            invariant
                i <= self.records@.len(),
                sorted_by_id(self.records@),
                ids@.len() == i,
                forall|k: int| 0 <= k < i ==> ids@[k] == self.records@[k].user_id,
            decreases self.records@.len() - i,
        {
            ids.push(self.records[i].user_id);
            i = i + 1;
        }
        proof {
            assert forall|id: u32| ids@.contains(id) <==> self.connections().dom().contains(id) by {
                if ids@.contains(id) {
                    let k = choose|k: int| 0 <= k < ids@.len() && ids@[k] == id;
                    assert(self.records@[k].user_id == id);
                }
                if has_id(self.records@, id) {
                    let k = choose|k: int| 0 <= k < self.records@.len() && self.records@[k].user_id == id;
                    assert(ids@[k] == id);
                }
            }
        }
        ids
    }

    /// Drops every connection.
    pub fn close_all_connections(&mut self)
        ensures
            final(self).wf(),
            final(self).connections() == Map::<u32, ConnView>::empty(),
            final(self).stats_of() == (ConnectionStats { current_connections: 0, ..old(self).stats_of() }),
            final(self).next_id() == old(self).next_id(),
            final(self).max() == old(self).max(),
            final(self).started_at() == old(self).started_at(),
    {
        self.records = Vec::new();
        self.stats.current_connections = 0;
        assert(self.connections() =~= Map::<u32, ConnView>::empty());
    }

    /// A snapshot of the counters.
    pub fn get_connection_stats(&self) -> (s: ConnectionStats)
        ensures
            s == self.stats_of(),
    {
        self.stats
    }

    /// Whole seconds since the registry started.
    pub fn get_uptime_seconds(&self, now_ms: u64) -> (s: u64)
        ensures
            s == seconds_between(self.started_at(), now_ms),
    {
        if now_ms >= self.server_start_ms {
            (now_ms - self.server_start_ms) / 1000
        } else {
            0
        }
    }
}

fn report_of(r: &ConnectionRecord, now_ms: u64) -> (u: UserInfo)
    ensures
        reports(u, r.user_id, rec_view(*r), now_ms),
{
    let uptime = if now_ms >= r.connected_at_ms {
        (now_ms - r.connected_at_ms) / 1000
    } else {
        0
    };
    let c: u64 = r.connected_at_ms / 1000;
    let h: u64 = r.last_heartbeat_ms / 1000;
    UserInfo {
        user_id: r.user_id,
        addr: r.addr.clone(),
        connected_at_ms: r.connected_at_ms,
        last_heartbeat_ms: r.last_heartbeat_ms,
        uptime_seconds: uptime,
        connected_timestamp: c as i64,
        last_heartbeat_timestamp: h as i64,
    }
}

impl ConnectionService {
    /// What is known of `user_id`'s connection at `now_ms`.
    pub fn get_user_info(&self, user_id: u32, now_ms: u64) -> (r: Option<UserInfo>)
        requires
            self.wf(),
        ensures
            match r {
                Some(u) => self.connections().dom().contains(user_id) && reports(
                    u,
                    user_id,
                    self.connections()[user_id],
                    now_ms,
                ),
                None => !self.connections().dom().contains(user_id),
            },
    {
        let (found, pos) = self.locate(user_id);
        if found {
            proof {
                lemma_index_unique(self.records@, pos as int);
            }
            Some(report_of(&self.records[pos], now_ms))
        } else {
            proof {
                self.lemma_locate_absent(user_id, pos as int);
            }
            None
        }
    }

    /// Every connection at `now_ms`, by increasing user id.
    pub fn get_all_users(&self, now_ms: u64) -> (v: Vec<UserInfo>)
        requires
            self.wf(),
        ensures
            v@.len() == self.connections().dom().len(),
            forall|i: int, j: int| 0 <= i < j < v@.len() ==> v@[i].user_id < v@[j].user_id,
            forall|i: int|
                0 <= i < v@.len() ==> self.connections().dom().contains(#[trigger] v@[i].user_id)
                    && reports(v@[i], v@[i].user_id, self.connections()[v@[i].user_id], now_ms),
            forall|id: u32|
                self.connections().dom().contains(id) ==> exists|i: int|
                    0 <= i < v@.len() && #[trigger] v@[i].user_id == id,
    {
        proof {
            lemma_map_len(self.records@);
        }
        let mut v: Vec<UserInfo> = Vec::new();
        let mut i: usize = 0;
        while i < self.records.len()
            invariant
                i <= self.records@.len(),
                sorted_by_id(self.records@),
                v@.len() == i,
                forall|k: int|
                    0 <= k < i ==> #[trigger] v@[k].user_id == self.records@[k].user_id && reports(
                        v@[k],
                        self.records@[k].user_id,
                        rec_view(self.records@[k]),
                        now_ms,
                    ),
            decreases self.records@.len() - i,
        {
            let u = report_of(&self.records[i], now_ms);
            let ghost before = v@;
            v.push(u);
            proof {
                assert forall|k: int| 0 <= k < i + 1 implies #[trigger] v@[k].user_id
                    == self.records@[k].user_id && reports(
                    v@[k],
                    self.records@[k].user_id,
                    rec_view(self.records@[k]),
                    now_ms,
                ) by {
                    if k < i {
                        assert(v@[k] == before[k]);
                    }
                }
            }
            i = i + 1;
        }
        proof {
            assert forall|k: int| 0 <= k < v@.len() implies self.connections().dom().contains(
                #[trigger] v@[k].user_id,
            ) && reports(v@[k], v@[k].user_id, self.connections()[v@[k].user_id], now_ms) by {
                lemma_index_unique(self.records@, k);
            }
            assert forall|id: u32| self.connections().dom().contains(id) implies exists|k: int|
                0 <= k < v@.len() && #[trigger] v@[k].user_id == id by {
                let k = choose|k: int| 0 <= k < self.records@.len() && self.records@[k].user_id == id;
                assert(v@[k].user_id == id);
            }
        }
        v
    }
}

/// The connections that have not timed out at `now_ms`.
pub open spec fn live_at(m: Map<u32, ConnView>, now_ms: u64) -> Map<u32, ConnView> {
    Map::new(
        |id: u32| m.dom().contains(id) && !timed_out(m[id].last_heartbeat_ms, now_ms),
        |id: u32| m[id],
    )
}

/// The counters after `n` connections timed out.
pub open spec fn after_timeouts(s: ConnectionStats, n: nat) -> ConnectionStats {
    after_disconnect(
        ConnectionStats { timeout_disconnections: wrap_add_u64(s.timeout_disconnections, n as int), ..s },
        (n % 0x1_0000_0000) as u32,
    )
}

impl ConnectionService {
    /// Drops every connection whose last heartbeat is more than
    /// `HEARTBEAT_TIMEOUT_MS` before `now_ms`, and returns their user ids in
    /// increasing order.
    pub fn cleanup_timeout_connections(&mut self, now_ms: u64) -> (removed: Vec<u32>)
        requires
            old(self).wf(),
        ensures
            final(self).wf(),
            final(self).connections() == live_at(old(self).connections(), now_ms),
            forall|i: int, j: int| 0 <= i < j < removed@.len() ==> removed@[i] < removed@[j],
            forall|id: u32|
                removed@.contains(id) <==> old(self).connections().dom().contains(id) && timed_out(
                    old(self).connections()[id].last_heartbeat_ms,
                    now_ms,
                ),
            final(self).stats_of() == if removed@.len() > 0 {
                after_timeouts(old(self).stats_of(), removed@.len())
            } else {
                old(self).stats_of()
            },
            final(self).next_id() == old(self).next_id(),
            final(self).max() == old(self).max(),
            final(self).started_at() == old(self).started_at(),
    {
        let ghost recs = self.records@;
        let mut kept: Vec<ConnectionRecord> = Vec::new();
        let mut removed: Vec<u32> = Vec::new();
        let mut i: usize = 0;
        while i < self.records.len()
            invariant
                recs == self.records@,
                sorted_by_id(recs),
                i <= recs.len(),
                sorted_by_id(kept@),
                forall|j: int|
                    0 <= j < kept@.len() ==> has_id(recs, #[trigger] kept@[j].user_id) && id_index(recs, kept@[j].user_id) < i
                        && kept@[j] == recs[id_index(recs, kept@[j].user_id)] && !timed_out(kept@[j].last_heartbeat_ms, now_ms),
                forall|k: int|
                    0 <= k < i && !timed_out(recs[k].last_heartbeat_ms, now_ms) ==> has_id(kept@, #[trigger] recs[k].user_id),
                forall|j: int| 0 <= j < kept@.len() ==> #[trigger] kept@[j].user_id < (if i < recs.len() { recs[i as int].user_id as int } else { u32::MAX + 1 }),
                forall|a: int, b: int| 0 <= a < b < removed@.len() ==> removed@[a] < removed@[b],
                forall|j: int|
                    0 <= j < removed@.len() ==> has_id(recs, #[trigger] removed@[j]) && id_index(recs, removed@[j]) < i
                        && timed_out(recs[id_index(recs, removed@[j])].last_heartbeat_ms, now_ms),
                forall|k: int|
                    0 <= k < i && timed_out(recs[k].last_heartbeat_ms, now_ms) ==> removed@.contains(#[trigger] recs[k].user_id),
                forall|j: int| 0 <= j < removed@.len() ==> #[trigger] removed@[j] < (if i < recs.len() { recs[i as int].user_id as int } else { u32::MAX + 1 }),
            decreases recs.len() - i,
        {
            let r = &self.records[i];
            let ghost before_kept = kept@;
            let ghost before_removed = removed@;
            if now_ms > r.last_heartbeat_ms && now_ms - r.last_heartbeat_ms > HEARTBEAT_TIMEOUT_MS {
                removed.push(r.user_id);
                proof {
                    assert(removed@[before_removed.len() as int] == recs[i as int].user_id);
                    lemma_index_unique(recs, i as int);
                    assert forall|j: int| 0 <= j < removed@.len() implies has_id(recs, #[trigger] removed@[j]) && id_index(recs, removed@[j]) < i + 1
                        && timed_out(recs[id_index(recs, removed@[j])].last_heartbeat_ms, now_ms) by {
                        if j < before_removed.len() {
                            assert(removed@[j] == before_removed[j]);
                        } else {
                            assert(removed@[j] == recs[i as int].user_id);
                        }
                    }
                    assert forall|k: int| 0 <= k < i + 1 && timed_out(recs[k].last_heartbeat_ms, now_ms) implies removed@.contains(#[trigger] recs[k].user_id) by {
                        if k < i {
                            let m = choose|m: int| 0 <= m < before_removed.len() && before_removed[m] == recs[k].user_id;
                            assert(removed@[m] == before_removed[m]);
                        } else {
                            assert(removed@[before_removed.len() as int] == recs[k].user_id);
                        }
                    }
                    assert forall|k: int| 0 <= k < i + 1 && !timed_out(recs[k].last_heartbeat_ms, now_ms) implies has_id(kept@, #[trigger] recs[k].user_id) by {
                    }
                }
            } else {
                let copy = ConnectionRecord {
                    user_id: r.user_id,
                    addr: r.addr.clone(),
                    connected_at_ms: r.connected_at_ms,
                    last_heartbeat_ms: r.last_heartbeat_ms,
                };
                kept.push(copy);
                proof {
                    assert(kept@[before_kept.len() as int] == recs[i as int]);
                    lemma_index_unique(recs, i as int);
                    assert forall|j: int| 0 <= j < kept@.len() implies has_id(recs, #[trigger] kept@[j].user_id) && id_index(recs, kept@[j].user_id) < i + 1
                        && kept@[j] == recs[id_index(recs, kept@[j].user_id)] && !timed_out(kept@[j].last_heartbeat_ms, now_ms) by {
                        if j < before_kept.len() {
                            assert(kept@[j] == before_kept[j]);
                        } else {
                            assert(kept@[j] == recs[i as int]);
                        }
                    }
                    assert forall|k: int| 0 <= k < i + 1 && !timed_out(recs[k].last_heartbeat_ms, now_ms) implies has_id(kept@, #[trigger] recs[k].user_id) by {
                        if k < i {
                            let m = choose|m: int| 0 <= m < before_kept.len() && before_kept[m].user_id == recs[k].user_id;
                            assert(kept@[m] == before_kept[m]);
                        } else {
                            assert(kept@[before_kept.len() as int].user_id == recs[k].user_id);
                        }
                    }
                    assert forall|a: int, b: int| 0 <= a < b < kept@.len() implies kept@[a].user_id < kept@[b].user_id by {
                        if b < before_kept.len() {
                            assert(kept@[a] == before_kept[a]);
                            assert(kept@[b] == before_kept[b]);
                        } else {
                            assert(kept@[a] == before_kept[a]);
                        }
                    }
                }
            }
            proof {
                let bound = if i + 1 < recs.len() { recs[i + 1].user_id as int } else { u32::MAX + 1 };
                if i + 1 < recs.len() {
                    assert(recs[i as int].user_id < recs[i + 1].user_id);
                }
                assert forall|j: int| 0 <= j < kept@.len() implies #[trigger] kept@[j].user_id < bound by {
                    let k = id_index(recs, kept@[j].user_id);
                    if k < i && i + 1 < recs.len() {
                        assert(recs[k].user_id < recs[i + 1].user_id);
                    }
                }
                assert forall|j: int| 0 <= j < removed@.len() implies #[trigger] removed@[j] < bound by {
                    let k = id_index(recs, removed@[j]);
                    if k < i && i + 1 < recs.len() {
                        assert(recs[k].user_id < recs[i + 1].user_id);
                    }
                }
            }
            i = i + 1;
        }
        proof {
            let old_map = records_map(recs);
            let new_map = records_map(kept@);
            let target = live_at(old_map, now_ms);
            assert forall|id: u32| new_map.dom().contains(id) <==> target.dom().contains(id) by {
                if has_id(kept@, id) {
                    let j = choose|j: int| 0 <= j < kept@.len() && kept@[j].user_id == id;
                    assert(has_id(recs, kept@[j].user_id));
                }
                if target.dom().contains(id) {
                    let k = id_index(recs, id);
                    assert(recs[k].user_id == id);
                }
            }
            assert forall|id: u32| #[trigger] new_map.dom().contains(id) implies new_map[id] == target[id] by {
                let j = id_index(kept@, id);
                lemma_index_unique(kept@, j);
                assert(has_id(recs, kept@[j].user_id));
            }
            assert(new_map =~= target);
            assert forall|id: u32| removed@.contains(id) <==> old_map.dom().contains(id) && timed_out(old_map[id].last_heartbeat_ms, now_ms) by {
                if removed@.contains(id) {
                    let j = choose|j: int| 0 <= j < removed@.len() && removed@[j] == id;
                    assert(has_id(recs, removed@[j]));
                }
                if old_map.dom().contains(id) && timed_out(old_map[id].last_heartbeat_ms, now_ms) {
                    let k = id_index(recs, id);
                    assert(recs[k].user_id == id);
                }
            }
        }
        self.records = kept;
        let n = removed.len();
        if n > 0 {
            self.stats.timeout_disconnections = self.stats.timeout_disconnections.wrapping_add(n as u64);
            #[verifier::truncate]
            let n32: u32 = (n as u64 % 0x1_0000_0000u64) as u32;
            self.stats.current_connections = self.stats.current_connections.saturating_sub(n32);
        }
        removed
    }
}

} // verus!
