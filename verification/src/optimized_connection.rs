//! The lean connection registry: admission against the connection limit,
//! id allocation, counters that wrap as the server's atomic counters do,
//! removal, and the recipients of a broadcast. The connections are held in a
//! `dashmap::DashMap`, and removed ones are handed to a bounded
//! `crossbeam` queue for reuse. Sockets and the sending of messages stay
//! with the caller.

use vstd::prelude::*;
use dashmap::DashMap;
use crossbeam::queue::ArrayQueue;

verus! {

/// A connection heartbeat older than this many seconds has timed out
/// (30 minutes).
pub const OPTIMIZED_HEARTBEAT_TIMEOUT_SECS: u64 = 1800;

/// One open connection. Times are whole seconds of the caller's clock.
#[derive(Debug, Clone)]
pub struct OptimizedUserConnection {
    pub user_id: u32,
    pub addr: String,
    pub last_heartbeat: u64,
    pub connected_at: u64,
}

impl OptimizedUserConnection {
    /// A connection of `user_id` from `addr`, opened at `now_secs`.
    pub fn new(user_id: u32, addr: String, now_secs: u64) -> (c: Self)
        ensures
            c.user_id == user_id,
            c.addr == addr,
            c.last_heartbeat == now_secs,
            c.connected_at == now_secs,
    {
        OptimizedUserConnection { user_id, addr, last_heartbeat: now_secs, connected_at: now_secs }
    }

    /// Records a heartbeat at `now_secs`.
    pub fn update_heartbeat(&mut self, now_secs: u64)
        ensures
            final(self).last_heartbeat == now_secs,
            final(self).user_id == old(self).user_id,
            final(self).addr == old(self).addr,
            final(self).connected_at == old(self).connected_at,
    {
        self.last_heartbeat = now_secs;
    }

    /// Whether more than 30 minutes passed since the last heartbeat.
    pub fn is_heartbeat_timeout(&self, now_secs: u64) -> (r: bool)
        requires
            now_secs >= self.last_heartbeat,
        ensures
            r == (now_secs - self.last_heartbeat > OPTIMIZED_HEARTBEAT_TIMEOUT_SECS),
    {
        now_secs - self.last_heartbeat > OPTIMIZED_HEARTBEAT_TIMEOUT_SECS
    }
}

/// Connection counters; they wrap around as atomic adds do.
#[derive(Debug, Clone, Copy, PartialEq, Eq)]
pub struct OptimizedConnectionStats {
    pub total_connections: u64,
    pub current_connections: u32,
    pub peak_connections: u32,
    pub total_messages: u64,
    pub failed_connections: u64,
    pub timeout_disconnections: u64,
}

/// Every counter at zero.
pub open spec fn zero_stats() -> OptimizedConnectionStats {
    OptimizedConnectionStats {
        total_connections: 0,
        current_connections: 0,
        peak_connections: 0,
        total_messages: 0,
        failed_connections: 0,
        timeout_disconnections: 0,
    }
}

impl OptimizedConnectionStats {
    /// All counters at zero.
    pub fn default() -> (s: Self)
        ensures
            s == zero_stats(),
    {
        OptimizedConnectionStats {
            total_connections: 0,
            current_connections: 0,
            peak_connections: 0,
            total_messages: 0,
            failed_connections: 0,
            timeout_disconnections: 0,
        }
    }
}

/// Why a connection was refused.
#[derive(Debug, Clone, Copy, PartialEq, Eq)]
pub enum OptimizedConnectionError {
    /// The connection count reached the limit (the count, the limit).
    ServerFull { current: u32, max: u32 },
}

/// `a + b` modulo 2^64.
pub open spec fn wrapping_u64(a: u64, b: int) -> u64 {
    ((a + b) % 0x1_0000_0000_0000_0000) as u64
}

/// `a + b` modulo 2^32.
pub open spec fn wrapping_u32(a: u32, b: int) -> u32 {
    ((a + b) % 0x1_0000_0000) as u32
}

/// The bounded queue of the `crossbeam` crate.
#[verifier::external_type_specification]
#[verifier::external_body]
#[verifier::reject_recursive_types(T)]
pub struct ExArrayQueue<T>(ArrayQueue<T>);

/// The connections by user id.
pub type ConnectionTable = DashMap<u32, OptimizedUserConnection>;

/// The queue of removed connections kept for reuse.
pub type ConnectionPool = ArrayQueue<OptimizedUserConnection>;

/// The connections a table holds.
pub uninterp spec fn conn_table_view(t: ConnectionTable) -> Map<u32, OptimizedUserConnection>;

/// How many connections a pool holds.
pub uninterp spec fn pool_len(q: ConnectionPool) -> nat;

/// How many connections a pool can hold.
pub uninterp spec fn pool_capacity(q: ConnectionPool) -> nat;

/// `DashMap::with_capacity_and_shard_amount(capacity, 16)`: an empty
/// table. Capacities that overflow the shard rounding are left out.
#[verifier::external_body]
fn conn_table_new(capacity: usize) -> (t: ConnectionTable)
    requires
        capacity <= usize::MAX / 2,
    ensures
        conn_table_view(t).dom().is_empty(),
{
    DashMap::with_capacity_and_shard_amount(capacity, 16)
}

/// `DashMap::get`, with the connection cloned out.
#[verifier::external_body]
fn conn_table_get(t: &ConnectionTable, id: u32) -> (r: Option<OptimizedUserConnection>)
    ensures
        r is Some <==> conn_table_view(*t).contains_key(id),
        r matches Some(c) ==> c == conn_table_view(*t)[id],
{
    t.get(&id).map(|entry| entry.value().clone())
}

/// `DashMap::insert`: stores `conn` under `id`, replacing what was there.
#[verifier::external_body]
fn conn_table_insert(t: &mut ConnectionTable, id: u32, conn: OptimizedUserConnection)
    ensures
        conn_table_view(*final(t)) == conn_table_view(*old(t)).insert(id, conn),
{
    t.insert(id, conn);
}

/// `DashMap::remove`: takes out the connection under `id`, if any.
#[verifier::external_body]
fn conn_table_remove(t: &mut ConnectionTable, id: u32) -> (r: Option<OptimizedUserConnection>)
    ensures
        conn_table_view(*final(t)) == conn_table_view(*old(t)).remove(id),
        r is Some <==> conn_table_view(*old(t)).contains_key(id),
        r matches Some(c) ==> c == conn_table_view(*old(t))[id],
{
    t.remove(&id).map(|(_, c)| c)
}

/// `DashMap::len`: how many connections the table holds.
#[verifier::external_body]
fn conn_table_len(t: &ConnectionTable) -> (n: usize)
    ensures
        n == conn_table_view(*t).dom().len(),
{
    t.len()
}

/// The user ids, each once, in the table's iteration order (which the
/// table's hasher decides, so it is not stated).
#[verifier::external_body]
fn conn_table_keys(t: &ConnectionTable) -> (ids: Vec<u32>)
    ensures
        ids@.no_duplicates(),
        ids@.to_set() == conn_table_view(*t).dom(),
{
    t.iter().map(|entry| *entry.key()).collect()
}

/// `ArrayQueue::new(cap)`: an empty queue of `cap` places. A zero or
/// too large capacity, on which it panics, is left out.
#[verifier::external_body]
fn pool_new(cap: usize) -> (q: ConnectionPool)
    requires
        0 < cap <= usize::MAX / 2,
    ensures
        pool_len(q) == 0,
        pool_capacity(q) == cap,
{
    ArrayQueue::new(cap)
}

/// `ArrayQueue::push`: queues `conn` unless the queue is full, in which
/// case `conn` is handed back (and dropped here); tells whether it was
/// queued.
#[verifier::external_body]
fn pool_push(q: &mut ConnectionPool, conn: OptimizedUserConnection) -> (queued: bool)
    ensures
        queued == (pool_len(*old(q)) < pool_capacity(*old(q))),
        pool_capacity(*final(q)) == pool_capacity(*old(q)),
        pool_len(*final(q)) == if queued { pool_len(*old(q)) + 1 } else { pool_len(*old(q)) },
{
    q.push(conn).is_ok()
}

/// The lean registry.
pub struct OptimizedConnectionService {
    connections: ConnectionTable,
    next_user_id: u32,
    max_connections: u32,
    server_start_secs: u64,
    connection_stats: OptimizedConnectionStats,
    connection_pool: ConnectionPool,
}

impl OptimizedConnectionService {
    /// The open connections by user id.
    pub closed spec fn connections(&self) -> Map<u32, OptimizedUserConnection> {
        conn_table_view(self.connections)
    }

    /// The id the next connection gets.
    pub closed spec fn next_id(&self) -> u32 {
        self.next_user_id
    }

    pub closed spec fn max(&self) -> u32 {
        self.max_connections
    }

    pub closed spec fn stats_of(&self) -> OptimizedConnectionStats {
        self.connection_stats
    }

    /// How many removed connections the reuse queue holds.
    pub closed spec fn pooled(&self) -> nat {
        pool_len(self.connection_pool)
    }

    /// The table is finite, and the counted connections are at least those
    /// held and at most the limit.
    pub closed spec fn wf(&self) -> bool {
        &&& conn_table_view(self.connections).dom().finite()
        &&& conn_table_view(self.connections).dom().len() <= self.connection_stats.current_connections
        &&& self.connection_stats.current_connections <= self.max_connections
        &&& pool_capacity(self.connection_pool) == self.max_connections
    }

    /// The registry never counts more connections than its limit, nor
    /// holds more than it counts.
    pub proof fn lemma_count_within_limit(&self)
        requires
            self.wf(),
        ensures
            self.connections().dom().len() <= self.stats_of().current_connections,
            self.stats_of().current_connections <= self.max(),
    {
    }

    /// A registry for at most `max_connections` connections, started at
    /// `now_secs`; ids start at 1. A limit of zero, on which the reuse
    /// queue panics, is left out.
    pub fn new(max_connections: u32, now_secs: u64) -> (s: Self)
        requires
            max_connections > 0,
            max_connections <= usize::MAX / 2,
        ensures
            s.wf(),
            s.connections() == Map::<u32, OptimizedUserConnection>::empty(),
            s.next_id() == 1,
            s.max() == max_connections,
            s.stats_of() == zero_stats(),
            s.pooled() == 0,
    {
        let connections = conn_table_new(max_connections as usize);
        let connection_pool = pool_new(max_connections as usize);
        OptimizedConnectionService {
            connections,
            next_user_id: 1,
            max_connections,
            server_start_secs: now_secs,
            connection_stats: OptimizedConnectionStats::default(),
            connection_pool,
        }
    }

    /// Admits a connection from `addr` at `now_secs` while fewer than the
    /// limit are counted: it gets the next id (ids wrap around; a
    /// connection holding a reused id is replaced), and the totals and the
    /// peak are updated.
    pub fn handle_new_connection(&mut self, addr: String, now_secs: u64) -> (r: Result<u32, OptimizedConnectionError>)
        requires
            old(self).wf(),
        ensures
            final(self).wf(),
            final(self).max() == old(self).max(),
            old(self).stats_of().current_connections >= old(self).max() ==> {
                &&& r == Err::<u32, OptimizedConnectionError>(OptimizedConnectionError::ServerFull {
                    current: old(self).stats_of().current_connections,
                    max: old(self).max(),
                })
                &&& final(self).connections() == old(self).connections()
                &&& final(self).stats_of() == old(self).stats_of()
                &&& final(self).next_id() == old(self).next_id()
            },
            old(self).stats_of().current_connections < old(self).max() ==> {
                let id = old(self).next_id();
                let current = (old(self).stats_of().current_connections + 1) as u32;
                &&& r == Ok::<u32, OptimizedConnectionError>(id)
                &&& final(self).next_id() == wrapping_u32(id, 1)
                &&& final(self).connections() == old(self).connections().insert(id, OptimizedUserConnection {
                    user_id: id,
                    addr,
                    last_heartbeat: now_secs,
                    connected_at: now_secs,
                })
                &&& final(self).stats_of() == (OptimizedConnectionStats {
                    total_connections: wrapping_u64(old(self).stats_of().total_connections, 1),
                    current_connections: current,
                    peak_connections: if current > old(self).stats_of().peak_connections {
                        current
                    } else {
                        old(self).stats_of().peak_connections
                    },
                    ..old(self).stats_of()
                })
            },
    {
        let current = self.connection_stats.current_connections;
        if current >= self.max_connections {
            return Err(OptimizedConnectionError::ServerFull { current, max: self.max_connections });
        }
        let user_id = self.next_user_id;
        self.next_user_id = user_id.wrapping_add(1);
        let conn = OptimizedUserConnection::new(user_id, addr, now_secs);
        let ghost before = conn_table_view(self.connections);
        conn_table_insert(&mut self.connections, user_id, conn);
        proof {
            let after = conn_table_view(self.connections);
            if before.contains_key(user_id) {
                assert(after.dom() =~= before.dom());
            } else {
                assert(after.dom() =~= before.dom().insert(user_id));
            }
        }
        self.connection_stats.total_connections = self.connection_stats.total_connections.wrapping_add(1);
        let now_current = current + 1;
        self.connection_stats.current_connections = now_current;
        if now_current > self.connection_stats.peak_connections {
            self.connection_stats.peak_connections = now_current;
        }
        Ok(user_id)
    }

    /// Drops the connection of `user_id`, if there is one, hands it to the
    /// reuse queue (which keeps it while it has room), and counts one
    /// connection less.
    pub fn remove_connection(&mut self, user_id: u32)
        requires
            old(self).wf(),
        ensures
            final(self).wf(),
            final(self).max() == old(self).max(),
            final(self).next_id() == old(self).next_id(),
            final(self).connections() == old(self).connections().remove(user_id),
            old(self).connections().contains_key(user_id) ==> final(self).stats_of() == (OptimizedConnectionStats {
                current_connections: (old(self).stats_of().current_connections - 1) as u32,
                ..old(self).stats_of()
            }),
            !old(self).connections().contains_key(user_id) ==> final(self).stats_of() == old(self).stats_of(),
            final(self).pooled() == if old(self).connections().contains_key(user_id) && old(self).pooled()
                < old(self).max() {
                old(self).pooled() + 1
            } else {
                old(self).pooled()
            },
    {
        let ghost before = conn_table_view(self.connections);
        match conn_table_remove(&mut self.connections, user_id) {
            Some(conn) => {
                proof {
                    assert(conn_table_view(self.connections).dom() =~= before.dom().remove(user_id));
                }
                let _ = pool_push(&mut self.connection_pool, conn);
                self.connection_stats.current_connections = self.connection_stats.current_connections.wrapping_sub(1);
            },
            None => {
                proof {
                    assert(conn_table_view(self.connections) =~= before);
                }
            },
        }
    }

    /// The recipients of a broadcast: every connected user but
    /// `exclude_user`, each once, in the table's order. Every connection
    /// counts as one message sent.
    pub fn broadcast_message(&mut self, exclude_user: Option<u32>) -> (recipients: Vec<u32>)
        requires
            old(self).wf(),
        ensures
            final(self).wf(),
            final(self).connections() == old(self).connections(),
            final(self).next_id() == old(self).next_id(),
            final(self).max() == old(self).max(),
            final(self).stats_of() == (OptimizedConnectionStats {
                total_messages: wrapping_u64(old(self).stats_of().total_messages, old(self).connections().dom().len() as int),
                ..old(self).stats_of()
            }),
            forall|id: u32| #[trigger] recipients@.contains(id) <==> old(self).connections().contains_key(id)
                && exclude_user != Some(id),
            recipients@.no_duplicates(),
    {
        let keys = conn_table_keys(&self.connections);
        let mut out: Vec<u32> = Vec::new();
        let mut k: usize = 0;
        while k < keys.len()
            invariant
                k <= keys@.len(),
                keys@.no_duplicates(),
                out@.no_duplicates(),
                forall|id: u32| #[trigger] out@.contains(id) <==> (exists|j: int|
                    0 <= j < k && #[trigger] keys@[j] == id) && exclude_user != Some(id),
            decreases keys@.len() - k,
        {
            let id = keys[k];
            let skip = match exclude_user {
                Some(x) => x == id,
                None => false,
            };
            let ghost before = out@;
            if !skip {
                proof {
                    if before.contains(id) {
                        let j = choose|j: int| 0 <= j < k && #[trigger] keys@[j] == id;
                        assert(keys@[j] == keys@[k as int]);
                    }
                }
                out.push(id);
            }
            proof {
                assert forall|x: u32| #[trigger] out@.contains(x) <==> (exists|j: int|
                    0 <= j < k + 1 && #[trigger] keys@[j] == x) && exclude_user != Some(x) by {
                    if out@.contains(x) {
                        let t = choose|t: int| 0 <= t < out@.len() && out@[t] == x;
                        if t < before.len() {
                            assert(before[t] == x);
                            assert(before.contains(x));
                        } else {
                            assert(keys@[k as int] == x);
                        }
                    }
                    if (exists|j: int| 0 <= j < k + 1 && #[trigger] keys@[j] == x) && exclude_user != Some(x) {
                        let j = choose|j: int| 0 <= j < k + 1 && #[trigger] keys@[j] == x;
                        if j < k {
                            assert(before.contains(x));
                            let t = choose|t: int| 0 <= t < before.len() && before[t] == x;
                            assert(out@[t] == x);
                        } else {
                            assert(out@[out@.len() - 1] == x);
                        }
                    }
                }
            }
            k = k + 1;
        }
        proof {
            assert forall|id: u32| #[trigger] out@.contains(id) <==> self.connections().contains_key(id)
                && exclude_user != Some(id) by {
                if self.connections().contains_key(id) {
                    assert(keys@.to_set().contains(id));
                    let j = choose|j: int| 0 <= j < keys@.len() && keys@[j] == id;
                    assert(keys@[j] == id);
                }
                if exists|j: int| 0 <= j < keys@.len() && #[trigger] keys@[j] == id {
                    let j = choose|j: int| 0 <= j < keys@.len() && #[trigger] keys@[j] == id;
                    assert(keys@.to_set().contains(id));
                }
            }
        }
        let n = conn_table_len(&self.connections);
        self.connection_stats.total_messages = self.connection_stats.total_messages.wrapping_add(n as u64);
        out
    }

    /// How many connections are counted.
    pub fn get_connection_count(&self) -> (n: usize)
        ensures
            n == self.stats_of().current_connections,
    {
        self.connection_stats.current_connections as usize
    }

    /// The connection of `user_id`, if there is one.
    pub fn get_connection(&self, user_id: u32) -> (r: Option<OptimizedUserConnection>)
        ensures
            self.connections().contains_key(user_id) ==> (r matches Some(c) && c == self.connections()[user_id]),
            !self.connections().contains_key(user_id) ==> r is None,
    {
        conn_table_get(&self.connections, user_id)
    }

    /// Records a heartbeat of `user_id` at `now_secs`; tells whether the
    /// user is connected.
    pub fn update_heartbeat(&mut self, user_id: u32, now_secs: u64) -> (found: bool)
        requires
            old(self).wf(),
        ensures
            final(self).wf(),
            found == old(self).connections().contains_key(user_id),
            found ==> final(self).connections() == old(self).connections().insert(user_id, OptimizedUserConnection {
                last_heartbeat: now_secs,
                ..old(self).connections()[user_id]
            }),
            !found ==> final(self).connections() == old(self).connections(),
            final(self).stats_of() == old(self).stats_of(),
            final(self).next_id() == old(self).next_id(),
            final(self).max() == old(self).max(),
    {
        let ghost before = conn_table_view(self.connections);
        match conn_table_get(&self.connections, user_id) {
            Some(mut c) => {
                c.update_heartbeat(now_secs);
                conn_table_insert(&mut self.connections, user_id, c);
                proof {
                    assert(conn_table_view(self.connections).dom() =~= before.dom());
                }
                true
            },
            None => false,
        }
    }

    /// A snapshot of the counters.
    pub fn get_stats(&self) -> (s: OptimizedConnectionStats)
        ensures
            s == self.stats_of(),
    {
        self.connection_stats
    }
}

} // verus!
