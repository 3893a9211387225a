//! The bookkeeping of the outgoing connection pool: the state of each pooled
//! connection, the idle queue, address selection, the acquire-and-retry
//! decisions, health results, scaling and the pool counters. Sockets stay
//! with the caller, who performs each returned step and reports back.

use vstd::prelude::*;
use std::collections::HashMap;
use std::collections::VecDeque;
use rand::Rng;

verus! {

broadcast use vstd::std_specs::hash::group_hash_axioms;

/// The state of one pooled connection.
#[derive(Debug, Clone, Copy, PartialEq, Eq, Structural)]
pub enum ConnectionState {
    Idle,
    Active,
    Warming,
    Draining,
    Failed,
}

/// Pool settings. The scaling thresholds are utilisation in thousandths
/// (800 is 80%).
#[derive(Debug, Clone, Copy)]
pub struct ConnectionPoolConfig {
    pub min_connections: usize,
    pub max_connections: usize,
    pub max_requests_per_connection: usize,
    pub idle_timeout_secs: u64,
    pub max_lifetime_secs: u64,
    pub acquire_timeout_ms: u64,
    pub health_check_interval_secs: u64,
    pub enable_auto_scaling: bool,
    pub scale_up_threshold_permille: u32,
    pub scale_down_threshold_permille: u32,
    pub enable_connection_warming: bool,
    pub max_retries: u32,
}

impl ConnectionPoolConfig {
    /// 5 to 100 connections, 10000 requests per connection, 5 minutes idle,
    /// an hour of life, 5 s to acquire, health checks every 30 s, scaling
    /// up above 80% and down below 20% use, warming on, 3 retries.
    pub fn default() -> (c: Self)
        ensures
            c.min_connections == 5,
            c.max_connections == 100,
            c.max_requests_per_connection == 10000,
            c.idle_timeout_secs == 300,
            c.max_lifetime_secs == 3600,
            c.acquire_timeout_ms == 5000,
            c.health_check_interval_secs == 30,
            c.enable_auto_scaling,
            c.scale_up_threshold_permille == 800,
            c.scale_down_threshold_permille == 200,
            c.enable_connection_warming,
            c.max_retries == 3,
    {
        ConnectionPoolConfig {
            min_connections: 5,
            max_connections: 100,
            max_requests_per_connection: 10000,
            idle_timeout_secs: 300,
            max_lifetime_secs: 3600,
            acquire_timeout_ms: 5000,
            health_check_interval_secs: 30,
            enable_auto_scaling: true,
            scale_up_threshold_permille: 800,
            scale_down_threshold_permille: 200,
            enable_connection_warming: true,
            max_retries: 3,
        }
    }
}

/// Why the pool could not serve a request.
#[derive(Debug, Clone, Copy, PartialEq, Eq, Structural)]
pub enum PoolError {
    /// The pool was given no address to connect to.
    NoAddresses,
    /// The connection is not idle.
    NotAvailable,
    /// The pool holds as many connections as it may.
    MaxConnections,
    /// Connecting failed on the last attempt.
    ConnectFailed,
}

/// `a + 1`, wrapping at 2^64.
pub open spec fn inc_u64(a: u64) -> u64 {
    if a == u64::MAX { 0 } else { (a + 1) as u64 }
}

/// `a + 1`, wrapping at the width of `usize`.
pub open spec fn inc_usize(a: usize) -> usize {
    if a == usize::MAX { 0 } else { (a + 1) as usize }
}

/// `a - 1`, wrapping at the width of `usize`.
pub open spec fn dec_usize(a: usize) -> usize {
    if a == 0 { usize::MAX } else { (a - 1) as usize }
}

fn inc64(a: u64) -> (r: u64)
    ensures
        r == inc_u64(a),
{
    if a == u64::MAX { 0 } else { a + 1 }
}

fn inc_size(a: usize) -> (r: usize)
    ensures
        r == inc_usize(a),
{
    if a == usize::MAX { 0 } else { a + 1 }
}

fn dec_size(a: usize) -> (r: usize)
    ensures
        r == dec_usize(a),
{
    if a == 0 { usize::MAX } else { a - 1 }
}

/// Whole seconds from `from_ms` to `now_ms` (none when the clock is behind).
pub open spec fn elapsed_secs(from_ms: u64, now_ms: u64) -> int {
    if now_ms >= from_ms { (now_ms - from_ms) / 1000 } else { 0 }
}

fn elapsed_secs_exec(from_ms: u64, now_ms: u64) -> (s: u64)
    ensures
        s == elapsed_secs(from_ms, now_ms),
{
    if now_ms >= from_ms { (now_ms - from_ms) / 1000 } else { 0 }
}

/// One connection of the pool, by what the pool knows of it.
#[derive(Debug, Clone, Copy)]
pub struct PooledConnection {
    pub id: u64,
    /// Which of the pool's addresses it was opened to.
    pub addr_index: usize,
    pub state: ConnectionState,
    /// Monotonic milliseconds.
    pub created_at_ms: u64,
    pub last_used_ms: u64,
    pub request_count: u64,
    pub error_count: u64,
    pub bytes_sent: u64,
    pub bytes_received: u64,
    pub is_healthy: bool,
}

/// Whether the connection has outlived its lifetime or its request budget.
pub open spec fn expired(c: PooledConnection, cfg: ConnectionPoolConfig, now_ms: u64) -> bool {
    elapsed_secs(c.created_at_ms, now_ms) > cfg.max_lifetime_secs
        || c.request_count > cfg.max_requests_per_connection
}

/// Whether the connection has been unused for longer than the idle timeout.
pub open spec fn idle_expired(c: PooledConnection, cfg: ConnectionPoolConfig, now_ms: u64) -> bool {
    elapsed_secs(c.last_used_ms, now_ms) > cfg.idle_timeout_secs
}

impl PooledConnection {
    /// A fresh, idle and healthy connection opened at `now_ms`.
    pub fn new(id: u64, addr_index: usize, now_ms: u64) -> (c: Self)
        ensures
            c == (PooledConnection {
                id,
                addr_index,
                state: ConnectionState::Idle,
                created_at_ms: now_ms,
                last_used_ms: now_ms,
                request_count: 0,
                error_count: 0,
                bytes_sent: 0,
                bytes_received: 0,
                is_healthy: true,
            }),
    {
        PooledConnection {
            id,
            addr_index,
            state: ConnectionState::Idle,
            created_at_ms: now_ms,
            last_used_ms: now_ms,
            request_count: 0,
            error_count: 0,
            bytes_sent: 0,
            bytes_received: 0,
            is_healthy: true,
        }
    }

    /// Takes an idle connection into use at `now_ms`, counting the request;
    /// refused unless it is idle.
    pub fn acquire(&mut self, now_ms: u64) -> (r: Result<(), PoolError>)
        ensures
            old(self).state == ConnectionState::Idle ==> r is Ok && *final(self) == (PooledConnection {
                state: ConnectionState::Active,
                last_used_ms: now_ms,
                request_count: inc_u64(old(self).request_count),
                ..*old(self)
            }),
            old(self).state != ConnectionState::Idle ==> r == Err::<(), PoolError>(PoolError::NotAvailable)
                && *final(self) == *old(self),
    {
        if self.state != ConnectionState::Idle {
            return Err(PoolError::NotAvailable);
        }
        self.state = ConnectionState::Active;
        self.last_used_ms = now_ms;
        self.request_count = inc64(self.request_count);
        Ok(())
    }

    /// Returns the connection to the idle state.
    pub fn release(&mut self)
        ensures
            *final(self) == (PooledConnection { state: ConnectionState::Idle, ..*old(self) }),
    {
        self.state = ConnectionState::Idle;
    }

    /// Whether the connection has outlived its lifetime or request budget.
    pub fn is_expired(&self, config: &ConnectionPoolConfig, now_ms: u64) -> (r: bool)
        ensures
            r == expired(*self, *config, now_ms),
    {
        elapsed_secs_exec(self.created_at_ms, now_ms) > config.max_lifetime_secs
            || self.request_count > config.max_requests_per_connection as u64
    }

    /// Whether the connection has idled past the timeout.
    pub fn is_idle_timeout(&self, config: &ConnectionPoolConfig, now_ms: u64) -> (r: bool)
        ensures
            r == idle_expired(*self, *config, now_ms),
    {
        elapsed_secs_exec(self.last_used_ms, now_ms) > config.idle_timeout_secs
    }

    /// Records the outcome of a health probe and returns it; a failed probe
    /// counts an error.
    pub fn record_health(&mut self, healthy: bool) -> (r: bool)
        ensures
            r == healthy,
            *final(self) == (PooledConnection {
                is_healthy: healthy,
                error_count: if healthy { old(self).error_count } else { inc_u64(old(self).error_count) },
                ..*old(self)
            }),
    {
        self.is_healthy = healthy;
        if !healthy {
            self.error_count = inc64(self.error_count);
        }
        healthy
    }

    /// Marks the connection as warming up.
    pub fn begin_warm_up(&mut self)
        ensures
            *final(self) == (PooledConnection { state: ConnectionState::Warming, ..*old(self) }),
    {
        self.state = ConnectionState::Warming;
    }

    /// Marks a warmed-up connection idle again.
    pub fn finish_warm_up(&mut self)
        ensures
            *final(self) == (PooledConnection { state: ConnectionState::Idle, ..*old(self) }),
    {
        self.state = ConnectionState::Idle;
    }
}

/// Pool counters. The connection gauges move by one at a time and wrap, as
/// the atomic counters they stand for do.
#[derive(Debug, Clone, Copy)]
pub struct ConnectionPoolStats {
    pub total_connections: usize,
    pub active_connections: usize,
    pub idle_connections: usize,
    pub failed_connections: u64,
    pub total_requests: u64,
    pub failed_requests: u64,
    pub connections_created: u64,
    pub connections_destroyed: u64,
    pub wait_time_us: u64,
    pub scale_up_count: u64,
    pub scale_down_count: u64,
}

impl ConnectionPoolStats {
    pub open spec fn zero_spec() -> ConnectionPoolStats {
        ConnectionPoolStats {
            total_connections: 0,
            active_connections: 0,
            idle_connections: 0,
            failed_connections: 0,
            total_requests: 0,
            failed_requests: 0,
            connections_created: 0,
            connections_destroyed: 0,
            wait_time_us: 0,
            scale_up_count: 0,
            scale_down_count: 0,
        }
    }

    /// All counters at zero.
    pub fn zero() -> (s: Self)
        ensures
            s == Self::zero_spec(),
    {
        ConnectionPoolStats {
            total_connections: 0,
            active_connections: 0,
            idle_connections: 0,
            failed_connections: 0,
            total_requests: 0,
            failed_requests: 0,
            connections_created: 0,
            connections_destroyed: 0,
            wait_time_us: 0,
            scale_up_count: 0,
            scale_down_count: 0,
        }
    }
}

/// How the pool picks the address of a new connection.
#[derive(Debug, Clone, Copy, PartialEq, Eq, Structural)]
pub enum LoadBalancingStrategy {
    RoundRobin,
    LeastConnections,
    LeastResponseTime,
    Random,
    WeightedRoundRobin,
}

/// What the caller does next to serve an acquire request.
#[derive(Debug, Clone, Copy, PartialEq, Eq, Structural)]
pub enum AcquireStep {
    /// The connection with this id is in use by the caller now.
    Ready(u64),
    /// Open a connection to the address at `addr_index` and report it under
    /// `conn_id`.
    Connect { conn_id: u64, addr_index: usize },
    /// Wait this many milliseconds, then try the next attempt.
    RetryAfterMs(u64),
    /// Give up with this error.
    Failed(PoolError),
}

/// What the utilisation calls for.
#[derive(Debug, Clone, Copy, PartialEq, Eq, Structural)]
pub enum ScaleDecision {
    ScaleUp,
    ScaleDown,
    Hold,
}

/// The pool of outgoing connections.
pub struct AdvancedConnectionPool {
    config: ConnectionPoolConfig,
    connections: HashMap<u64, PooledConnection>,
    idle_queue: VecDeque<u64>,
    stats: ConnectionPoolStats,
    next_conn_id: u64,
    round_robin_counter: usize,
    load_balancing: LoadBalancingStrategy,
    address_count: usize,
    shutdown: bool,
}

/// The first usable connection of the idle queue, and what is left of the
/// queue after it (entries before it that are gone, expired or idle too
/// long are dropped on the way).
pub open spec fn idle_pick(
    q: Seq<u64>,
    m: Map<u64, PooledConnection>,
    cfg: ConnectionPoolConfig,
    now_ms: u64,
) -> (Option<u64>, Seq<u64>)
    decreases q.len(),
{
    if q.len() == 0 {
        (None, q)
    } else if m.contains_key(q[0]) && !expired(m[q[0]], cfg, now_ms) && !idle_expired(m[q[0]], cfg, now_ms) {
        (Some(q[0]), q.drop_first())
    } else {
        idle_pick(q.drop_first(), m, cfg, now_ms)
    }
}

/// How many connections a scale-up adds: a quarter of the room left, at
/// least one; none at the maximum.
pub open spec fn scale_up_amount(len: int, max: int) -> int {
    if len >= max {
        0
    } else if (max - len) / 4 >= 1 {
        (max - len) / 4
    } else {
        1
    }
}

/// How many idle connections a scale-down may close: a quarter of those
/// above the minimum, at least one; none at or below the minimum.
pub open spec fn scale_down_amount(len: int, min: int) -> int {
    if len <= min {
        0
    } else if (len - min) / 4 >= 1 {
        (len - min) / 4
    } else {
        1
    }
}

/// The decision for `active` connections in use out of `total`: above the
/// upper threshold scale up, below the lower one scale down. With no
/// connections the use counts as zero.
pub open spec fn scale_decision(active: int, total: int, up_pm: int, down_pm: int) -> ScaleDecision {
    if total > 0 && active * 1000 > up_pm * total {
        ScaleDecision::ScaleUp
    } else if (total > 0 && active * 1000 < down_pm * total) || (total == 0 && 0 < down_pm) {
        ScaleDecision::ScaleDown
    } else {
        ScaleDecision::Hold
    }
}

/// The connection as acquired at `now_ms`.
pub open spec fn acquired(c: PooledConnection, now_ms: u64) -> PooledConnection {
    PooledConnection { state: ConnectionState::Active, last_used_ms: now_ms, request_count: inc_u64(c.request_count), ..c }
}

/// The counters after a connection is taken into use.
pub open spec fn stats_on_acquire(s: ConnectionPoolStats) -> ConnectionPoolStats {
    ConnectionPoolStats {
        active_connections: inc_usize(s.active_connections),
        idle_connections: dec_usize(s.idle_connections),
        ..s
    }
}

/// The counters after a connection is handed back.
pub open spec fn stats_on_release(s: ConnectionPoolStats) -> ConnectionPoolStats {
    ConnectionPoolStats {
        active_connections: dec_usize(s.active_connections),
        idle_connections: inc_usize(s.idle_connections),
        ..s
    }
}

/// A fresh idle connection.
pub open spec fn fresh(id: u64, addr_index: usize, now_ms: u64) -> PooledConnection {
    PooledConnection {
        id,
        addr_index,
        state: ConnectionState::Idle,
        created_at_ms: now_ms,
        last_used_ms: now_ms,
        request_count: 0,
        error_count: 0,
        bytes_sent: 0,
        bytes_received: 0,
        is_healthy: true,
    }
}

/// After a failed attempt: wait 100 ms times the attempt number while
/// attempts remain, else give up with `e`.
pub open spec fn retry_or_fail(attempt: u32, max_retries: u32, e: PoolError) -> AcquireStep {
    if attempt < max_retries {
        AcquireStep::RetryAfterMs((100 * (attempt + 1)) as u64)
    } else {
        AcquireStep::Failed(e)
    }
}

/// The map after the keys of `ids` are removed one by one.
pub open spec fn remove_keys(m: Map<u64, PooledConnection>, ids: Seq<u64>) -> Map<u64, PooledConnection>
    decreases ids.len(),
{
    if ids.len() == 0 {
        m
    } else {
        remove_keys(m, ids.drop_last()).remove(ids.last())
    }
}

proof fn lemma_remove_keys_len(m: Map<u64, PooledConnection>, ids: Seq<u64>)
    requires
        m.dom().finite(),
    ensures
        remove_keys(m, ids).dom().finite(),
        remove_keys(m, ids).len() + ids.len() >= m.len(),
        remove_keys(m, ids).len() <= m.len(),
    decreases ids.len(),
{
    if ids.len() > 0 {
        lemma_remove_keys_len(m, ids.drop_last());
    }
}

fn retry_or_fail_exec(attempt: u32, max_retries: u32, e: PoolError) -> (r: AcquireStep)
    ensures
        r == retry_or_fail(attempt, max_retries, e),
{
    if attempt < max_retries {
        AcquireStep::RetryAfterMs(100 * (attempt as u64 + 1))
    } else {
        AcquireStep::Failed(e)
    }
}

/// A uniformly drawn index below `n`.
#[verifier::external_body]
fn random_below(n: usize) -> (r: usize)
    requires
        n > 0,
    ensures
        r < n,
{
    rand::thread_rng().gen_range(0..n)
}

impl AdvancedConnectionPool {
    pub closed spec fn conns(&self) -> Map<u64, PooledConnection> {
        self.connections@
    }

    /// The idle queue, front first.
    pub closed spec fn idle(&self) -> Seq<u64> {
        self.idle_queue@
    }

    pub closed spec fn stats_of(&self) -> ConnectionPoolStats {
        self.stats
    }

    pub closed spec fn config_of(&self) -> ConnectionPoolConfig {
        self.config
    }

    pub closed spec fn next_id(&self) -> u64 {
        self.next_conn_id
    }

    pub closed spec fn rr_counter(&self) -> usize {
        self.round_robin_counter
    }

    pub closed spec fn strategy(&self) -> LoadBalancingStrategy {
        self.load_balancing
    }

    pub closed spec fn addresses(&self) -> usize {
        self.address_count
    }

    pub closed spec fn is_shut_down(&self) -> bool {
        self.shutdown
    }

    /// The pool's standing invariant: there is an address to pick, and the
    /// connection gauge counts the connections held.
    pub closed spec fn wf(&self) -> bool {
        &&& self.address_count > 0
        &&& self.stats.total_connections == self.connections@.len()
    }

    /// A pool over `address_count` addresses with no connection yet;
    /// refused without an address. The first connection gets id 1.
    pub fn new(config: ConnectionPoolConfig, address_count: usize, strategy: LoadBalancingStrategy) -> (r:
        Result<Self, PoolError>)
        ensures
            address_count == 0 ==> r is Err && r == Err::<Self, PoolError>(PoolError::NoAddresses),
            address_count > 0 ==> (r matches Ok(p) && p.wf() && p.conns() == Map::<u64, PooledConnection>::empty()
                && p.idle() == Seq::<u64>::empty() && p.stats_of() == ConnectionPoolStats::zero_spec()
                && p.config_of() == config && p.next_id() == 1 && p.rr_counter() == 0 && p.strategy()
                == strategy && p.addresses() == address_count && !p.is_shut_down()),
    {
        if address_count == 0 {
            return Err(PoolError::NoAddresses);
        }
        let p = AdvancedConnectionPool {
            config,
            connections: HashMap::new(),
            idle_queue: VecDeque::new(),
            stats: ConnectionPoolStats::zero(),
            next_conn_id: 1,
            round_robin_counter: 0,
            load_balancing: strategy,
            address_count,
            shutdown: false,
        };
        proof {
            assert(p.connections@ =~= Map::<u64, PooledConnection>::empty());
        }
        Ok(p)
    }

    /// What picking address `i` does: round robin takes the counter modulo
    /// the address count and advances it; every strategy but round robin
    /// and random takes the first address and leaves the counter.
    pub open spec fn picked(&self, after: &Self, i: usize) -> bool {
        &&& i < self.addresses()
        &&& self.strategy() == LoadBalancingStrategy::RoundRobin ==> i == self.rr_counter() % self.addresses()
            && after.rr_counter() == inc_usize(self.rr_counter())
        &&& self.strategy() != LoadBalancingStrategy::RoundRobin && self.strategy()
            != LoadBalancingStrategy::Random ==> i == 0
        &&& self.strategy() != LoadBalancingStrategy::RoundRobin ==> after.rr_counter() == self.rr_counter()
    }

    /// The settings, the strategy, the address count and the shutdown flag
    /// are as before.
    pub open spec fn same_setup(&self, after: &Self) -> bool {
        &&& after.config_of() == self.config_of()
        &&& after.strategy() == self.strategy()
        &&& after.addresses() == self.addresses()
        &&& after.is_shut_down() == self.is_shut_down()
    }

    /// The address for the next connection given a drawn index (used by
    /// the random strategy).
    pub fn select_address_with(&mut self, random_index: usize) -> (i: usize)
        requires
            old(self).wf(),
            random_index < old(self).addresses(),
        ensures
            final(self).wf(),
            old(self).picked(final(self), i),
            old(self).strategy() == LoadBalancingStrategy::Random ==> i == random_index,
            old(self).same_setup(final(self)),
            final(self).conns() == old(self).conns(),
            final(self).idle() == old(self).idle(),
            final(self).stats_of() == old(self).stats_of(),
            final(self).next_id() == old(self).next_id(),
    {
        match self.load_balancing {
            LoadBalancingStrategy::RoundRobin => {
                let i = self.round_robin_counter % self.address_count;
                self.round_robin_counter = inc_size(self.round_robin_counter);
                i
            },
            LoadBalancingStrategy::Random => random_index,
            _ => 0,
        }
    }

    /// The address for the next connection, drawing the index when the
    /// strategy is random.
    pub fn select_address(&mut self) -> (i: usize)
        requires
            old(self).wf(),
        ensures
            final(self).wf(),
            old(self).picked(final(self), i),
            old(self).same_setup(final(self)),
            final(self).conns() == old(self).conns(),
            final(self).idle() == old(self).idle(),
            final(self).stats_of() == old(self).stats_of(),
            final(self).next_id() == old(self).next_id(),
    {
        let draw = if self.load_balancing == LoadBalancingStrategy::Random {
            random_below(self.address_count)
        } else {
            0
        };
        self.select_address_with(draw)
    }

    /// The number of connections held.
    pub fn connection_count(&self) -> (n: usize)
        ensures
            n == self.conns().len(),
    {
        self.connections.len()
    }

    /// Reserves the id and picks the address of a new connection; refused
    /// when the pool is full.
    pub fn begin_create(&mut self) -> (r: Result<(u64, usize), PoolError>)
        requires
            old(self).wf(),
        ensures
            final(self).wf(),
            old(self).conns().len() >= old(self).config_of().max_connections ==> r == Err::<
                (u64, usize),
                PoolError,
            >(PoolError::MaxConnections) && *final(self) == *old(self),
            old(self).conns().len() < old(self).config_of().max_connections ==> (r matches Ok((id, a))
                && id == old(self).next_id() && final(self).next_id() == inc_u64(old(self).next_id())
                && old(self).picked(final(self), a)),
            old(self).same_setup(final(self)),
            final(self).conns() == old(self).conns(),
            final(self).idle() == old(self).idle(),
            final(self).stats_of() == old(self).stats_of(),
    {
        if self.connections.len() >= self.config.max_connections {
            return Err(PoolError::MaxConnections);
        }
        let a = self.select_address();
        let id = self.next_conn_id;
        self.next_conn_id = inc64(self.next_conn_id);
        Ok((id, a))
    }

    /// Adds the connection `conn_id`, opened to `addr_index` at `now_ms`,
    /// idle, and counts it.
    pub fn connection_established(&mut self, conn_id: u64, addr_index: usize, now_ms: u64)
        requires
            old(self).wf(),
        ensures
            final(self).wf(),
            final(self).conns() == old(self).conns().insert(conn_id, fresh(conn_id, addr_index, now_ms)),
            final(self).stats_of() == (ConnectionPoolStats {
                connections_created: inc_u64(old(self).stats_of().connections_created),
                total_connections: final(self).conns().len() as usize,
                ..old(self).stats_of()
            }),
            final(self).idle() == old(self).idle(),
            final(self).next_id() == old(self).next_id(),
            final(self).rr_counter() == old(self).rr_counter(),
            old(self).same_setup(final(self)),
    {
        let c = PooledConnection::new(conn_id, addr_index, now_ms);
        self.connections.insert(conn_id, c);
        self.stats.connections_created = inc64(self.stats.connections_created);
        self.stats.total_connections = self.connections.len();
    }

    /// Pops the idle queue up to its first connection that is still held,
    /// not expired and not idle too long, and returns its id.
    pub fn take_idle_connection(&mut self, now_ms: u64) -> (r: Option<u64>)
        requires
            old(self).wf(),
        ensures
            final(self).wf(),
            (r, final(self).idle()) == idle_pick(old(self).idle(), old(self).conns(), old(self).config_of(), now_ms),
            final(self).conns() == old(self).conns(),
            final(self).stats_of() == old(self).stats_of(),
            final(self).next_id() == old(self).next_id(),
            final(self).rr_counter() == old(self).rr_counter(),
            old(self).same_setup(final(self)),
    {
        loop
            invariant
                self.wf(),
                idle_pick(self.idle(), self.conns(), self.config_of(), now_ms) == idle_pick(
                    old(self).idle(),
                    old(self).conns(),
                    old(self).config_of(),
                    now_ms,
                ),
                self.conns() == old(self).conns(),
                self.stats_of() == old(self).stats_of(),
                self.next_id() == old(self).next_id(),
                self.rr_counter() == old(self).rr_counter(),
                old(self).same_setup(self),
            decreases self.idle_queue@.len(),
        {
            let ghost q = self.idle_queue@;
            match self.idle_queue.pop_front() {
                None => {
                    return None;
                },
                Some(id) => {
                    proof {
                        assert(self.idle_queue@ =~= q.drop_first());
                    }
                    match self.connections.get(&id) {
                        Some(c) => {
                            if !c.is_expired(&self.config, now_ms) && !c.is_idle_timeout(&self.config, now_ms) {
                                return Some(id);
                            }
                        },
                        None => {},
                    }
                },
            }
        }
    }

    /// One attempt at serving an acquire request at `now_ms`: a usable,
    /// healthy idle connection is taken into use; otherwise a new
    /// connection is asked for, and when the pool is full the attempt
    /// fails, to be retried after a pause while attempts remain.
    pub fn acquire_step(&mut self, attempt: u32, now_ms: u64) -> (r: AcquireStep)
        requires
            old(self).wf(),
        ensures
            final(self).wf(),
            old(self).same_setup(final(self)),
            ({
                let (pick, q) = idle_pick(old(self).idle(), old(self).conns(), old(self).config_of(), now_ms);
                let cfg = old(self).config_of();
                &&& final(self).idle() == q
                &&& if pick is Some && old(self).conns()[pick->0].is_healthy {
                    let id = pick->0;
                    let c = old(self).conns()[id];
                    &&& final(self).next_id() == old(self).next_id()
                    &&& final(self).rr_counter() == old(self).rr_counter()
                    &&& if c.state == ConnectionState::Idle {
                        &&& r == AcquireStep::Ready(id)
                        &&& final(self).conns() == old(self).conns().insert(id, acquired(c, now_ms))
                        &&& final(self).stats_of() == stats_on_acquire(old(self).stats_of())
                    } else {
                        &&& r == AcquireStep::Failed(PoolError::NotAvailable)
                        &&& final(self).conns() == old(self).conns()
                        &&& final(self).stats_of() == old(self).stats_of()
                    }
                } else if old(self).conns().len() >= cfg.max_connections {
                    &&& r == retry_or_fail(attempt, cfg.max_retries, PoolError::MaxConnections)
                    &&& final(self).conns() == old(self).conns()
                    &&& final(self).stats_of() == old(self).stats_of()
                    &&& final(self).next_id() == old(self).next_id()
                    &&& final(self).rr_counter() == old(self).rr_counter()
                } else {
                    &&& r matches AcquireStep::Connect { conn_id, addr_index } && conn_id == old(self).next_id()
                        && old(self).picked(final(self), addr_index)
                    &&& final(self).next_id() == inc_u64(old(self).next_id())
                    &&& final(self).conns() == old(self).conns()
                    &&& final(self).stats_of() == old(self).stats_of()
                }
            }),
    {
        let pick = self.take_idle_connection(now_ms);
        if let Some(id) = pick {
            proof {
                lemma_idle_pick_held(old(self).idle(), old(self).conns(), old(self).config_of(), now_ms);
            }
            let c = *self.connections.get(&id).unwrap();
            if c.is_healthy {
                let mut d = c;
                match d.acquire(now_ms) {
                    Ok(()) => {
                        self.connections.insert(id, d);
                        self.stats.active_connections = inc_size(self.stats.active_connections);
                        self.stats.idle_connections = dec_size(self.stats.idle_connections);
                        proof {
                            assert(self.connections@.dom() =~= old(self).connections@.dom());
                        }
                        return AcquireStep::Ready(id);
                    },
                    Err(e) => {
                        return AcquireStep::Failed(e);
                    },
                }
            }
        }
        match self.begin_create() {
            Ok((conn_id, addr_index)) => AcquireStep::Connect { conn_id, addr_index },
            Err(e) => retry_or_fail_exec(attempt, self.config.max_retries, e),
        }
    }

    /// The new connection `conn_id` to `addr_index` is open (and warmed up
    /// where warming is on): it joins the pool and is taken into use.
    pub fn connect_succeeded(&mut self, conn_id: u64, addr_index: usize, now_ms: u64) -> (r: AcquireStep)
        requires
            old(self).wf(),
        ensures
            final(self).wf(),
            r == AcquireStep::Ready(conn_id),
            final(self).conns() == old(self).conns().insert(conn_id, acquired(fresh(conn_id, addr_index, now_ms), now_ms)),
            final(self).stats_of() == stats_on_acquire(
                ConnectionPoolStats {
                    connections_created: inc_u64(old(self).stats_of().connections_created),
                    total_connections: final(self).conns().len() as usize,
                    ..old(self).stats_of()
                },
            ),
            final(self).idle() == old(self).idle(),
            final(self).next_id() == old(self).next_id(),
            final(self).rr_counter() == old(self).rr_counter(),
            old(self).same_setup(final(self)),
    {
        self.connection_established(conn_id, addr_index, now_ms);
        let mut c = PooledConnection::new(conn_id, addr_index, now_ms);
        let _ = c.acquire(now_ms);
        self.connections.insert(conn_id, c);
        self.stats.active_connections = inc_size(self.stats.active_connections);
        self.stats.idle_connections = dec_size(self.stats.idle_connections);
        proof {
            assert(self.connections@.dom() =~= old(self).connections@.insert(conn_id, fresh(conn_id, addr_index, now_ms)).dom());
        }
        AcquireStep::Ready(conn_id)
    }

    /// Opening (or warming up) a new connection failed on `attempt`.
    pub fn connect_failed(&self, attempt: u32) -> (r: AcquireStep)
        ensures
            r == retry_or_fail(attempt, self.config_of().max_retries, PoolError::ConnectFailed),
    {
        retry_or_fail_exec(attempt, self.config.max_retries, PoolError::ConnectFailed)
    }

    /// Counts an acquire request that ended, after waiting `wait_us`
    /// microseconds, in success or in failure (an error or the timeout).
    pub fn record_acquire_result(&mut self, ok: bool, wait_us: u64)
        ensures
            final(self).stats_of() == (ConnectionPoolStats {
                wait_time_us: (((old(self).stats_of().wait_time_us + wait_us) as int) % 0x1_0000_0000_0000_0000) as u64,
                total_requests: if ok { inc_u64(old(self).stats_of().total_requests) } else { old(self).stats_of().total_requests },
                failed_requests: if ok { old(self).stats_of().failed_requests } else { inc_u64(old(self).stats_of().failed_requests) },
                ..old(self).stats_of()
            }),
            final(self).conns() == old(self).conns(),
            final(self).idle() == old(self).idle(),
            final(self).next_id() == old(self).next_id(),
            final(self).rr_counter() == old(self).rr_counter(),
            old(self).same_setup(final(self)),
            old(self).wf() ==> final(self).wf(),
    {
        self.stats.wait_time_us = self.stats.wait_time_us.wrapping_add(wait_us);
        if ok {
            self.stats.total_requests = inc64(self.stats.total_requests);
        } else {
            self.stats.failed_requests = inc64(self.stats.failed_requests);
        }
    }

    /// Hands connection `conn_id` back: it turns idle and goes to the back
    /// of the idle queue.
    pub fn release(&mut self, conn_id: u64)
        requires
            old(self).wf(),
        ensures
            final(self).wf(),
            final(self).idle() == old(self).idle().push(conn_id),
            old(self).conns().contains_key(conn_id) ==> final(self).conns() == old(self).conns().insert(
                conn_id,
                PooledConnection { state: ConnectionState::Idle, ..old(self).conns()[conn_id] },
            ),
            !old(self).conns().contains_key(conn_id) ==> final(self).conns() == old(self).conns(),
            final(self).stats_of() == stats_on_release(old(self).stats_of()),
            final(self).next_id() == old(self).next_id(),
            final(self).rr_counter() == old(self).rr_counter(),
            old(self).same_setup(final(self)),
    {
        match self.connections.get(&conn_id) {
            Some(c) => {
                let mut d = *c;
                d.release();
                self.connections.insert(conn_id, d);
                proof {
                    assert(self.connections@.dom() =~= old(self).connections@.dom());
                }
            },
            None => {},
        }
        self.idle_queue.push_back(conn_id);
        self.stats.active_connections = dec_size(self.stats.active_connections);
        self.stats.idle_connections = inc_size(self.stats.idle_connections);
    }

    /// Drops connection `conn_id` from the pool, counting it when it was
    /// held.
    pub fn remove_connection(&mut self, conn_id: u64)
        requires
            old(self).wf(),
        ensures
            final(self).wf(),
            final(self).conns() == old(self).conns().remove(conn_id),
            old(self).conns().contains_key(conn_id) ==> final(self).stats_of() == (ConnectionPoolStats {
                connections_destroyed: inc_u64(old(self).stats_of().connections_destroyed),
                total_connections: final(self).conns().len() as usize,
                ..old(self).stats_of()
            }),
            !old(self).conns().contains_key(conn_id) ==> final(self).stats_of() == old(self).stats_of(),
            final(self).idle() == old(self).idle(),
            final(self).next_id() == old(self).next_id(),
            final(self).rr_counter() == old(self).rr_counter(),
            old(self).same_setup(final(self)),
    {
        match self.connections.remove(&conn_id) {
            Some(_) => {
                self.stats.connections_destroyed = inc64(self.stats.connections_destroyed);
                self.stats.total_connections = self.connections.len();
            },
            None => {
                proof {
                    assert(self.connections@ =~= old(self).connections@.remove(conn_id));
                }
            },
        }
    }

    /// Records the outcome of the health probe of `conn_id`; a connection
    /// that failed it leaves the pool.
    pub fn record_health_check(&mut self, conn_id: u64, healthy: bool)
        requires
            old(self).wf(),
        ensures
            final(self).wf(),
            healthy && old(self).conns().contains_key(conn_id) ==> final(self).conns() == old(self).conns().insert(
                conn_id,
                PooledConnection { is_healthy: true, ..old(self).conns()[conn_id] },
            ),
            !healthy ==> final(self).conns() == old(self).conns().remove(conn_id),
            !old(self).conns().contains_key(conn_id) ==> final(self).conns() == old(self).conns(),
            healthy ==> final(self).stats_of() == old(self).stats_of(),
            !healthy && old(self).conns().contains_key(conn_id) ==> final(self).stats_of() == (ConnectionPoolStats {
                connections_destroyed: inc_u64(old(self).stats_of().connections_destroyed),
                total_connections: final(self).conns().len() as usize,
                ..old(self).stats_of()
            }),
            final(self).idle() == old(self).idle(),
            final(self).next_id() == old(self).next_id(),
            final(self).rr_counter() == old(self).rr_counter(),
            old(self).same_setup(final(self)),
    {
        match self.connections.get(&conn_id) {
            Some(c) => {
                let mut d = *c;
                d.record_health(healthy);
                if healthy {
                    self.connections.insert(conn_id, d);
                    proof {
                        assert(self.connections@.dom() =~= old(self).connections@.dom());
                    }
                } else {
                    self.remove_connection(conn_id);
                }
            },
            None => {
                proof {
                    assert(old(self).connections@.remove(conn_id) =~= old(self).connections@);
                }
            },
        }
    }

    /// What the current use of the pool calls for, from the connection
    /// gauges.
    pub fn scale_decision(&self) -> (d: ScaleDecision)
        ensures
            d == scale_decision(
                self.stats_of().active_connections as int,
                self.stats_of().total_connections as int,
                self.config_of().scale_up_threshold_permille as int,
                self.config_of().scale_down_threshold_permille as int,
            ),
    {
        let total = self.stats.total_connections as u128;
        let active = self.stats.active_connections as u128;
        let up = self.config.scale_up_threshold_permille as u128;
        let down = self.config.scale_down_threshold_permille as u128;
        assert(up * total <= 0xffff_ffff * 0xffff_ffff_ffff_ffffu128) by (nonlinear_arith)
            requires
                up <= 0xffff_ffff,
                total <= 0xffff_ffff_ffff_ffff,
        ;
        assert(down * total <= 0xffff_ffff * 0xffff_ffff_ffff_ffffu128) by (nonlinear_arith)
            requires
                down <= 0xffff_ffff,
                total <= 0xffff_ffff_ffff_ffff,
        ;
        if total > 0 && active * 1000 > up * total {
            ScaleDecision::ScaleUp
        } else if (total > 0 && active * 1000 < down * total) || (total == 0 && 0 < down) {
            ScaleDecision::ScaleDown
        } else {
            ScaleDecision::Hold
        }
    }

    /// How many connections a scale-up should open. Opening them all never
    /// takes the pool past its maximum.
    pub fn scale_up_amount(&self) -> (n: usize)
        requires
            self.wf(),
        ensures
            n == scale_up_amount(self.conns().len() as int, self.config_of().max_connections as int),
            self.conns().len() + n <= self.config_of().max_connections || n == 0,
            self.conns().len() < self.config_of().max_connections ==> n >= 1,
    {
        let len = self.connections.len();
        if len >= self.config.max_connections {
            0
        } else if (self.config.max_connections - len) / 4 >= 1 {
            (self.config.max_connections - len) / 4
        } else {
            1
        }
    }

    /// Counts a scale-up that was carried out.
    pub fn record_scale_up(&mut self)
        ensures
            final(self).stats_of() == (ConnectionPoolStats {
                scale_up_count: inc_u64(old(self).stats_of().scale_up_count),
                ..old(self).stats_of()
            }),
            final(self).conns() == old(self).conns(),
            final(self).idle() == old(self).idle(),
            final(self).next_id() == old(self).next_id(),
            final(self).rr_counter() == old(self).rr_counter(),
            old(self).same_setup(final(self)),
            old(self).wf() ==> final(self).wf(),
    {
        self.stats.scale_up_count = inc64(self.stats.scale_up_count);
    }

    /// Closes idle connections from the front of the idle queue: a quarter
    /// of those above the minimum, at least one, as far as the queue goes.
    /// Returns how many queue entries it took. Nothing happens at or below
    /// the minimum. The pool never drops below its minimum this way.
    pub fn scale_down(&mut self) -> (removed: usize)
        requires
            old(self).wf(),
        ensures
            final(self).wf(),
            ({
                let len = old(self).conns().len() as int;
                let min = old(self).config_of().min_connections as int;
                let k = if scale_down_amount(len, min) <= old(self).idle().len() {
                    scale_down_amount(len, min)
                } else {
                    old(self).idle().len() as int
                };
                &&& len <= min ==> removed == 0 && *final(self) == *old(self)
                &&& len > min ==> {
                    &&& removed == k
                    &&& final(self).idle() == old(self).idle().skip(k)
                    &&& final(self).conns() == remove_keys(old(self).conns(), old(self).idle().take(k))
                    &&& final(self).stats_of() == (ConnectionPoolStats {
                        scale_down_count: inc_u64(old(self).stats_of().scale_down_count),
                        total_connections: final(self).conns().len() as usize,
                        ..old(self).stats_of()
                    })
                    &&& final(self).conns().len() >= min
                }
            }),
            final(self).next_id() == old(self).next_id(),
            final(self).rr_counter() == old(self).rr_counter(),
            old(self).same_setup(final(self)),
    {
        let len = self.connections.len();
        if len <= self.config.min_connections {
            return 0;
        }
        let amount = if (len - self.config.min_connections) / 4 >= 1 {
            (len - self.config.min_connections) / 4
        } else {
            1
        };
        let ghost q0 = self.idle_queue@;
        let ghost m0 = self.connections@;
        let mut removed: usize = 0;
        while removed < amount && self.idle_queue.len() > 0
            invariant
                removed <= amount,
                amount == scale_down_amount(m0.len() as int, self.config.min_connections as int),
                removed <= q0.len(),
                self.idle_queue@ == q0.skip(removed as int),
                self.connections@ == remove_keys(m0, q0.take(removed as int)),
                m0.dom().finite(),
                m0 == old(self).conns(),
                q0 == old(self).idle(),
                self.stats == old(self).stats_of(),
                self.next_conn_id == old(self).next_id(),
                self.round_robin_counter == old(self).rr_counter(),
                self.address_count > 0,
                old(self).same_setup(self),
            decreases amount - removed,
        {
            let ghost before = self.idle_queue@;
            let id = self.idle_queue.pop_front().unwrap();
            self.connections.remove(&id);
            proof {
                assert(q0.take(removed + 1).drop_last() =~= q0.take(removed as int));
                assert(q0.take(removed + 1).last() == id);
                assert(self.idle_queue@ =~= q0.skip(removed + 1));
            }
            removed = removed + 1;
        }
        proof {
            lemma_remove_keys_len(m0, q0.take(removed as int));
            if removed < amount {
                assert(self.idle_queue@.len() == 0);
            }
        }
        self.stats.scale_down_count = inc64(self.stats.scale_down_count);
        self.stats.total_connections = self.connections.len();
        removed
    }

    /// Marks the pool as shutting down.
    pub fn begin_shutdown(&mut self)
        ensures
            final(self).is_shut_down(),
            final(self).conns() == old(self).conns(),
            final(self).idle() == old(self).idle(),
            final(self).stats_of() == old(self).stats_of(),
            final(self).config_of() == old(self).config_of(),
            final(self).next_id() == old(self).next_id(),
            final(self).rr_counter() == old(self).rr_counter(),
            final(self).strategy() == old(self).strategy(),
            final(self).addresses() == old(self).addresses(),
            old(self).wf() ==> final(self).wf(),
    {
        self.shutdown = true;
    }

    /// Whether shutdown has begun.
    pub fn shutting_down(&self) -> (b: bool)
        ensures
            b == self.is_shut_down(),
    {
        self.shutdown
    }

    /// The pool's settings.
    pub fn config(&self) -> (c: ConnectionPoolConfig)
        ensures
            c == self.config_of(),
    {
        self.config
    }

    /// The connection `conn_id`, if the pool holds it.
    pub fn connection(&self, conn_id: u64) -> (c: Option<PooledConnection>)
        ensures
            self.conns().contains_key(conn_id) ==> c == Some(self.conns()[conn_id]),
            !self.conns().contains_key(conn_id) ==> c is None,
    {
        match self.connections.get(&conn_id) {
            Some(c) => Some(*c),
            None => None,
        }
    }

    /// The counters, for the performance report.
    pub fn get_performance_report(&self) -> (r: ConnectionPoolPerformanceReport)
        ensures
            r == report_of(self.stats_of()),
    {
        ConnectionPoolPerformanceReport {
            total_connections: self.stats.total_connections,
            active_connections: self.stats.active_connections,
            idle_connections: self.stats.idle_connections,
            total_requests: self.stats.total_requests,
            failed_requests: self.stats.failed_requests,
            total_wait_time_us: self.stats.wait_time_us,
            connections_created: self.stats.connections_created,
            connections_destroyed: self.stats.connections_destroyed,
            scale_events: self.stats.scale_up_count.wrapping_add(self.stats.scale_down_count),
        }
    }
}

/// The counters behind the pool's performance report; the rates and the
/// score are computed from them by the caller.
#[derive(Debug, Clone, Copy, PartialEq, Eq, Structural)]
pub struct ConnectionPoolPerformanceReport {
    pub total_connections: usize,
    pub active_connections: usize,
    pub idle_connections: usize,
    pub total_requests: u64,
    pub failed_requests: u64,
    pub total_wait_time_us: u64,
    pub connections_created: u64,
    pub connections_destroyed: u64,
    /// Scale-ups and scale-downs together, wrapping at 2^64.
    pub scale_events: u64,
}

pub open spec fn report_of(s: ConnectionPoolStats) -> ConnectionPoolPerformanceReport {
    ConnectionPoolPerformanceReport {
        total_connections: s.total_connections,
        active_connections: s.active_connections,
        idle_connections: s.idle_connections,
        total_requests: s.total_requests,
        failed_requests: s.failed_requests,
        total_wait_time_us: s.wait_time_us,
        connections_created: s.connections_created,
        connections_destroyed: s.connections_destroyed,
        scale_events: (((s.scale_up_count + s.scale_down_count) as int) % 0x1_0000_0000_0000_0000) as u64,
    }
}

proof fn lemma_idle_pick_held(q: Seq<u64>, m: Map<u64, PooledConnection>, cfg: ConnectionPoolConfig, now_ms: u64)
    ensures
        idle_pick(q, m, cfg, now_ms).0 matches Some(id) ==> m.contains_key(id),
    decreases q.len(),
{
    if q.len() > 0 {
        lemma_idle_pick_held(q.drop_first(), m, cfg, now_ms);
    }
}

/// The pool's gauge of held connections always equals the number of
/// connections it holds, whatever operations led to its state.
pub proof fn lemma_gauge_counts_connections(p: AdvancedConnectionPool)
    requires
        p.wf(),
    ensures
        p.stats_of().total_connections == p.conns().len(),
{
}

/// Handing back a connection that was idle and then taken into use leaves
/// it idle again, with only its last use and request count moved on.
pub proof fn lemma_release_after_acquire(c: PooledConnection, now_ms: u64)
    requires
        c.state == ConnectionState::Idle,
    ensures
        (PooledConnection { state: ConnectionState::Idle, ..acquired(c, now_ms) }) == (PooledConnection {
            last_used_ms: now_ms,
            request_count: inc_u64(c.request_count),
            ..c
        }),
{
}

/// Opening every connection a scale-up plans never takes the pool past its
/// maximum, and a pool below its maximum always plans at least one.
pub proof fn lemma_scale_up_within_max(len: int, max: int)
    requires
        0 <= len,
    ensures
        len < max ==> 1 <= scale_up_amount(len, max) && len + scale_up_amount(len, max) <= max,
        len >= max ==> scale_up_amount(len, max) == 0,
{
}

/// A scale-down closes at most the connections above the minimum.
pub proof fn lemma_scale_down_keeps_minimum(len: int, min: int)
    requires
        0 <= min,
    ensures
        len > min ==> 1 <= scale_down_amount(len, min) && len - scale_down_amount(len, min) >= min,
        len <= min ==> scale_down_amount(len, min) == 0,
{
}


/// How far a decision goes: 0 to scale down, 1 to hold, 2 to scale up.
pub open spec fn decision_rank(d: ScaleDecision) -> nat {
    match d {
        ScaleDecision::ScaleDown => 0,
        ScaleDecision::Hold => 1,
        ScaleDecision::ScaleUp => 2,
    }
}

/// Auto-scaling: a pool whose share of connections in use is above the
/// upper threshold (in thousandths) scales up, and only then; one whose
/// share is between the thresholds holds; with every connection in use and
/// an upper threshold below 1000 it scales up; and more connections in use
/// never give a smaller step.
pub proof fn lemma_scaling_follows_usage(active: int, active2: int, total: int, up_pm: int, down_pm: int)
    requires
        0 <= active,
        0 <= total,
        0 <= up_pm,
        0 <= down_pm,
    ensures
        (scale_decision(active, total, up_pm, down_pm) == ScaleDecision::ScaleUp) <==> (total > 0 && active
            * 1000 > up_pm * total),
        total > 0 && down_pm * total <= active * 1000 <= up_pm * total ==> scale_decision(
            active,
            total,
            up_pm,
            down_pm,
        ) == ScaleDecision::Hold,
        total > 0 && up_pm < 1000 ==> scale_decision(total, total, up_pm, down_pm) == ScaleDecision::ScaleUp,
        total > 0 && active <= active2 ==> decision_rank(scale_decision(active, total, up_pm, down_pm))
            <= decision_rank(scale_decision(active2, total, up_pm, down_pm)),
{
    if total > 0 && up_pm < 1000 {
        assert(total * 1000 > up_pm * total) by (nonlinear_arith)
            requires
                total > 0,
                up_pm < 1000,
        ;
    }
}

} // verus!
