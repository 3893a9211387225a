//! The state of the high-throughput server: its settings, its counters,
//! whether it runs, and the steps its start, its stop and its metrics
//! collector take. Listening, the connection tasks and the timer are the
//! caller's.

use vstd::prelude::*;
use crate::parallel_broadcast::cpu_count;
use crate::optimized_connection::OptimizedConnectionService;

verus! {

/// Settings of the high-throughput server. The back-pressure threshold is
/// in thousandths of the pending-message limit (800 is 80%).
#[derive(Debug, Clone)]
pub struct EnhancedTcpConfig {
    pub bind_address: String,
    pub max_connections: u32,
    pub heartbeat_interval_secs: u64,
    pub connection_timeout_secs: u64,
    pub io_buffer_size: usize,
    pub message_batch_size: usize,
    pub flush_interval_ms: u64,
    pub worker_threads: usize,
    pub connection_pool_size: usize,
    pub dashmap_shard_count: usize,
    pub max_pending_messages: usize,
    pub backpressure_threshold_permille: u32,
    pub enable_metrics: bool,
    pub metrics_interval_secs: u64,
}

impl EnhancedTcpConfig {
    /// Listening on 127.0.0.1:4000 for up to 2000 connections, heartbeats
    /// every 10 s with a 30 s timeout, 64 KiB buffers, batches of 100
    /// flushed every 5 ms, one worker per CPU, 100 pooled connections, 32
    /// shards, 10000 pending messages with back-pressure at 80%, and
    /// metrics every 10 s.
    pub fn default() -> (c: Self)
        ensures
            c.bind_address@ == "127.0.0.1:4000"@,
            c.max_connections == 2000,
            c.heartbeat_interval_secs == 10,
            c.connection_timeout_secs == 30,
            c.io_buffer_size == 65536,
            c.message_batch_size == 100,
            c.flush_interval_ms == 5,
            c.worker_threads >= 1,
            c.connection_pool_size == 100,
            c.dashmap_shard_count == 32,
            c.max_pending_messages == 10000,
            c.backpressure_threshold_permille == 800,
            c.enable_metrics,
            c.metrics_interval_secs == 10,
    {
        EnhancedTcpConfig {
            bind_address: String::from_str("127.0.0.1:4000"),
            max_connections: 2000,
            heartbeat_interval_secs: 10,
            connection_timeout_secs: 30,
            io_buffer_size: 65536,
            message_batch_size: 100,
            flush_interval_ms: 5,
            worker_threads: cpu_count(),
            connection_pool_size: 100,
            dashmap_shard_count: 32,
            max_pending_messages: 10000,
            backpressure_threshold_permille: 800,
            enable_metrics: true,
            metrics_interval_secs: 10,
        }
    }
}

/// Server counters.
#[derive(Debug, Clone, Copy, PartialEq, Eq)]
pub struct PerformanceStats {
    pub messages_processed: u64,
    pub bytes_transferred: u64,
    pub active_connections: u32,
    pub total_connections: u64,
    pub errors: u64,
    pub avg_latency_us: u64,
    pub p99_latency_us: u64,
    pub throughput_msg_sec: u64,
    pub cpu_usage_percent: u32,
    pub memory_usage_mb: u32,
}

/// Every counter at zero.
pub open spec fn zero_performance() -> PerformanceStats {
    PerformanceStats {
        messages_processed: 0,
        bytes_transferred: 0,
        active_connections: 0,
        total_connections: 0,
        errors: 0,
        avg_latency_us: 0,
        p99_latency_us: 0,
        throughput_msg_sec: 0,
        cpu_usage_percent: 0,
        memory_usage_mb: 0,
    }
}

impl PerformanceStats {
    /// All counters at zero.
    pub fn default() -> (s: Self)
        ensures
            s == zero_performance(),
    {
        PerformanceStats {
            messages_processed: 0,
            bytes_transferred: 0,
            active_connections: 0,
            total_connections: 0,
            errors: 0,
            avg_latency_us: 0,
            p99_latency_us: 0,
            throughput_msg_sec: 0,
            cpu_usage_percent: 0,
            memory_usage_mb: 0,
        }
    }
}

/// The high-throughput server's state.
pub struct EnhancedTcpGameService {
    config: EnhancedTcpConfig,
    connection_service: OptimizedConnectionService,
    stats: PerformanceStats,
    is_running: bool,
    server_start_secs: u64,
}

impl EnhancedTcpGameService {
    pub closed spec fn running(&self) -> bool {
        self.is_running
    }

    pub closed spec fn stats_of(&self) -> PerformanceStats {
        self.stats
    }

    pub closed spec fn config_of(&self) -> EnhancedTcpConfig {
        self.config
    }

    pub closed spec fn connections(&self) -> OptimizedConnectionService {
        self.connection_service
    }

    pub closed spec fn started_at(&self) -> u64 {
        self.server_start_secs
    }

    /// A stopped server with `config`, made at `now_secs`, whose registry
    /// admits `config.max_connections` connections (at least one; the
    /// registry's reuse queue cannot be empty).
    pub fn new(config: EnhancedTcpConfig, now_secs: u64) -> (s: Self)
        requires
            config.max_connections > 0,
            config.max_connections <= usize::MAX / 2,
        ensures
            !s.running(),
            s.stats_of() == zero_performance(),
            s.config_of() == config,
            s.started_at() == now_secs,
            s.connections().wf(),
            s.connections().max() == config.max_connections,
            s.connections().connections().dom().len() == 0,
    {
        let max = config.max_connections;
        let connection_service = OptimizedConnectionService::new(max, now_secs);
        EnhancedTcpGameService {
            config,
            connection_service,
            stats: PerformanceStats::default(),
            is_running: false,
            server_start_secs: now_secs,
        }
    }

    /// The first step of a start: a server already running stays as it is
    /// and `false` comes back (the caller only warns); otherwise it is now
    /// running and `true` comes back, and the caller goes on to listen.
    pub fn start(&mut self) -> (started: bool)
        ensures
            started == !old(self).running(),
            final(self).running(),
            final(self).stats_of() == old(self).stats_of(),
            final(self).config_of() == old(self).config_of(),
            final(self).connections() == old(self).connections(),
    {
        if self.is_running {
            return false;
        }
        self.is_running = true;
        true
    }

    /// Stops the server: `false` when it was not running (the caller only
    /// warns), else `true`, and it no longer runs.
    pub fn stop(&mut self) -> (stopped: bool)
        ensures
            stopped == old(self).running(),
            !final(self).running(),
            final(self).stats_of() == old(self).stats_of(),
            final(self).config_of() == old(self).config_of(),
            final(self).connections() == old(self).connections(),
    {
        if !self.is_running {
            return false;
        }
        self.is_running = false;
        true
    }

    /// Whether the server runs.
    pub fn is_running(&self) -> (r: bool)
        ensures
            r == self.running(),
    {
        self.is_running
    }

    /// Counts an admitted connection as active.
    pub fn record_connection(&mut self)
        ensures
            final(self).stats_of() == (PerformanceStats {
                active_connections: old(self).stats_of().active_connections.wrapping_add(1),
                ..old(self).stats_of()
            }),
            final(self).running() == old(self).running(),
            final(self).config_of() == old(self).config_of(),
            final(self).connections() == old(self).connections(),
    {
        self.stats.active_connections = self.stats.active_connections.wrapping_add(1);
    }

    /// Counts a connection the listener accepted, before its handling ends.
    pub fn record_accepted(&mut self)
        ensures
            final(self).stats_of() == (PerformanceStats {
                total_connections: old(self).stats_of().total_connections.wrapping_add(1),
                ..old(self).stats_of()
            }),
            final(self).running() == old(self).running(),
            final(self).config_of() == old(self).config_of(),
            final(self).connections() == old(self).connections(),
    {
        self.stats.total_connections = self.stats.total_connections.wrapping_add(1);
    }

    /// Adds the time, in microseconds, that a successful connection's
    /// handling took to the latency counter.
    pub fn record_latency(&mut self, latency_us: u64)
        ensures
            final(self).stats_of() == (PerformanceStats {
                avg_latency_us: old(self).stats_of().avg_latency_us.wrapping_add(latency_us),
                ..old(self).stats_of()
            }),
            final(self).running() == old(self).running(),
            final(self).config_of() == old(self).config_of(),
            final(self).connections() == old(self).connections(),
    {
        self.stats.avg_latency_us = self.stats.avg_latency_us.wrapping_add(latency_us);
    }

    /// Counts a connection whose handling failed.
    pub fn record_error(&mut self)
        ensures
            final(self).stats_of() == (PerformanceStats {
                errors: old(self).stats_of().errors.wrapping_add(1),
                ..old(self).stats_of()
            }),
            final(self).running() == old(self).running(),
            final(self).config_of() == old(self).config_of(),
            final(self).connections() == old(self).connections(),
    {
        self.stats.errors = self.stats.errors.wrapping_add(1);
    }

    /// One tick of the metrics collector, `last_messages` being the count
    /// it saw the tick before: the throughput is the messages since then
    /// per second of the interval, and is stored. The interval is not zero
    /// and the count does not go back: the division and the subtraction
    /// are unchecked.
    pub fn metrics_tick(&mut self, last_messages: u64) -> (throughput: u64)
        requires
            old(self).config_of().metrics_interval_secs > 0,
            old(self).stats_of().messages_processed >= last_messages,
        ensures
            throughput == (old(self).stats_of().messages_processed - last_messages)
                / (old(self).config_of().metrics_interval_secs as int),
            final(self).stats_of() == (PerformanceStats { throughput_msg_sec: throughput, ..old(self).stats_of() }),
            final(self).running() == old(self).running(),
            final(self).config_of() == old(self).config_of(),
            final(self).connections() == old(self).connections(),
    {
        let current = self.stats.messages_processed;
        let delta = current - last_messages;
        let throughput = delta / self.config.metrics_interval_secs;
        self.stats.throughput_msg_sec = throughput;
        throughput
    }

    /// The counters.
    pub fn get_stats(&self) -> (s: PerformanceStats)
        ensures
            s == self.stats_of(),
    {
        self.stats
    }

    /// The connection registry, for admitting and removing connections.
    pub fn connection_service_mut(&mut self) -> (c: &mut OptimizedConnectionService)
        ensures
            *c == old(self).connections(),
            final(self).connections() == *final(c),
            final(self).running() == old(self).running(),
            final(self).stats_of() == old(self).stats_of(),
            final(self).config_of() == old(self).config_of(),
            final(self).started_at() == old(self).started_at(),
    {
        &mut self.connection_service
    }
}

} // verus!
