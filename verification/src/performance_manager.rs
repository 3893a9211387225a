//! The settings of the server's performance features.

use vstd::prelude::*;
use crate::parallel_broadcast::cpu_count;

verus! {

/// Which optimisations run, and their sizes.
#[derive(Debug, Clone, Copy)]
pub struct PerformanceConfig {
    /// Whether SIMD kernels are used.
    pub enable_simd: bool,
    /// Objects in the memory pool, and how many are made up front.
    pub memory_pool_size: usize,
    pub memory_pool_prealloc: usize,
    /// Socket settings.
    pub tcp_nodelay: bool,
    pub tcp_keepalive: bool,
    pub socket_buffer_size: usize,
    /// Workers for each task priority.
    pub high_priority_workers: usize,
    pub normal_priority_workers: usize,
    pub background_workers: usize,
    /// Seconds between metric collections.
    pub metrics_interval_secs: u64,
}

impl PerformanceConfig {
    /// SIMD on, a pool of 10000 objects with 1000 made up front, no Nagle
    /// delay, keep-alive, 64 KiB socket buffers, 2 high-priority workers,
    /// one normal worker per CPU, 2 background workers, metrics every 30 s.
    pub fn default() -> (c: Self)
        ensures
            c.enable_simd,
            c.memory_pool_size == 10000,
            c.memory_pool_prealloc == 1000,
            c.tcp_nodelay,
            c.tcp_keepalive,
            c.socket_buffer_size == 65536,
            c.high_priority_workers == 2,
            c.normal_priority_workers >= 1,
            c.background_workers == 2,
            c.metrics_interval_secs == 30,
    {
        PerformanceConfig {
            enable_simd: true,
            memory_pool_size: 10000,
            memory_pool_prealloc: 1000,
            tcp_nodelay: true,
            tcp_keepalive: true,
            socket_buffer_size: 64 * 1024,
            high_priority_workers: 2,
            normal_priority_workers: cpu_count(),
            background_workers: 2,
            metrics_interval_secs: 30,
        }
    }
}

} // verus!
