//! Byte-array kernels (compare, search, XOR, checksum) behind a dispatcher
//! that records which instruction-set path serves each call. The kernels
//! here are the scalar definitions; the path only decides the counters.

use vstd::prelude::*;
use crate::ring_buffer::wrap_add_u64;

verus! {

/// Settings of the optimizer.
#[derive(Debug, Clone)]
pub struct SimdOptimizerConfig {
    pub enable_avx2: bool,
    pub enable_sse42: bool,
    pub enable_auto_vectorization: bool,
    /// Inputs shorter than this take the plain path.
    pub min_simd_size: usize,
    pub use_aligned_memory: bool,
    pub enable_parallel_simd: bool,
}

impl SimdOptimizerConfig {
    /// Everything enabled, 64-byte threshold.
    pub fn default() -> (c: Self)
        ensures
            c.enable_avx2 && c.enable_sse42 && c.enable_auto_vectorization && c.min_simd_size == 64
                && c.use_aligned_memory && c.enable_parallel_simd,
    {
        SimdOptimizerConfig {
            enable_avx2: true,
            enable_sse42: true,
            enable_auto_vectorization: true,
            min_simd_size: 64,
            use_aligned_memory: true,
            enable_parallel_simd: true,
        }
    }
}

/// Instruction-set extensions the processor offers.
#[derive(Debug, Clone, Default)]
pub struct SimdCapabilities {
    pub has_sse: bool,
    pub has_sse2: bool,
    pub has_sse3: bool,
    pub has_ssse3: bool,
    pub has_sse41: bool,
    pub has_sse42: bool,
    pub has_avx: bool,
    pub has_avx2: bool,
    pub has_avx512: bool,
}

/// The widest path chosen.
#[derive(Debug, Clone, Copy, PartialEq, Eq)]
pub enum SimdLevel {
    NoSimd,
    Sse2,
    Sse42,
    Avx2,
    Avx512,
}

/// The level chosen for a set of capabilities: AVX2, else SSE4.2, else SSE2, else none.
pub open spec fn optimal_level_of(c: SimdCapabilities) -> SimdLevel {
    if c.has_avx2 {
        SimdLevel::Avx2
    } else if c.has_sse42 {
        SimdLevel::Sse42
    } else if c.has_sse2 {
        SimdLevel::Sse2
    } else {
        SimdLevel::NoSimd
    }
}

/// No SIMD feature at all.
pub open spec fn no_capabilities() -> SimdCapabilities {
    SimdCapabilities {
        has_sse: false,
        has_sse2: false,
        has_sse3: false,
        has_ssse3: false,
        has_sse41: false,
        has_sse42: false,
        has_avx: false,
        has_avx2: false,
        has_avx512: false,
    }
}

impl SimdCapabilities {
    /// The capabilities to use from the features the CPU reports: all of
    /// them when SSE is there, else none.
    pub fn from_detected(read: SimdCapabilities) -> (c: SimdCapabilities)
        ensures
            c == (if read.has_sse { read } else { no_capabilities() }),
    {
        if read.has_sse {
            read
        } else {
            SimdCapabilities {
                has_sse: false,
                has_sse2: false,
                has_sse3: false,
                has_ssse3: false,
                has_sse41: false,
                has_sse42: false,
                has_avx: false,
                has_avx2: false,
                has_avx512: false,
            }
        }
    }

    /// The widest level these capabilities allow (AVX-512 is never chosen).
    pub fn optimal_level(&self) -> (l: SimdLevel)
        ensures
            l == optimal_level_of(*self),
    {
        if self.has_avx2 {
            SimdLevel::Avx2
        } else if self.has_sse42 {
            SimdLevel::Sse42
        } else if self.has_sse2 {
            SimdLevel::Sse2
        } else {
            SimdLevel::NoSimd
        }
    }
}

/// Operation counters; each wraps at 2^64.
#[derive(Debug, Clone, Copy, Default)]
pub struct SimdStats {
    pub total_operations: u64,
    pub vectorized_operations: u64,
    pub bytes_processed: u64,
    pub avx2_operations: u64,
    pub sse42_operations: u64,
    pub fallback_operations: u64,
    pub alignment_optimizations: u64,
    pub parallel_executions: u64,
}

/// A snapshot of the counters and the chosen level.
#[derive(Debug, Clone, Copy)]
pub struct SimdPerformanceStats {
    pub total_operations: u64,
    pub vectorized_operations: u64,
    pub bytes_processed: u64,
    pub avx2_usage: u64,
    pub sse42_usage: u64,
    pub fallback_usage: u64,
    pub alignment_optimizations: u64,
    pub parallel_executions: u64,
    pub optimal_level: SimdLevel,
}

/// Which path a call of `len` bytes takes.
pub enum SimdPath {
    Fallback,
    Avx2,
    Sse42,
}

/// The path taken for `len` bytes: below the threshold the plain path, else
/// AVX2 when enabled and present, else SSE4.2 when `sse42_allowed` and enabled
/// and present, else the plain path.
pub open spec fn path_for(
    config: SimdOptimizerConfig,
    caps: SimdCapabilities,
    len: int,
    sse42_allowed: bool,
) -> SimdPath {
    if len < config.min_simd_size {
        SimdPath::Fallback
    } else if config.enable_avx2 && caps.has_avx2 {
        SimdPath::Avx2
    } else if sse42_allowed && config.enable_sse42 && caps.has_sse42 {
        SimdPath::Sse42
    } else {
        SimdPath::Fallback
    }
}

/// The counters after one call that processed `bytes` bytes on `path`.
pub open spec fn stats_after(s: SimdStats, bytes: int, path: SimdPath) -> SimdStats {
    let base = SimdStats {
        total_operations: wrap_add_u64(s.total_operations, 1),
        bytes_processed: wrap_add_u64(s.bytes_processed, bytes),
        ..s
    };
    match path {
        SimdPath::Fallback => SimdStats {
            fallback_operations: wrap_add_u64(s.fallback_operations, 1),
            ..base
        },
        SimdPath::Avx2 => SimdStats {
            avx2_operations: wrap_add_u64(s.avx2_operations, 1),
            vectorized_operations: wrap_add_u64(s.vectorized_operations, 1),
            ..base
        },
        SimdPath::Sse42 => SimdStats {
            sse42_operations: wrap_add_u64(s.sse42_operations, 1),
            vectorized_operations: wrap_add_u64(s.vectorized_operations, 1),
            ..base
        },
    }
}

/// Whether two equally long slices hold the same bytes.
fn bytes_equal(a: &[u8], b: &[u8]) -> (eq: bool)
    requires
        a@.len() == b@.len(),
    ensures
        eq == (a@ == b@),
{
    let len = a.len();
    let mut i: usize = 0;
    while i < len
        invariant
            len == a@.len(),
            len == b@.len(),
            i <= len,
            forall|k: int| 0 <= k < i ==> a@[k] == b@[k],
        decreases len - i,
    {
        if a[i] != b[i] {
            return false;
        }
        i = i + 1;
    }
    assert(a@ =~= b@);
    true
}

/// The first index holding `needle`.
fn position_of(haystack: &[u8], needle: u8) -> (r: Option<usize>)
    ensures
        match r {
            Some(i) => i < haystack@.len() && haystack@[i as int] == needle && forall|j: int|
                0 <= j < i ==> haystack@[j] != needle,
            None => forall|j: int| 0 <= j < haystack@.len() ==> haystack@[j] != needle,
        },
{
    let len = haystack.len();
    let mut i: usize = 0;
    while i < len
        invariant
            len == haystack@.len(),
            i <= len,
            forall|k: int| 0 <= k < i ==> haystack@[k] != needle,
        decreases len - i,
    {
        if haystack[i] == needle {
            return Some(i);
        }
        i = i + 1;
    }
    None
}

/// The bytewise XOR of two equally long slices.
fn xor_bytes(a: &[u8], b: &[u8]) -> (r: Vec<u8>)
    requires
        a@.len() == b@.len(),
    ensures
        r@.len() == a@.len(),
        forall|i: int| 0 <= i < a@.len() ==> #[trigger] r@[i] == (a@[i] ^ b@[i]),
{
    let len = a.len();
    let mut result: Vec<u8> = Vec::with_capacity(len);
    let mut i: usize = 0;
    while i < len
        invariant
            len == a@.len(),
            len == b@.len(),
            i <= len,
            result@.len() == i,
            forall|k: int| 0 <= k < i ==> #[trigger] result@[k] == (a@[k] ^ b@[k]),
        decreases len - i,
    {
        result.push(a[i] ^ b[i]);
        i = i + 1;
    }
    result
}

/// The length of a byte sequence as an integer.
pub open spec fn byte_len(d: Seq<u8>) -> int {
    d.len() as int
}

fn usize_to_u64(n: usize) -> (r: u64)
    ensures
        r == n,
{
    n as u64
}

/// The sum of the bytes.
pub open spec fn byte_sum(d: Seq<u8>) -> nat
    decreases d.len(),
{
    if d.len() == 0 {
        0
    } else {
        byte_sum(d.drop_last()) + (d.last() as nat)
    }
}

/// The byte-array kernels with their counters.
pub struct SimdOptimizer {
    config: SimdOptimizerConfig,
    capabilities: SimdCapabilities,
    optimal_level: SimdLevel,
    stats: SimdStats,
}

impl SimdOptimizer {
    pub closed spec fn config_of(&self) -> SimdOptimizerConfig {
        self.config
    }

    pub closed spec fn capabilities_of(&self) -> SimdCapabilities {
        self.capabilities
    }

    pub closed spec fn stats_of(&self) -> SimdStats {
        self.stats
    }

    pub closed spec fn level_of(&self) -> SimdLevel {
        self.optimal_level
    }

    /// An optimizer for the given processor capabilities, counters at zero.
    pub fn new(config: SimdOptimizerConfig, capabilities: SimdCapabilities) -> (o: Self)
        ensures
            o.config_of() == config,
            o.capabilities_of() == capabilities,
            o.level_of() == optimal_level_of(capabilities),
            o.stats_of() == SimdStats::default_spec(),
    {
        let optimal_level = capabilities.optimal_level();
        SimdOptimizer { config, capabilities, optimal_level, stats: SimdStats::zero() }
    }

    fn record(&mut self, bytes: u64, path: SimdPath)
        ensures
            final(self).stats_of() == stats_after(old(self).stats_of(), bytes as int, path),
            final(self).config_of() == old(self).config_of(),
            final(self).capabilities_of() == old(self).capabilities_of(),
            final(self).level_of() == old(self).level_of(),
    {
        self.stats.total_operations = self.stats.total_operations.wrapping_add(1);
        self.stats.bytes_processed = self.stats.bytes_processed.wrapping_add(bytes);
        match path {
            SimdPath::Fallback => {
                self.stats.fallback_operations = self.stats.fallback_operations.wrapping_add(1);
            },
            SimdPath::Avx2 => {
                self.stats.avx2_operations = self.stats.avx2_operations.wrapping_add(1);
                self.stats.vectorized_operations = self.stats.vectorized_operations.wrapping_add(1);
            },
            SimdPath::Sse42 => {
                self.stats.sse42_operations = self.stats.sse42_operations.wrapping_add(1);
                self.stats.vectorized_operations = self.stats.vectorized_operations.wrapping_add(1);
            },
        }
    }

    fn choose_path(&self, len: usize, sse42_allowed: bool) -> (p: SimdPath)
        ensures
            p == path_for(self.config_of(), self.capabilities_of(), len as int, sse42_allowed),
    {
        if len < self.config.min_simd_size {
            SimdPath::Fallback
        } else if self.config.enable_avx2 && self.capabilities.has_avx2 {
            SimdPath::Avx2
        } else if sse42_allowed && self.config.enable_sse42 && self.capabilities.has_sse42 {
            SimdPath::Sse42
        } else {
            SimdPath::Fallback
        }
    }

    /// Whether `a` and `b` hold the same bytes. Inputs of different lengths
    /// are unequal and are not counted.
    pub fn simd_memcmp(&mut self, a: &[u8], b: &[u8]) -> (eq: bool)
        ensures
            eq == (a@ == b@),
            final(self).stats_of() == if a@.len() != b@.len() {
                old(self).stats_of()
            } else {
                stats_after(
                    old(self).stats_of(),
                    byte_len(a@),
                    path_for(old(self).config_of(), old(self).capabilities_of(), byte_len(a@), true),
                )
            },
            final(self).config_of() == old(self).config_of(),
            final(self).capabilities_of() == old(self).capabilities_of(),
            final(self).level_of() == old(self).level_of(),
    {
        if a.len() != b.len() {
            return false;
        }
        let len = a.len();
        let path = self.choose_path(len, true);
        self.record(usize_to_u64(len), path);
        bytes_equal(a, b)
    }

    /// The first position of `needle` in `haystack`.
    pub fn simd_find(&mut self, haystack: &[u8], needle: u8) -> (r: Option<usize>)
        ensures
            match r {
                Some(i) => i < haystack@.len() && haystack@[i as int] == needle && forall|j: int|
                    0 <= j < i ==> haystack@[j] != needle,
                None => forall|j: int| 0 <= j < haystack@.len() ==> haystack@[j] != needle,
            },
            final(self).stats_of() == stats_after(
                old(self).stats_of(),
                haystack@.len() as int,
                path_for(old(self).config_of(), old(self).capabilities_of(), haystack@.len() as int, true),
            ),
            final(self).config_of() == old(self).config_of(),
            final(self).capabilities_of() == old(self).capabilities_of(),
            final(self).level_of() == old(self).level_of(),
    {
        let len = haystack.len();
        let path = self.choose_path(len, true);
        self.record(len as u64, path);
        position_of(haystack, needle)
    }

    /// The bytewise XOR of `a` and `b`; empty, and not counted, when the
    /// lengths differ.
    pub fn simd_xor(&mut self, a: &[u8], b: &[u8]) -> (r: Vec<u8>)
        requires
            a@.len() <= isize::MAX,
        ensures
            if a@.len() != b@.len() {
                r@ == Seq::<u8>::empty() && final(self).stats_of() == old(self).stats_of()
            } else {
                &&& r@.len() == a@.len()
                &&& forall|i: int| 0 <= i < a@.len() ==> #[trigger] r@[i] == (a@[i] ^ b@[i])
                &&& final(self).stats_of() == stats_after(
                    old(self).stats_of(),
                    2 * byte_len(a@),
                    path_for(old(self).config_of(), old(self).capabilities_of(), a@.len() as int, true),
                )
            },
            final(self).config_of() == old(self).config_of(),
            final(self).capabilities_of() == old(self).capabilities_of(),
            final(self).level_of() == old(self).level_of(),
    {
        if a.len() != b.len() {
            return Vec::new();
        }
        let len = a.len();
        let path = self.choose_path(len, true);
        self.record((len as u64) * 2, path);
        xor_bytes(a, b)
    }

    /// The sum of the bytes, which must fit in a `u32`.
    pub fn simd_checksum(&mut self, data: &[u8]) -> (sum: u32)
        requires
            byte_sum(data@) <= u32::MAX,
        ensures
            sum == byte_sum(data@),
            final(self).stats_of() == stats_after(
                old(self).stats_of(),
                data@.len() as int,
                path_for(old(self).config_of(), old(self).capabilities_of(), data@.len() as int, false),
            ),
            final(self).config_of() == old(self).config_of(),
            final(self).capabilities_of() == old(self).capabilities_of(),
            final(self).level_of() == old(self).level_of(),
    {
        let len = data.len();
        let path = self.choose_path(len, false);
        self.record(len as u64, path);
        Self::simple_checksum(data)
    }

    /// The plain sum of the bytes.
    pub fn simple_checksum(data: &[u8]) -> (sum: u32)
        requires
            byte_sum(data@) <= u32::MAX,
        ensures
            sum == byte_sum(data@),
    {
        let mut total: u32 = 0;
        let mut i: usize = 0;
        while i < data.len()
            invariant
                i <= data@.len(),
                total == byte_sum(data@.take(i as int)),
                byte_sum(data@) <= u32::MAX,
            decreases data@.len() - i,
        {
            proof {
                assert(data@.take(i + 1).drop_last() =~= data@.take(i as int));
                lemma_byte_sum_prefix(data@, i + 1);
            }
            total = total + data[i] as u32;
            i = i + 1;
        }
        assert(data@.take(i as int) =~= data@);
        total
    }

    /// A zeroed buffer of `size` bytes; counted as an alignment optimization
    /// when aligned memory is enabled (then `alignment` must not be zero).
    pub fn allocate_aligned(&mut self, size: usize, alignment: usize) -> (v: Vec<u8>)
        requires
            old(self).config_of().use_aligned_memory ==> alignment > 0,
        ensures
            v@ == Seq::new(size as nat, |i: int| 0u8),
            final(self).stats_of() == if old(self).config_of().use_aligned_memory {
                SimdStats {
                    alignment_optimizations: wrap_add_u64(old(self).stats_of().alignment_optimizations, 1),
                    ..old(self).stats_of()
                }
            } else {
                old(self).stats_of()
            },
            final(self).config_of() == old(self).config_of(),
            final(self).capabilities_of() == old(self).capabilities_of(),
            final(self).level_of() == old(self).level_of(),
    {
        if self.config.use_aligned_memory {
            self.stats.alignment_optimizations = self.stats.alignment_optimizations.wrapping_add(1);
        }
        let v = vec![0u8; size];
        assert(v@ =~= Seq::new(size as nat, |i: int| 0u8));
        v
    }

    /// Counts one parallel batch.
    pub fn record_parallel_execution(&mut self)
        ensures
            final(self).stats_of() == (SimdStats {
                parallel_executions: wrap_add_u64(old(self).stats_of().parallel_executions, 1),
                ..old(self).stats_of()
            }),
            final(self).config_of() == old(self).config_of(),
            final(self).capabilities_of() == old(self).capabilities_of(),
            final(self).level_of() == old(self).level_of(),
    {
        self.stats.parallel_executions = self.stats.parallel_executions.wrapping_add(1);
    }

    /// Applies `operation` to each chunk of `data` and returns the results
    /// in the chunks' order. With parallel processing enabled and at least
    /// two chunks, the batch counts as one parallel execution.
    pub fn parallel_simd_process<F: Fn(&Vec<u8>) -> Vec<u8>>(&mut self, data: Vec<Vec<u8>>, operation: F) -> (r: Vec<Vec<u8>>)
        requires
            forall|i: int| 0 <= i < data@.len() ==> call_requires(operation, (&data@[i],)),
        ensures
            r@.len() == data@.len(),
            forall|i: int| 0 <= i < data@.len() ==> call_ensures(operation, (&data@[i],), #[trigger] r@[i]),
            final(self).stats_of() == (if old(self).config_of().enable_parallel_simd && data@.len() >= 2 {
                SimdStats {
                    parallel_executions: wrap_add_u64(old(self).stats_of().parallel_executions, 1),
                    ..old(self).stats_of()
                }
            } else {
                old(self).stats_of()
            }),
            final(self).config_of() == old(self).config_of(),
            final(self).capabilities_of() == old(self).capabilities_of(),
            final(self).level_of() == old(self).level_of(),
    {
        if self.config.enable_parallel_simd && data.len() >= 2 {
            self.record_parallel_execution();
        }
        let mut results: Vec<Vec<u8>> = Vec::new();
        let mut i: usize = 0;
        while i < data.len()
            invariant
                i <= data@.len(),
                results@.len() == i,
                forall|j: int| 0 <= j < data@.len() ==> call_requires(operation, (&data@[j],)),
                forall|j: int| 0 <= j < i ==> call_ensures(operation, (&data@[j],), #[trigger] results@[j]),
            decreases data@.len() - i,
        {
            let out = operation(&data[i]);
            results.push(out);
            i = i + 1;
        }
        results
    }

    /// Whether batches run in parallel.
    pub fn parallel_enabled(&self) -> (b: bool)
        ensures
            b == self.config_of().enable_parallel_simd,
    {
        self.config.enable_parallel_simd
    }

    /// A snapshot of the counters.
    pub fn get_stats(&self) -> (s: SimdPerformanceStats)
        ensures
            s.total_operations == self.stats_of().total_operations,
            s.vectorized_operations == self.stats_of().vectorized_operations,
            s.bytes_processed == self.stats_of().bytes_processed,
            s.avx2_usage == self.stats_of().avx2_operations,
            s.sse42_usage == self.stats_of().sse42_operations,
            s.fallback_usage == self.stats_of().fallback_operations,
            s.alignment_optimizations == self.stats_of().alignment_optimizations,
            s.parallel_executions == self.stats_of().parallel_executions,
            s.optimal_level == self.level_of(),
    {
        SimdPerformanceStats {
            total_operations: self.stats.total_operations,
            vectorized_operations: self.stats.vectorized_operations,
            bytes_processed: self.stats.bytes_processed,
            avx2_usage: self.stats.avx2_operations,
            sse42_usage: self.stats.sse42_operations,
            fallback_usage: self.stats.fallback_operations,
            alignment_optimizations: self.stats.alignment_optimizations,
            parallel_executions: self.stats.parallel_executions,
            optimal_level: self.optimal_level,
        }
    }
}

impl SimdStats {
    pub open spec fn default_spec() -> SimdStats {
        SimdStats {
            total_operations: 0,
            vectorized_operations: 0,
            bytes_processed: 0,
            avx2_operations: 0,
            sse42_operations: 0,
            fallback_operations: 0,
            alignment_optimizations: 0,
            parallel_executions: 0,
        }
    }

    /// All counters at zero.
    pub fn zero() -> (s: SimdStats)
        ensures
            s == SimdStats::default_spec(),
    {
        SimdStats {
            total_operations: 0,
            vectorized_operations: 0,
            bytes_processed: 0,
            avx2_operations: 0,
            sse42_operations: 0,
            fallback_operations: 0,
            alignment_optimizations: 0,
            parallel_executions: 0,
        }
    }
}

proof fn lemma_byte_sum_prefix(d: Seq<u8>, n: int)
    requires
        0 <= n <= d.len(),
    ensures
        byte_sum(d.take(n)) <= byte_sum(d),
    decreases d.len(),
{
    if n < d.len() {
        assert(d.drop_last().take(n) =~= d.take(n));
        lemma_byte_sum_prefix(d.drop_last(), n);
    } else {
        assert(d.take(n) =~= d);
    }
}

} // verus!
