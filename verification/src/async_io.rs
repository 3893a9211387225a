//! The bookkeeping of the asynchronous I/O path: settings, running I/O
//! statistics, a pool of reusable read buffers, write coalescing, and the
//! sample window that sizes read buffers.

use vstd::prelude::*;
use bytes::{Bytes, BytesMut};
use crate::ring_buffer::{wrap_add_u64, RingBuffer};

verus! {

/// The growable byte buffer of the `bytes` crate.
#[verifier::external_type_specification]
#[verifier::external_body]
pub struct ExBytesMut(BytesMut);

/// The shared immutable byte buffer of the `bytes` crate.
#[verifier::external_type_specification]
#[verifier::external_body]
pub struct ExBytes(Bytes);

/// The bytes a `BytesMut` holds.
pub uninterp spec fn bytes_mut_content(b: BytesMut) -> Seq<u8>;

/// The bytes a `Bytes` holds.
pub uninterp spec fn bytes_content(b: Bytes) -> Seq<u8>;

/// `BytesMut::with_capacity`: an empty buffer with room for `capacity` bytes.
#[verifier::external_body]
pub(crate) fn new_buffer(capacity: usize) -> (b: BytesMut)
    ensures
        bytes_mut_content(b) == Seq::<u8>::empty(),
{
    BytesMut::with_capacity(capacity)
}

/// `BytesMut::clear`: empties the buffer, keeping its capacity.
#[verifier::external_body]
pub(crate) fn clear_buffer(b: &mut BytesMut)
    ensures
        bytes_mut_content(*final(b)) == Seq::<u8>::empty(),
{
    b.clear();
}

/// `Bytes::len`: how many bytes `b` holds.
#[verifier::external_body]
pub(crate) fn bytes_len(b: &Bytes) -> (n: usize)
    ensures
        n == bytes_content(*b).len(),
{
    b.len()
}

/// Settings of the I/O path.
#[derive(Debug, Clone, Copy)]
pub struct AsyncIoOptimizerConfig {
    pub buffer_size: usize,
    pub pipeline_depth: usize,
    pub enable_vectored_io: bool,
    pub enable_zero_copy: bool,
    pub enable_adaptive_buffering: bool,
    pub enable_io_coalescing: bool,
    pub max_concurrent_io: usize,
    pub completion_queue_size: usize,
}

impl AsyncIoOptimizerConfig {
    /// 64 KiB buffers, pipeline depth 4, every optimization on, 1000
    /// concurrent operations, a completion queue of 512.
    pub fn default() -> (c: Self)
        ensures
            c.buffer_size == 65536,
            c.pipeline_depth == 4,
            c.enable_vectored_io && c.enable_zero_copy && c.enable_adaptive_buffering
                && c.enable_io_coalescing,
            c.max_concurrent_io == 1000,
            c.completion_queue_size == 512,
    {
        AsyncIoOptimizerConfig {
            buffer_size: 65536,
            pipeline_depth: 4,
            enable_vectored_io: true,
            enable_zero_copy: true,
            enable_adaptive_buffering: true,
            enable_io_coalescing: true,
            max_concurrent_io: 1000,
            completion_queue_size: 512,
        }
    }
}

/// I/O counters; every operation wraps at 2^64.
#[derive(Debug, Clone, Copy)]
pub struct IoStats {
    pub total_reads: u64,
    pub total_writes: u64,
    pub bytes_read: u64,
    pub bytes_written: u64,
    pub zero_copy_operations: u64,
    pub vectored_operations: u64,
    pub coalesced_operations: u64,
    pub buffer_resizes: u64,
    pub io_errors: u64,
    pub avg_read_latency_us: u64,
    pub avg_write_latency_us: u64,
}

pub open spec fn wrap_u64(x: int) -> u64 {
    (x % 0x1_0000_0000_0000_0000) as u64
}

/// The running average after one more sample: `(avg * (n - 1) + sample) / n`
/// with the product and the sum wrapping at 2^64, for a count `n` that is
/// not zero; the average is kept when the count wrapped to zero.
pub open spec fn next_average(avg: u64, n: u64, sample: u64) -> u64 {
    if n > 0 {
        (wrap_u64(wrap_u64(avg * (n - 1)) + sample) / n) as u64
    } else {
        avg
    }
}

fn running_average(avg: u64, n: u64, sample: u64) -> (r: u64)
    ensures
        r == next_average(avg, n, sample),
{
    if n > 0 {
        let p = avg.wrapping_mul(n - 1);
        let s = p.wrapping_add(sample);
        s / n
    } else {
        avg
    }
}

impl IoStats {
    pub open spec fn zero_spec() -> IoStats {
        IoStats {
            total_reads: 0,
            total_writes: 0,
            bytes_read: 0,
            bytes_written: 0,
            zero_copy_operations: 0,
            vectored_operations: 0,
            coalesced_operations: 0,
            buffer_resizes: 0,
            io_errors: 0,
            avg_read_latency_us: 0,
            avg_write_latency_us: 0,
        }
    }

    /// All counters at zero.
    pub fn zero() -> (s: Self)
        ensures
            s == Self::zero_spec(),
    {
        IoStats {
            total_reads: 0,
            total_writes: 0,
            bytes_read: 0,
            bytes_written: 0,
            zero_copy_operations: 0,
            vectored_operations: 0,
            coalesced_operations: 0,
            buffer_resizes: 0,
            io_errors: 0,
            avg_read_latency_us: 0,
            avg_write_latency_us: 0,
        }
    }

    /// Counts a read of `bytes` bytes that took `latency_us`, folding the
    /// latency into the running average.
    pub fn record_read(&mut self, bytes: u64, latency_us: u64)
        ensures
            final(self).total_reads == wrap_add_u64(old(self).total_reads, 1),
            final(self).bytes_read == wrap_add_u64(old(self).bytes_read, bytes as int),
            final(self).avg_read_latency_us == next_average(
                old(self).avg_read_latency_us,
                final(self).total_reads,
                latency_us,
            ),
            *final(self) == (IoStats {
                total_reads: final(self).total_reads,
                bytes_read: final(self).bytes_read,
                avg_read_latency_us: final(self).avg_read_latency_us,
                ..*old(self)
            }),
    {
        self.total_reads = self.total_reads.wrapping_add(1);
        self.bytes_read = self.bytes_read.wrapping_add(bytes);
        self.avg_read_latency_us = running_average(self.avg_read_latency_us, self.total_reads, latency_us);
    }

    /// Counts a write of `bytes` bytes that took `latency_us`, folding the
    /// latency into the running average.
    pub fn record_write(&mut self, bytes: u64, latency_us: u64)
        ensures
            final(self).total_writes == wrap_add_u64(old(self).total_writes, 1),
            final(self).bytes_written == wrap_add_u64(old(self).bytes_written, bytes as int),
            final(self).avg_write_latency_us == next_average(
                old(self).avg_write_latency_us,
                final(self).total_writes,
                latency_us,
            ),
            *final(self) == (IoStats {
                total_writes: final(self).total_writes,
                bytes_written: final(self).bytes_written,
                avg_write_latency_us: final(self).avg_write_latency_us,
                ..*old(self)
            }),
    {
        self.total_writes = self.total_writes.wrapping_add(1);
        self.bytes_written = self.bytes_written.wrapping_add(bytes);
        self.avg_write_latency_us = running_average(self.avg_write_latency_us, self.total_writes, latency_us);
    }
}

/// Why a buffer could not be handed out.
#[derive(Debug, Clone, Copy, PartialEq, Eq)]
pub enum BufferPoolError {
    /// Every buffer the pool may make is in use.
    Exhausted,
}

/// A pool of reusable read buffers.
pub struct ZeroCopyBufferPool {
    available_buffers: Vec<BytesMut>,
    buffer_size: usize,
    max_buffers: usize,
    allocated_count: usize,
}

impl ZeroCopyBufferPool {
    /// The number of buffers waiting to be reused.
    pub closed spec fn available(&self) -> nat {
        self.available_buffers@.len()
    }

    /// The number of buffers the pool has made.
    pub closed spec fn allocated(&self) -> nat {
        self.allocated_count as nat
    }

    pub closed spec fn limit(&self) -> nat {
        self.max_buffers as nat
    }

    pub closed spec fn size(&self) -> nat {
        self.buffer_size as nat
    }

    /// A pool of at most `max_buffers` buffers of `buffer_size` bytes, half
    /// of them made at once.
    pub fn new(buffer_size: usize, max_buffers: usize) -> (p: Self)
        ensures
            p.available() == max_buffers / 2,
            p.allocated() == max_buffers / 2,
            p.limit() == max_buffers,
            p.size() == buffer_size,
    {
        let half = max_buffers / 2;
        let mut buffers: Vec<BytesMut> = Vec::new();
        let mut i: usize = 0;
        while i < half
            invariant
                i <= half,
                buffers@.len() == i,
            decreases half - i,
        {
            buffers.push(new_buffer(buffer_size));
            i = i + 1;
        }
        ZeroCopyBufferPool {
            available_buffers: buffers,
            buffer_size,
            max_buffers,
            allocated_count: half,
        }
    }

    /// Hands out an emptied buffer: a waiting one, or a new one while the
    /// pool has made fewer than its limit. Refused when neither is possible.
    pub fn acquire(&mut self) -> (r: Result<BytesMut, BufferPoolError>)
        ensures
            final(self).limit() == old(self).limit(),
            final(self).size() == old(self).size(),
            old(self).available() > 0 ==> (r matches Ok(b) && bytes_mut_content(b) == Seq::<u8>::empty())
                && final(self).available() == old(self).available() - 1 && final(self).allocated()
                == old(self).allocated(),
            old(self).available() == 0 && old(self).allocated() < old(self).limit() ==> (r matches Ok(b)
                && bytes_mut_content(b) == Seq::<u8>::empty()) && final(self).available() == 0
                && final(self).allocated() == old(self).allocated() + 1,
            old(self).available() == 0 && old(self).allocated() >= old(self).limit() ==> r
                == Err::<BytesMut, BufferPoolError>(BufferPoolError::Exhausted) && final(self).available()
                == 0 && final(self).allocated() == old(self).allocated(),
    {
        match self.available_buffers.pop() {
            Some(mut b) => {
                clear_buffer(&mut b);
                Ok(b)
            },
            None => {
                if self.allocated_count < self.max_buffers {
                    self.allocated_count = self.allocated_count + 1;
                    Ok(new_buffer(self.buffer_size))
                } else {
                    Err(BufferPoolError::Exhausted)
                }
            },
        }
    }

    /// Takes a buffer back, unless as many as the limit are waiting already
    /// (then it is dropped).
    pub fn release(&mut self, buffer: BytesMut)
        ensures
            final(self).available() == if old(self).available() < old(self).limit() {
                old(self).available() + 1
            } else {
                old(self).available()
            },
            final(self).allocated() == old(self).allocated(),
            final(self).limit() == old(self).limit(),
            final(self).size() == old(self).size(),
    {
        if self.available_buffers.len() < self.max_buffers {
            self.available_buffers.push(buffer);
        }
    }
}

/// The total length of queued writes.
pub open spec fn total_bytes(q: Seq<Bytes>) -> nat
    decreases q.len(),
{
    if q.len() == 0 {
        0
    } else {
        total_bytes(q.drop_last()) + bytes_content(q.last()).len()
    }
}

/// Gathers small writes until enough bytes or enough time have piled up.
pub struct IoCoalescingManager {
    pending_writes: Vec<Bytes>,
    coalescing_threshold: usize,
    coalescing_timeout_ms: u64,
    last_coalesce_ms: u64,
}

impl IoCoalescingManager {
    /// The queued writes, oldest first.
    pub closed spec fn pending(&self) -> Seq<Bytes> {
        self.pending_writes@
    }

    pub closed spec fn threshold(&self) -> nat {
        self.coalescing_threshold as nat
    }

    pub closed spec fn timeout_ms(&self) -> u64 {
        self.coalescing_timeout_ms
    }

    /// When the queue was last emptied.
    pub closed spec fn last_coalesce(&self) -> u64 {
        self.last_coalesce_ms
    }

    /// An empty queue flushing at `threshold` bytes or after `timeout_ms`,
    /// its clock started at `now_ms`.
    pub fn new(threshold: usize, timeout_ms: u64, now_ms: u64) -> (m: Self)
        ensures
            m.pending() == Seq::<Bytes>::empty(),
            m.threshold() == threshold,
            m.timeout_ms() == timeout_ms,
            m.last_coalesce() == now_ms,
    {
        IoCoalescingManager {
            pending_writes: Vec::new(),
            coalescing_threshold: threshold,
            coalescing_timeout_ms: timeout_ms,
            last_coalesce_ms: now_ms,
        }
    }

    /// Queues a write at `now_ms`; when the queue holds at least the
    /// threshold in bytes, or the timeout has passed since it was last
    /// emptied, hands back the whole queue, oldest first, and starts anew.
    pub fn add_write(&mut self, data: Bytes, now_ms: u64) -> (r: Option<Vec<Bytes>>)
        requires
            total_bytes(old(self).pending().push(data)) <= usize::MAX,
        ensures
            final(self).threshold() == old(self).threshold(),
            final(self).timeout_ms() == old(self).timeout_ms(),
            ({
                let q = old(self).pending().push(data);
                let due = total_bytes(q) >= old(self).threshold() || (now_ms >= old(self).last_coalesce()
                    && now_ms - old(self).last_coalesce() >= old(self).timeout_ms());
                if due {
                    &&& r matches Some(v) && v@ == q
                    &&& final(self).pending() == Seq::<Bytes>::empty()
                    &&& final(self).last_coalesce() == now_ms
                } else {
                    &&& r is None
                    &&& final(self).pending() == q
                    &&& final(self).last_coalesce() == old(self).last_coalesce()
                }
            }),
    {
        self.pending_writes.push(data);
        let mut total: usize = 0;
        let mut i: usize = 0;
        while i < self.pending_writes.len()
            invariant
                i <= self.pending_writes@.len(),
                total == total_bytes(self.pending_writes@.take(i as int)),
                total_bytes(self.pending_writes@) <= usize::MAX,
            decreases self.pending_writes@.len() - i,
        {
            proof {
                let q = self.pending_writes@;
                assert(q.take(i + 1).drop_last() =~= q.take(i as int));
                lemma_total_prefix(q, i + 1);
            }
            total = total + bytes_len(&self.pending_writes[i]);
            i = i + 1;
        }
        proof {
            assert(self.pending_writes@.take(i as int) =~= self.pending_writes@);
        }
        let elapsed_due = now_ms >= self.last_coalesce_ms && now_ms - self.last_coalesce_ms
            >= self.coalescing_timeout_ms;
        if total >= self.coalescing_threshold || elapsed_due {
            let mut taken: Vec<Bytes> = Vec::new();
            std::mem::swap(&mut taken, &mut self.pending_writes);
            self.last_coalesce_ms = now_ms;
            Some(taken)
        } else {
            None
        }
    }

    /// Hands back every queued write, oldest first, and restarts the clock.
    pub fn flush(&mut self, now_ms: u64) -> (v: Vec<Bytes>)
        ensures
            v@ == old(self).pending(),
            final(self).pending() == Seq::<Bytes>::empty(),
            final(self).last_coalesce() == now_ms,
            final(self).threshold() == old(self).threshold(),
            final(self).timeout_ms() == old(self).timeout_ms(),
    {
        let mut taken: Vec<Bytes> = Vec::new();
        std::mem::swap(&mut taken, &mut self.pending_writes);
        self.last_coalesce_ms = now_ms;
        taken
    }
}

proof fn lemma_total_prefix(q: Seq<Bytes>, n: int)
    requires
        0 <= n <= q.len(),
    ensures
        total_bytes(q.take(n)) <= total_bytes(q),
    decreases q.len(),
{
    if n < q.len() {
        assert(q.drop_last().take(n) =~= q.take(n));
        lemma_total_prefix(q.drop_last(), n);
    } else {
        assert(q.take(n) =~= q);
    }
}

/// The sum of the samples.
pub open spec fn seq_sum(s: Seq<usize>) -> nat
    decreases s.len(),
{
    if s.len() == 0 {
        0
    } else {
        seq_sum(s.drop_last()) + (s.last() as nat)
    }
}

/// The sum of the squared distances of the samples from `avg`.
pub open spec fn dev_sum(s: Seq<usize>, avg: nat) -> nat
    decreases s.len(),
{
    if s.len() == 0 {
        0
    } else {
        let x = s.last() as nat;
        let d: nat = if x > avg {
            (x - avg) as nat
        } else {
            (avg - x) as nat
        };
        dev_sum(s.drop_last(), avg) + d * d
    }
}

/// The sample window after `size` is recorded: the last 100 samples.
pub open spec fn window_after(w: Seq<usize>, size: usize) -> Seq<usize> {
    if w.push(size).len() > 100 {
        w.push(size).drop_first()
    } else {
        w.push(size)
    }
}

/// The mean and the variance (each rounded down) of a sample window.
#[derive(Debug, Clone, Copy, PartialEq, Eq)]
pub struct SizeSummary {
    pub average: usize,
    pub variance: usize,
}

/// Whether the sums behind the summary of `w` fit in a `usize`.
pub open spec fn summary_fits(w: Seq<usize>) -> bool {
    w.len() > 0 && seq_sum(w) <= usize::MAX && dev_sum(w, seq_sum(w) / w.len()) <= usize::MAX
}

/// The summary of a non-empty window.
pub open spec fn summary_of(w: Seq<usize>) -> SizeSummary {
    let avg = seq_sum(w) / w.len();
    SizeSummary { average: avg as usize, variance: (dev_sum(w, avg) / w.len()) as usize }
}

proof fn lemma_dev_sum_prefix(s: Seq<usize>, n: int, avg: nat)
    requires
        0 <= n <= s.len(),
    ensures
        dev_sum(s.take(n), avg) <= dev_sum(s, avg),
        seq_sum(s.take(n)) <= seq_sum(s),
    decreases s.len(),
{
    if n < s.len() {
        assert(s.drop_last().take(n) =~= s.take(n));
        lemma_dev_sum_prefix(s.drop_last(), n, avg);
    } else {
        assert(s.take(n) =~= s);
    }
}

fn summarize(w: &Vec<usize>) -> (r: SizeSummary)
    requires
        summary_fits(w@),
    ensures
        r == summary_of(w@),
{
    let n = w.len();
    let mut sum: usize = 0;
    let mut i: usize = 0;
    while i < n
        invariant
            n == w@.len(),
            i <= n,
            sum == seq_sum(w@.take(i as int)),
            seq_sum(w@) <= usize::MAX,
        decreases n - i,
    {
        proof {
            assert(w@.take(i + 1).drop_last() =~= w@.take(i as int));
            lemma_dev_sum_prefix(w@, i + 1, 0);
        }
        sum = sum + w[i];
        i = i + 1;
    }
    proof {
        assert(w@.take(n as int) =~= w@);
    }
    let avg = sum / n;
    let mut dev: usize = 0;
    let mut j: usize = 0;
    while j < n
        invariant
            n == w@.len(),
            j <= n,
            avg == seq_sum(w@) / (n as nat),
            dev == dev_sum(w@.take(j as int), avg as nat),
            dev_sum(w@, avg as nat) <= usize::MAX,
        decreases n - j,
    {
        proof {
            assert(w@.take(j + 1).drop_last() =~= w@.take(j as int));
            lemma_dev_sum_prefix(w@, j + 1, avg as nat);
        }
        let x = w[j];
        let d: usize = if x > avg {
            x - avg
        } else {
            avg - x
        };
        proof {
            assert(dev + d * d == dev_sum(w@.take(j + 1), avg as nat));
        }
        dev = dev + d * d;
        j = j + 1;
    }
    proof {
        assert(w@.take(n as int) =~= w@);
    }
    SizeSummary { average: avg, variance: dev / n }
}

/// Sizes read buffers from the recent read sizes.
pub struct AdaptiveBufferManager {
    min_size: usize,
    max_size: usize,
    current_size: usize,
    recent_io_sizes: Vec<usize>,
    adjustment_interval_ms: u64,
    last_adjustment_ms: u64,
}

impl AdaptiveBufferManager {
    /// The recent read sizes, oldest first.
    pub closed spec fn window(&self) -> Seq<usize> {
        self.recent_io_sizes@
    }

    pub closed spec fn current(&self) -> usize {
        self.current_size
    }

    pub closed spec fn bounds(&self) -> (usize, usize) {
        (self.min_size, self.max_size)
    }

    pub closed spec fn last_adjustment(&self) -> u64 {
        self.last_adjustment_ms
    }

    pub closed spec fn interval(&self) -> u64 {
        self.adjustment_interval_ms
    }

    pub closed spec fn wf(&self) -> bool {
        self.recent_io_sizes@.len() <= 100
    }

    /// Whether recording at `now_ms` adjusts the size.
    pub open spec fn due(&self, now_ms: u64) -> bool {
        now_ms >= self.last_adjustment() && now_ms - self.last_adjustment() >= self.interval()
    }

    /// A manager between `min_size` and `max_size`, starting at the
    /// minimum, adjusting at most every 10 seconds from `now_ms`.
    pub fn new(min_size: usize, max_size: usize, now_ms: u64) -> (m: Self)
        ensures
            m.wf(),
            m.window() == Seq::<usize>::empty(),
            m.current() == min_size,
            m.bounds() == (min_size, max_size),
            m.last_adjustment() == now_ms,
            m.interval() == 10000,
    {
        AdaptiveBufferManager {
            min_size,
            max_size,
            current_size: min_size,
            recent_io_sizes: Vec::new(),
            adjustment_interval_ms: 10000,
            last_adjustment_ms: now_ms,
        }
    }

    /// Whether recording `size` at `now_ms` stays within `usize` arithmetic.
    pub fn can_record(&self, size: usize, now_ms: u64) -> (ok: bool)
        requires
            self.wf(),
        ensures
            ok == (self.due(now_ms) ==> summary_fits(window_after(self.window(), size))),
    {
        if !(now_ms >= self.last_adjustment_ms && now_ms - self.last_adjustment_ms >= self.adjustment_interval_ms) {
            return true;
        }
        let mut w = self.recent_io_sizes.clone();
        w.push(size);
        if w.len() > 100 {
            w.remove(0);
        }
        proof {
            assert(w@ =~= window_after(self.window(), size));
        }
        let n = w.len();
        let mut sum: u128 = 0;
        let mut i: usize = 0;
        while i < n
            invariant
                n == w@.len(),
                n <= 101,
                i <= n,
                w@ == window_after(self.window(), size),
                self.due(now_ms),
                sum == seq_sum(w@.take(i as int)),
                sum <= i * 0xffff_ffff_ffff_ffff,
            decreases n - i,
        {
            proof {
                assert(w@.take(i + 1).drop_last() =~= w@.take(i as int));
            }
            sum = sum + w[i] as u128;
            i = i + 1;
        }
        proof {
            assert(w@.take(n as int) =~= w@);
        }
        if sum > usize::MAX as u128 {
            return false;
        }
        let avg: u128 = sum / (n as u128);
        let mut dev: u128 = 0;
        let mut j: usize = 0;
        while j < n
            invariant
                n == w@.len(),
                j <= n,
                w@ == window_after(self.window(), size),
                self.due(now_ms),
                avg == seq_sum(w@) / (n as nat),
                avg <= usize::MAX,
                dev == dev_sum(w@.take(j as int), avg as nat),
                dev <= usize::MAX,
            decreases n - j,
        {
            proof {
                assert(w@.take(j + 1).drop_last() =~= w@.take(j as int));
            }
            let x = w[j] as u128;
            let d: u128 = if x > avg {
                x - avg
            } else {
                avg - x
            };
            assert(d * d <= 0xffff_ffff_ffff_ffff * 0xffff_ffff_ffff_ffffu128) by (nonlinear_arith)
                requires
                    d <= 0xffff_ffff_ffff_ffff,
            ;
            let sq = d * d;
            if sq > usize::MAX as u128 - dev {
                proof {
                    lemma_dev_sum_prefix(w@, j + 1, avg as nat);
                    assert(w@.take(j + 1).drop_last() =~= w@.take(j as int));
                    assert(w@.take(j + 1).last() == w@[j as int]);
                    assert(dev + sq == dev_sum(w@.take(j + 1), avg as nat));
                    assert(dev_sum(w@, avg as nat) > usize::MAX);
                    assert(seq_sum(w@) / w@.len() == avg as nat);
                    assert(!summary_fits(w@));
                }
                return false;
            }
            dev = dev + sq;
            j = j + 1;
        }
        proof {
            assert(w@.take(n as int) =~= w@);
        }
        true
    }

    /// Records the size of a read at `now_ms`, keeping the last 100. When
    /// the adjustment interval has passed, returns the window's summary
    /// for the caller to take its square root (see `apply_adjustment`) and
    /// restarts the interval.
    pub fn record_io_size(&mut self, size: usize, now_ms: u64) -> (r: Option<SizeSummary>)
        requires
            old(self).wf(),
            old(self).due(now_ms) ==> summary_fits(window_after(old(self).window(), size)),
        ensures
            final(self).wf(),
            final(self).window() == window_after(old(self).window(), size),
            final(self).current() == old(self).current(),
            final(self).bounds() == old(self).bounds(),
            final(self).interval() == old(self).interval(),
            old(self).due(now_ms) ==> r == Some(summary_of(final(self).window()))
                && final(self).last_adjustment() == now_ms,
            !old(self).due(now_ms) ==> r is None && final(self).last_adjustment() == old(self).last_adjustment(),
    {
        self.recent_io_sizes.push(size);
        if self.recent_io_sizes.len() > 100 {
            self.recent_io_sizes.remove(0);
        }
        proof {
            assert(self.recent_io_sizes@ =~= window_after(old(self).window(), size));
        }
        if now_ms >= self.last_adjustment_ms && now_ms - self.last_adjustment_ms >= self.adjustment_interval_ms {
            let summary = summarize(&self.recent_io_sizes);
            self.last_adjustment_ms = now_ms;
            Some(summary)
        } else {
            None
        }
    }

    /// Sets the size to the mean plus twice the standard deviation `std_dev`
    /// (the caller's square root of the variance), at least the minimum and
    /// then at most the maximum.
    pub fn apply_adjustment(&mut self, summary: SizeSummary, std_dev: usize)
        requires
            summary.average + 2 * std_dev <= usize::MAX,
        ensures
            final(self).current() == ({
                let t = summary.average + 2 * std_dev;
                let lo = if t >= old(self).bounds().0 { t } else { old(self).bounds().0 as int };
                if lo <= old(self).bounds().1 { lo } else { old(self).bounds().1 as int }
            }),
            final(self).window() == old(self).window(),
            final(self).bounds() == old(self).bounds(),
            final(self).last_adjustment() == old(self).last_adjustment(),
            final(self).interval() == old(self).interval(),
            old(self).wf() ==> final(self).wf(),
    {
        let target = summary.average + 2 * std_dev;
        let lo = if target >= self.min_size { target } else { self.min_size };
        let size = if lo <= self.max_size { lo } else { self.max_size };
        self.current_size = size;
    }

    /// The read buffer size to use now.
    pub fn get_optimal_size(&self) -> (n: usize)
        ensures
            n == self.current(),
    {
        self.current_size
    }
}

/// Write chunks queued for one vectored write, and the read ring.
pub struct VectoredIOManager {
    write_queue: Vec<Bytes>,
    read_buffer: RingBuffer,
    flush_threshold: usize,
}

impl VectoredIOManager {
    /// The queued chunks, oldest first.
    pub closed spec fn queued(&self) -> Seq<Bytes> {
        self.write_queue@
    }

    /// How many queued chunks trigger a write.
    pub closed spec fn threshold(&self) -> usize {
        self.flush_threshold
    }

    /// An empty queue and a read ring of `buffer_size` bytes.
    pub fn new(buffer_size: usize, flush_threshold: usize) -> (m: Self)
        ensures
            m.queued() == Seq::<Bytes>::empty(),
            m.threshold() == flush_threshold,
    {
        VectoredIOManager {
            write_queue: Vec::new(),
            read_buffer: RingBuffer::new(buffer_size),
            flush_threshold,
        }
    }

    /// Queues `data` for writing. Once `flush_threshold` chunks are queued,
    /// hands back the whole queue, oldest first, to go out in one vectored
    /// write, and the queue is empty again.
    pub fn vectored_write(&mut self, data: Bytes) -> (r: Option<Vec<Bytes>>)
        ensures
            final(self).threshold() == old(self).threshold(),
            old(self).queued().len() + 1 >= old(self).threshold() ==> {
                &&& r matches Some(v) && v@ == old(self).queued().push(data)
                &&& final(self).queued() == Seq::<Bytes>::empty()
            },
            old(self).queued().len() + 1 < old(self).threshold() ==> {
                &&& r is None
                &&& final(self).queued() == old(self).queued().push(data)
            },
    {
        self.write_queue.push(data);
        if self.write_queue.len() >= self.flush_threshold {
            Some(self.flush_writes())
        } else {
            None
        }
    }

    /// Every queued chunk, oldest first; the queue is empty afterwards.
    pub fn flush_writes(&mut self) -> (v: Vec<Bytes>)
        ensures
            v@ == old(self).queued(),
            final(self).queued() == Seq::<Bytes>::empty(),
            final(self).threshold() == old(self).threshold(),
    {
        let mut taken: Vec<Bytes> = Vec::new();
        std::mem::swap(&mut taken, &mut self.write_queue);
        taken
    }
}

} // verus!
