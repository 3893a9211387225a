//! Latency histograms and the call profiler of the performance monitor.
//! Measurements are integers: histogram values in thousandths of the
//! measured unit (the unit the monitor sums in), profiler times in
//! microseconds.

use vstd::prelude::*;
use vstd::string::*;

verus! {

/// The kinds of metric the monitor samples.
#[derive(Debug, Clone, Copy, PartialEq, Eq, Hash)]
pub enum MetricType {
    CpuUsage,
    MemoryUsage,
    NetworkThroughput,
    MessageLatency,
    ConnectionCount,
    RequestRate,
    ErrorRate,
    CacheHitRate,
    DiskIO,
    ThreadCount,
}

/// `a + b`, wrapping at 2^64.
pub open spec fn wrap_add(a: u64, b: u64) -> u64 {
    if a + b > u64::MAX {
        (a + b - 0x1_0000_0000_0000_0000) as u64
    } else {
        (a + b) as u64
    }
}

/// A distribution over buckets with inclusive upper bounds.
pub struct Histogram {
    buckets: Vec<(u64, u64)>,
    sum: u64,
    count: u64,
}

/// The buckets after `value` is counted in the first bucket whose bound
/// is at least `value` (in none when all bounds are smaller).
pub open spec fn bucket_observe(b: Seq<(u64, u64)>, value: u64) -> Seq<(u64, u64)>
    decreases b.len(),
{
    if b.len() == 0 {
        b
    } else if value <= b[0].0 {
        seq![(b[0].0, wrap_add(b[0].1, 1))] + b.drop_first()
    } else {
        seq![b[0]] + bucket_observe(b.drop_first(), value)
    }
}

/// The sum of the bucket counts.
pub open spec fn bucket_total(b: Seq<(u64, u64)>) -> nat
    decreases b.len(),
{
    if b.len() == 0 {
        0
    } else {
        b[0].1 as nat + bucket_total(b.drop_first())
    }
}

/// The bound of the first bucket at which the running count reaches
/// `target`, counting from `acc`; the last bound when none does, and 0
/// without buckets.
pub open spec fn reaching_bound(b: Seq<(u64, u64)>, acc: nat, target: nat) -> u64
    decreases b.len(),
{
    if b.len() == 0 {
        0
    } else if acc + b[0].1 >= target {
        b[0].0
    } else if b.len() == 1 {
        b[0].0
    } else {
        reaching_bound(b.drop_first(), acc + b[0].1 as nat, target)
    }
}

impl Histogram {
    /// The buckets as (bound, count), in the order given.
    pub closed spec fn bucket_view(&self) -> Seq<(u64, u64)> {
        self.buckets@
    }

    pub closed spec fn sum_of(&self) -> u64 {
        self.sum
    }

    pub closed spec fn count_of(&self) -> u64 {
        self.count
    }

    /// Empty buckets with the given upper bounds.
    pub fn new(bucket_bounds: Vec<u64>) -> (h: Self)
        ensures
            h.bucket_view().len() == bucket_bounds@.len(),
            forall|i: int| 0 <= i < bucket_bounds@.len() ==> #[trigger] h.bucket_view()[i] == (bucket_bounds@[i], 0u64),
            h.sum_of() == 0,
            h.count_of() == 0,
    {
        let mut buckets: Vec<(u64, u64)> = Vec::new();
        let mut i: usize = 0;
        while i < bucket_bounds.len()
            invariant
                i <= bucket_bounds@.len(),
                buckets@.len() == i,
                forall|k: int| 0 <= k < i ==> #[trigger] buckets@[k] == (bucket_bounds@[k], 0u64),
            decreases bucket_bounds@.len() - i,
        {
            buckets.push((bucket_bounds[i], 0));
            i = i + 1;
        }
        Histogram { buckets, sum: 0, count: 0 }
    }

    /// Counts `value` (in thousandths) in the first bucket that holds it,
    /// and in the sum and the count; all counters wrap at 2^64.
    pub fn observe(&mut self, value: u64)
        ensures
            final(self).bucket_view() == bucket_observe(old(self).bucket_view(), value),
            final(self).sum_of() == wrap_add(old(self).sum_of(), value),
            final(self).count_of() == wrap_add(old(self).count_of(), 1),
    {
        let ghost b0 = self.buckets@;
        let mut i: usize = 0;
        while i < self.buckets.len()
            invariant
                i <= b0.len(),
                self.buckets@ == b0,
                b0 == old(self).bucket_view(),
                self.sum == old(self).sum_of(),
                self.count == old(self).count_of(),
                forall|k: int| 0 <= k < i ==> value > #[trigger] b0[k].0,
            decreases b0.len() - i,
        {
            let (bound, n) = self.buckets[i];
            if value <= bound {
                self.buckets.set(i, (bound, n.wrapping_add(1)));
                proof {
                    lemma_observe_at(b0, value, i as int);
                }
                self.sum = self.sum.wrapping_add(value);
                self.count = self.count.wrapping_add(1);
                return;
            }
            i = i + 1;
        }
        proof {
            lemma_observe_none(b0, value);
        }
        self.sum = self.sum.wrapping_add(value);
        self.count = self.count.wrapping_add(1);
    }

    /// The bound of the bucket at which `p` percent of the observations
    /// (rounded down) are reached; 0 with no observations.
    pub fn percentile(&self, p: u64) -> (r: u64)
        requires
            p <= 100,
            bucket_total(self.bucket_view()) <= u64::MAX,
        ensures
            self.count_of() == 0 ==> r == 0,
            self.count_of() > 0 ==> r == reaching_bound(
                self.bucket_view(),
                0,
                (self.count_of() as nat * p as nat / 100) as nat,
            ),
    {
        if self.count == 0 {
            return 0;
        }
        assert((self.count as u128) * (p as u128) <= 0xffff_ffff_ffff_ffffu128 * 100) by (nonlinear_arith)
            requires
                p <= 100,
                self.count <= 0xffff_ffff_ffff_ffffu64,
        ;
        let target: u128 = (self.count as u128) * (p as u128) / 100;
        let ghost b0 = self.buckets@;
        proof {
            assert(b0.skip(0) =~= b0);
        }
        let mut cumulative: u64 = 0;
        let mut i: usize = 0;
        while i < self.buckets.len()
            invariant
                i <= b0.len(),
                b0 == self.bucket_view(),
                bucket_total(b0) <= u64::MAX,
                self.count_of() > 0,
                target == (self.count_of() as nat * p as nat / 100) as nat,
                cumulative as nat + bucket_total(b0.skip(i as int)) == bucket_total(b0),
                i < b0.len() ==> reaching_bound(b0, 0, target as nat) == reaching_bound(
                    b0.skip(i as int),
                    cumulative as nat,
                    target as nat,
                ),
                i > 0 && i == b0.len() ==> reaching_bound(b0, 0, target as nat) == b0[i - 1].0,
            decreases b0.len() - i,
        {
            proof {
                lemma_total_skip(b0, i as int);
            }
            let (bound, n) = self.buckets[i];
            cumulative = cumulative + n;
            if cumulative as u128 >= target {
                return bound;
            }
            proof {
                let rest = b0.skip(i as int);
                assert(rest.drop_first() =~= b0.skip(i + 1));
            }
            i = i + 1;
        }
        if self.buckets.len() == 0 {
            0
        } else {
            self.buckets[self.buckets.len() - 1].0
        }
    }

    /// The mean observation in thousandths, rounded down; 0 with none.
    pub fn mean(&self) -> (m: u64)
        ensures
            self.count_of() == 0 ==> m == 0,
            self.count_of() > 0 ==> m == self.sum_of() / self.count_of(),
    {
        if self.count == 0 {
            0
        } else {
            self.sum / self.count
        }
    }
}

proof fn lemma_observe_at(b: Seq<(u64, u64)>, value: u64, i: int)
    requires
        0 <= i < b.len(),
        value <= b[i].0,
        forall|k: int| 0 <= k < i ==> value > #[trigger] b[k].0,
    ensures
        bucket_observe(b, value) == b.update(i, (b[i].0, wrap_add(b[i].1, 1))),
    decreases i,
{
    if i == 0 {
        assert(bucket_observe(b, value) =~= b.update(0, (b[0].0, wrap_add(b[0].1, 1))));
    } else {
        let t = b.drop_first();
        assert forall|k: int| 0 <= k < i - 1 implies value > #[trigger] t[k].0 by {
            assert(t[k] == b[k + 1]);
        }
        lemma_observe_at(t, value, i - 1);
        assert(bucket_observe(b, value) =~= b.update(i, (b[i].0, wrap_add(b[i].1, 1))));
    }
}

proof fn lemma_observe_none(b: Seq<(u64, u64)>, value: u64)
    requires
        forall|k: int| 0 <= k < b.len() ==> value > #[trigger] b[k].0,
    ensures
        bucket_observe(b, value) == b,
    decreases b.len(),
{
    if b.len() > 0 {
        let t = b.drop_first();
        assert forall|k: int| 0 <= k < t.len() implies value > #[trigger] t[k].0 by {
            assert(t[k] == b[k + 1]);
        }
        lemma_observe_none(t, value);
        assert(seq![b[0]] + t =~= b);
    }
}

proof fn lemma_total_skip(b: Seq<(u64, u64)>, i: int)
    requires
        0 <= i < b.len(),
    ensures
        bucket_total(b.skip(i)) == b[i].1 as nat + bucket_total(b.skip(i + 1)),
        b.skip(i)[0] == b[i],
        b.skip(i).drop_first() == b.skip(i + 1),
{
    assert(b.skip(i).drop_first() =~= b.skip(i + 1));
}

/// The aggregated timings of one function, in microseconds.
#[derive(Debug, Clone)]
pub struct ProfileResult {
    pub function_name: String,
    pub call_count: usize,
    pub total_time_us: u128,
    pub avg_time_us: u128,
    pub max_time_us: u64,
    pub min_time_us: u64,
}

/// The sum of the durations.
pub open spec fn dsum(s: Seq<u64>) -> nat
    decreases s.len(),
{
    if s.len() == 0 { 0 } else { dsum(s.drop_last()) + s.last() as nat }
}

/// The largest duration (0 for none).
pub open spec fn dmax(s: Seq<u64>) -> u64
    decreases s.len(),
{
    if s.len() == 0 {
        0
    } else if s.len() == 1 || s.last() >= dmax(s.drop_last()) {
        s.last()
    } else {
        dmax(s.drop_last())
    }
}

/// The smallest duration (0 for none).
pub open spec fn dmin(s: Seq<u64>) -> u64
    decreases s.len(),
{
    if s.len() == 0 {
        0
    } else if s.len() == 1 || s.last() <= dmin(s.drop_last()) {
        s.last()
    } else {
        dmin(s.drop_last())
    }
}

/// The position of the last call-stack entry named `name`, if any.
pub open spec fn last_named(stack: Seq<(Seq<char>, u64)>, name: Seq<char>) -> Option<int>
    decreases stack.len(),
{
    if stack.len() == 0 {
        None
    } else if stack.last().0 == name {
        Some(stack.len() - 1)
    } else {
        last_named(stack.drop_last(), name)
    }
}

/// The position of the first timing list named `name`, if any.
pub open spec fn first_named(times: Seq<(Seq<char>, Seq<u64>)>, name: Seq<char>) -> Option<int>
    decreases times.len(),
{
    if times.len() == 0 {
        None
    } else {
        match first_named(times.drop_last(), name) {
            Some(k) => Some(k),
            None => if times.last().0 == name { Some(times.len() - 1) } else { None },
        }
    }
}

/// The timing lists after `d` is recorded for `name`.
pub open spec fn record_time(times: Seq<(Seq<char>, Seq<u64>)>, name: Seq<char>, d: u64) -> Seq<(Seq<char>, Seq<u64>)> {
    match first_named(times, name) {
        Some(k) => times.update(k, (name, times[k].1.push(d))),
        None => times.push((name, seq![d])),
    }
}

/// Microseconds from `start_us` to `now_us` (none when the clock is behind).
pub open spec fn elapsed_us(start_us: u64, now_us: u64) -> u64 {
    if now_us >= start_us { (now_us - start_us) as u64 } else { 0 }
}

/// `r` aggregates the timings `d` of `name`.
pub open spec fn aggregates(r: ProfileResult, name: Seq<char>, d: Seq<u64>) -> bool {
    &&& r.function_name@ == name
    &&& r.call_count == d.len()
    &&& r.total_time_us == dsum(d)
    &&& r.avg_time_us == dsum(d) / d.len()
    &&& r.max_time_us == dmax(d)
    &&& r.min_time_us == dmin(d)
}

/// The timing lists that hold at least one duration, in order.
pub open spec fn profiled(times: Seq<(Seq<char>, Seq<u64>)>) -> Seq<(Seq<char>, Seq<u64>)> {
    times.filter(|e: (Seq<char>, Seq<u64>)| e.1.len() > 0)
}

/// A node of a flame graph: a call site, its time in microseconds and the
/// calls made from it.
#[derive(Debug)]
pub struct FlameGraphNode {
    pub name: String,
    pub value: u64,
    pub children: Vec<FlameGraphNode>,
}

/// Times calls by name.
pub struct PerformanceProfiler {
    function_times: Vec<(String, Vec<u64>)>,
    call_stack: Vec<(String, u64)>,
}

impl PerformanceProfiler {
    /// The recorded durations per function, in the order first recorded.
    pub closed spec fn times(&self) -> Seq<(Seq<char>, Seq<u64>)> {
        self.function_times@.map_values(|e: (String, Vec<u64>)| (e.0@, e.1@))
    }

    /// The open calls with their start times, innermost last.
    pub closed spec fn stack(&self) -> Seq<(Seq<char>, u64)> {
        self.call_stack@.map_values(|e: (String, u64)| (e.0@, e.1))
    }

    /// A profiler with nothing recorded.
    pub fn new() -> (p: Self)
        ensures
            p.times() == Seq::<(Seq<char>, Seq<u64>)>::empty(),
            p.stack() == Seq::<(Seq<char>, u64)>::empty(),
    {
        let p = PerformanceProfiler { function_times: Vec::new(), call_stack: Vec::new() };
        proof {
            assert(p.times() =~= Seq::<(Seq<char>, Seq<u64>)>::empty());
            assert(p.stack() =~= Seq::<(Seq<char>, u64)>::empty());
        }
        p
    }

    /// Opens a call of `function_name` at `now_us`.
    pub fn start_timing(&mut self, function_name: String, now_us: u64)
        ensures
            final(self).stack() == old(self).stack().push((function_name@, now_us)),
            final(self).times() == old(self).times(),
    {
        self.call_stack.push((function_name, now_us));
        proof {
            assert(self.stack() =~= old(self).stack().push((function_name@, now_us)));
        }
    }

    /// Closes the innermost open call of `function_name` at `now_us` and
    /// records how long it took; nothing happens when none is open.
    pub fn end_timing(&mut self, function_name: &str, now_us: u64)
        ensures
            match last_named(old(self).stack(), function_name@) {
                Some(k) => {
                    &&& final(self).stack() == old(self).stack().remove(k)
                    &&& final(self).times() == record_time(
                        old(self).times(),
                        function_name@,
                        elapsed_us(old(self).stack()[k].1, now_us),
                    )
                },
                None => {
                    &&& final(self).stack() == old(self).stack()
                    &&& final(self).times() == old(self).times()
                },
            },
    {
        let key: String = function_name.to_owned();
        let ghost st = self.stack();
        let mut i: usize = self.call_stack.len();
        proof {
            assert(st.take(i as int) =~= st);
        }
        while i > 0
            invariant
                i <= self.call_stack@.len(),
                st == self.stack(),
                self.call_stack@ == old(self).call_stack@,
                self.function_times@ == old(self).function_times@,
                key@ == function_name@,
                last_named(st, key@) == last_named(st.take(i as int), key@),
            decreases i,
        {
            proof {
                assert(st.take(i as int).drop_last() =~= st.take(i - 1));
            }
            if self.call_stack[i - 1].0 == key {
                let (_, start) = self.call_stack.remove(i - 1);
                let d: u64 = if now_us >= start { now_us - start } else { 0 };
                proof {
                    assert(self.stack() =~= st.remove(i - 1));
                }
                self.record(key, d);
                return;
            }
            i = i - 1;
        }
        proof {
            assert(st.take(0) =~= Seq::<(Seq<char>, u64)>::empty());
        }
    }

    fn record(&mut self, name: String, d: u64)
        ensures
            final(self).times() == record_time(old(self).times(), name@, d),
            final(self).stack() == old(self).stack(),
    {
        let ghost t0 = self.times();
        let mut k: usize = 0;
        while k < self.function_times.len()
            invariant
                k <= self.function_times@.len(),
                t0 == self.times(),
                self.function_times@ == old(self).function_times@,
                self.call_stack@ == old(self).call_stack@,
                first_named(t0.take(k as int), name@) is None,
            decreases self.function_times@.len() - k,
        {
            proof {
                assert(t0.take(k + 1).drop_last() =~= t0.take(k as int));
            }
            if self.function_times[k].0 == name {
                proof {
                    lemma_first_named_extend(t0, k as int, name@);
                }
                let (n, mut ds) = self.function_times.remove(k);
                ds.push(d);
                self.function_times.insert(k, (n, ds));
                proof {
                    assert(self.times() =~= record_time(t0, name@, d));
                }
                return;
            }
            k = k + 1;
        }
        proof {
            assert(t0.take(k as int) =~= t0);
        }
        let mut ds: Vec<u64> = Vec::new();
        ds.push(d);
        self.function_times.push((name, ds));
        proof {
            assert(ds@ =~= seq![d]);
            assert(self.times() =~= record_time(t0, name@, d));
        }
    }

    /// The count, total, mean (rounded down), longest and shortest time of
    /// every function timed at least once, in the order first recorded.
    pub fn get_profile_results(&self) -> (v: Vec<ProfileResult>)
        ensures
            v@.len() == profiled(self.times()).len(),
            forall|i: int| 0 <= i < v@.len() ==> aggregates(#[trigger] v@[i], profiled(self.times())[i].0, profiled(self.times())[i].1),
    {
        let ghost t = self.times();
        let mut out: Vec<ProfileResult> = Vec::new();
        let mut k: usize = 0;
        while k < self.function_times.len()
            invariant
                k <= self.function_times@.len(),
                t == self.times(),
                out@.len() == profiled(t.take(k as int)).len(),
                forall|i: int| 0 <= i < out@.len() ==> aggregates(#[trigger] out@[i], profiled(t.take(k as int))[i].0, profiled(t.take(k as int))[i].1),
            decreases self.function_times@.len() - k,
        {
            proof {
                assert(t.take(k + 1).drop_last() =~= t.take(k as int));
                reveal(Seq::filter);
            }
            let ds = &self.function_times[k].1;
            if ds.len() > 0 {
                let r = summarize_times(&self.function_times[k].0, ds);
                out.push(r);
            }
            k = k + 1;
        }
        proof {
            assert(t.take(k as int) =~= t);
        }
        out
    }
}

proof fn lemma_first_named_extend(t: Seq<(Seq<char>, Seq<u64>)>, k: int, name: Seq<char>)
    requires
        0 <= k < t.len(),
        first_named(t.take(k), name) is None,
        t[k].0 == name,
    ensures
        first_named(t, name) == Some(k),
    decreases t.len(),
{
    if k < t.len() - 1 {
        assert(t.drop_last().take(k) =~= t.take(k));
        lemma_first_named_extend(t.drop_last(), k, name);
    } else {
        assert(t.drop_last() =~= t.take(k));
    }
}

fn summarize_times(name: &String, ds: &Vec<u64>) -> (r: ProfileResult)
    requires
        ds@.len() > 0,
    ensures
        aggregates(r, name@, ds@),
{
    let n = ds.len();
    let mut total: u128 = 0;
    let mut mx: u64 = 0;
    let mut mn: u64 = 0;
    let mut i: usize = 0;
    while i < n
        invariant
            n == ds@.len(),
            i <= n,
            total == dsum(ds@.take(i as int)),
            total <= i * 0xffff_ffff_ffff_ffffu128,
            mx == dmax(ds@.take(i as int)),
            mn == dmin(ds@.take(i as int)),
        decreases n - i,
    {
        proof {
            assert(ds@.take(i + 1).drop_last() =~= ds@.take(i as int));
            assert((i + 1) * 0xffff_ffff_ffff_ffffu128 == i * 0xffff_ffff_ffff_ffffu128 + 0xffff_ffff_ffff_ffffu128) by (nonlinear_arith);
            assert(i * 0xffff_ffff_ffff_ffffu128 <= 0xffff_ffff_ffff_ffffu128 * 0xffff_ffff_ffff_ffffu128) by (nonlinear_arith)
                requires
                    i <= 0xffff_ffff_ffff_ffffu128,
            ;
        }
        let x = ds[i];
        total = total + x as u128;
        if i == 0 || x >= mx {
            mx = x;
        }
        if i == 0 || x <= mn {
            mn = x;
        }
        i = i + 1;
    }
    proof {
        assert(ds@.take(n as int) =~= ds@);
    }
    ProfileResult {
        function_name: name.clone(),
        call_count: n,
        total_time_us: total,
        avg_time_us: total / (n as u128),
        max_time_us: mx,
        min_time_us: mn,
    }
}

/// Closing the call just opened under the same name takes exactly that call
/// off the stack, and records its time under that name.
pub proof fn lemma_end_undoes_start(stack: Seq<(Seq<char>, u64)>, name: Seq<char>, start_us: u64)
    ensures
        last_named(stack.push((name, start_us)), name) == Some(stack.len() as int),
        stack.push((name, start_us)).remove(stack.len() as int) == stack,
{
    let t = stack.push((name, start_us));
    assert(t.drop_last() =~= stack);
    assert(t.remove(stack.len() as int) =~= stack);
}

/// An observation adds one to the count of exactly one bucket, the first
/// whose bound holds it, or to none when no bound does (as long as no
/// bucket count wraps).
pub proof fn lemma_observe_counts_once(b: Seq<(u64, u64)>, value: u64)
    requires
        forall|i: int| 0 <= i < b.len() ==> #[trigger] b[i].1 < u64::MAX,
    ensures
        (exists|i: int| 0 <= i < b.len() && value <= #[trigger] b[i].0) ==> bucket_total(bucket_observe(b, value))
            == bucket_total(b) + 1,
        (forall|i: int| 0 <= i < b.len() ==> value > #[trigger] b[i].0) ==> bucket_total(bucket_observe(b, value))
            == bucket_total(b),
    decreases b.len(),
{
    if b.len() > 0 {
        let t = b.drop_first();
        assert forall|i: int| 0 <= i < t.len() implies #[trigger] t[i].1 < u64::MAX by {
            assert(t[i] == b[i + 1]);
        }
        lemma_observe_counts_once(t, value);
        if value <= b[0].0 {
            let o = seq![(b[0].0, wrap_add(b[0].1, 1))] + t;
            assert(o[0] == (b[0].0, wrap_add(b[0].1, 1)));
            assert(o.drop_first() =~= t);
        } else {
            let o = seq![b[0]] + bucket_observe(t, value);
            assert(o[0] == b[0]);
            assert(o.drop_first() =~= bucket_observe(t, value));
            if exists|i: int| 0 <= i < b.len() && value <= #[trigger] b[i].0 {
                let i = choose|i: int| 0 <= i < b.len() && value <= #[trigger] b[i].0;
                assert(t[i - 1] == b[i]);
            }
            if forall|i: int| 0 <= i < b.len() ==> value > #[trigger] b[i].0 {
                assert forall|i: int| 0 <= i < t.len() implies value > #[trigger] t[i].0 by {
                    assert(t[i] == b[i + 1]);
                }
            }
        }
    }
}

} // verus!
