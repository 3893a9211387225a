//! The planning and accounting of room broadcasts: how recipients are cut
//! into batches, how a message is encoded for them, and the broadcast
//! statistics. The sends themselves are the caller's.

use vstd::prelude::*;
use crate::protocol::GameMessage;
use crate::protocol::ProtocolError;
use crate::optimized::{OptimizedGameMessage, encode_message, converted_view};

verus! {

/// The number of CPUs this process may use.
#[verifier::external_body]
pub(crate) fn cpu_count() -> (n: usize)
    ensures
        n >= 1,
{
    num_cpus::get()
}

/// Broadcast counters.
#[derive(Debug, Clone, Copy, PartialEq, Eq)]
pub struct ParallelBroadcastStats {
    pub total_broadcasts: u64,
    pub successful_messages: u64,
    pub failed_messages: u64,
    /// Weighted running mean: each broadcast counts one eighth.
    pub avg_broadcast_time_us: u64,
    pub parallel_rooms_processed: u64,
    pub max_concurrent_connections: u64,
}

/// `a + b`, wrapping at 2^64.
pub open spec fn wadd(a: u64, b: u64) -> u64 {
    if a + b > u64::MAX {
        (a + b - 0x1_0000_0000_0000_0000) as u64
    } else {
        (a + b) as u64
    }
}

/// The running mean after a broadcast that took `d`: the first sets it,
/// later ones weigh one eighth.
pub open spec fn next_avg(avg: u64, d: u64) -> u64 {
    if avg == 0 { d } else { ((avg * 7 + d) / 8) as u64 }
}

impl ParallelBroadcastStats {
    /// All counters at zero.
    pub fn new() -> (s: Self)
        ensures
            s == (ParallelBroadcastStats {
                total_broadcasts: 0,
                successful_messages: 0,
                failed_messages: 0,
                avg_broadcast_time_us: 0,
                parallel_rooms_processed: 0,
                max_concurrent_connections: 0,
            }),
    {
        ParallelBroadcastStats {
            total_broadcasts: 0,
            successful_messages: 0,
            failed_messages: 0,
            avg_broadcast_time_us: 0,
            parallel_rooms_processed: 0,
            max_concurrent_connections: 0,
        }
    }

    /// Counts a broadcast that took `duration_us` and reached `successful`
    /// recipients and missed `failed`.
    pub fn record_broadcast(&mut self, duration_us: u64, successful: u64, failed: u64)
        requires
            old(self).avg_broadcast_time_us == 0 || old(self).avg_broadcast_time_us * 7 + duration_us <= u64::MAX,
        ensures
            *final(self) == (ParallelBroadcastStats {
                total_broadcasts: wadd(old(self).total_broadcasts, 1),
                successful_messages: wadd(old(self).successful_messages, successful),
                failed_messages: wadd(old(self).failed_messages, failed),
                avg_broadcast_time_us: next_avg(old(self).avg_broadcast_time_us, duration_us),
                ..*old(self)
            }),
    {
        self.total_broadcasts = self.total_broadcasts.wrapping_add(1);
        self.successful_messages = self.successful_messages.wrapping_add(successful);
        self.failed_messages = self.failed_messages.wrapping_add(failed);
        let cur = self.avg_broadcast_time_us;
        self.avg_broadcast_time_us = if cur == 0 { duration_us } else { (cur * 7 + duration_us) / 8 };
    }
}

/// Broadcast settings. The error threshold is in thousandths of the
/// recipients (100 is 10%).
#[derive(Debug, Clone, Copy)]
pub struct ParallelBroadcastConfig {
    pub max_parallel_tasks: usize,
    pub batch_size: usize,
    pub use_binary_protocol: bool,
    pub error_threshold_permille: u32,
    pub timeout_ms: u64,
}

impl ParallelBroadcastConfig {
    /// One task per CPU, batches of 100, the binary protocol, a 10% error
    /// threshold and a 5 second send timeout.
    pub fn default() -> (c: Self)
        ensures
            c.max_parallel_tasks >= 1,
            c.batch_size == 100,
            c.use_binary_protocol,
            c.error_threshold_permille == 100,
            c.timeout_ms == 5000,
    {
        ParallelBroadcastConfig {
            max_parallel_tasks: cpu_count(),
            batch_size: 100,
            use_binary_protocol: true,
            error_threshold_permille: 100,
            timeout_ms: 5000,
        }
    }
}

/// The concatenation of the batches.
pub open spec fn flatten(b: Seq<Seq<u32>>) -> Seq<u32>
    decreases b.len(),
{
    if b.len() == 0 { Seq::empty() } else { flatten(b.drop_last()) + b.last() }
}

/// `batches` cuts a list into consecutive batches of `size`, the last one
/// possibly shorter and none empty.
pub open spec fn batched(batches: Seq<Seq<u32>>, size: nat) -> bool {
    &&& forall|i: int| 0 <= i < batches.len() ==> 0 < #[trigger] batches[i].len() <= size
    &&& forall|i: int| 0 <= i < batches.len() - 1 ==> #[trigger] batches[i].len() == size
}

/// Whether more than the threshold of `total` recipients were missed.
pub open spec fn over_threshold(failed: nat, total: nat, permille: nat) -> bool {
    failed * 1000 > permille * total
}

/// Plans and accounts for broadcasts.
pub struct ParallelBroadcastService {
    config: ParallelBroadcastConfig,
    stats: ParallelBroadcastStats,
}

impl ParallelBroadcastService {
    pub closed spec fn config_of(&self) -> ParallelBroadcastConfig {
        self.config
    }

    pub closed spec fn stats_of(&self) -> ParallelBroadcastStats {
        self.stats
    }

    /// A service with `config`, or the default settings.
    pub fn new(config: Option<ParallelBroadcastConfig>) -> (s: Self)
        ensures
            config matches Some(c) ==> s.config_of() == c,
            config is None ==> s.config_of().batch_size == 100 && s.config_of().use_binary_protocol
                && s.config_of().error_threshold_permille == 100 && s.config_of().timeout_ms == 5000
                && s.config_of().max_parallel_tasks >= 1,
            s.stats_of() == ParallelBroadcastStats::new_spec(),
    {
        let config = match config {
            Some(c) => c,
            None => ParallelBroadcastConfig::default(),
        };
        ParallelBroadcastService { config, stats: ParallelBroadcastStats::new() }
    }

    /// Cuts the recipients into batches of the configured size, in order.
    pub fn plan_batches(&self, users: &Vec<u32>) -> (b: Vec<Vec<u32>>)
        requires
            self.config_of().batch_size > 0,
        ensures
            flatten(b@.map_values(|v: Vec<u32>| v@)) == users@,
            batched(b@.map_values(|v: Vec<u32>| v@), self.config_of().batch_size as nat),
    {
        let size = self.config.batch_size;
        let mut out: Vec<Vec<u32>> = Vec::new();
        let mut cur: Vec<u32> = Vec::new();
        let mut i: usize = 0;
        while i < users.len()
            invariant
                size == self.config_of().batch_size,
                size > 0,
                i <= users@.len(),
                flatten(out@.map_values(|v: Vec<u32>| v@)) + cur@ == users@.take(i as int),
                batched(out@.map_values(|v: Vec<u32>| v@), size as nat),
                forall|k: int| 0 <= k < out@.len() ==> #[trigger] out@[k]@.len() == size,
                cur@.len() < size,
            decreases users@.len() - i,
        {
            let ghost o0 = out@.map_values(|v: Vec<u32>| v@);
            let ghost c0 = cur@;
            cur.push(users[i]);
            proof {
                assert(users@.take(i + 1) =~= users@.take(i as int).push(users@[i as int]));
                assert(flatten(o0) + cur@ =~= users@.take(i + 1));
            }
            if cur.len() == size {
                let full = cur;
                cur = Vec::new();
                let ghost fv = full@;
                out.push(full);
                proof {
                    let o1 = out@.map_values(|v: Vec<u32>| v@);
                    assert(o1 =~= o0.push(fv));
                    assert(o1.drop_last() =~= o0);
                    assert(flatten(o1) + cur@ =~= users@.take(i + 1));
                }
            }
            i = i + 1;
        }
        proof {
            assert(users@.take(users@.len() as int) =~= users@);
        }
        if cur.len() > 0 {
            let ghost o0 = out@.map_values(|v: Vec<u32>| v@);
            let ghost cv = cur@;
            out.push(cur);
            proof {
                let o1 = out@.map_values(|v: Vec<u32>| v@);
                assert(o1 =~= o0.push(cv));
                assert(o1.drop_last() =~= o0);
            }
        } else {
            proof {
                assert(flatten(out@.map_values(|v: Vec<u32>| v@)) =~= users@);
            }
        }
        out
    }

    /// The bytes to send to every recipient when the binary protocol is
    /// on; `None` when the text protocol is used instead.
    pub fn binary_payload(&self, message: &GameMessage) -> (r: Option<Result<Vec<u8>, ProtocolError>>)
        ensures
            !self.config_of().use_binary_protocol ==> r is None,
            self.config_of().use_binary_protocol ==> (r matches Some(Ok(b)) && b@ == encode_message(
                converted_view(*message),
            )),
    {
        if self.config.use_binary_protocol {
            let m = OptimizedGameMessage::from_game_message(message);
            Some(m.to_bytes())
        } else {
            None
        }
    }

    /// Accounts for a broadcast to `total_users` recipients whose sends
    /// ended as `outcomes` (true for a success) and took `duration_us`.
    /// Returns how many succeeded and whether the share of failures went
    /// above the error threshold.
    pub fn finish_room_broadcast(&mut self, total_users: usize, outcomes: &Vec<bool>, duration_us: u64) -> (r: (usize, bool))
        requires
            old(self).stats_of().avg_broadcast_time_us == 0 || old(self).stats_of().avg_broadcast_time_us * 7
                + duration_us <= u64::MAX,
        ensures
            r.0 == successes(outcomes@),
            r.1 == over_threshold(
                (outcomes@.len() - successes(outcomes@)) as nat,
                total_users as nat,
                old(self).config_of().error_threshold_permille as nat,
            ),
            final(self).stats_of() == (ParallelBroadcastStats {
                total_broadcasts: wadd(old(self).stats_of().total_broadcasts, 1),
                successful_messages: wadd(old(self).stats_of().successful_messages, successes(outcomes@) as u64),
                failed_messages: wadd(old(self).stats_of().failed_messages, (outcomes@.len() - successes(outcomes@)) as u64),
                avg_broadcast_time_us: next_avg(old(self).stats_of().avg_broadcast_time_us, duration_us),
                max_concurrent_connections: total_users as u64,
                ..old(self).stats_of()
            }),
            final(self).config_of() == old(self).config_of(),
    {
        let mut ok: usize = 0;
        let mut i: usize = 0;
        while i < outcomes.len()
            invariant
                i <= outcomes@.len(),
                ok == successes(outcomes@.take(i as int)),
                ok <= i,
            decreases outcomes@.len() - i,
        {
            proof {
                assert(outcomes@.take(i + 1).drop_last() =~= outcomes@.take(i as int));
            }
            if outcomes[i] {
                ok = ok + 1;
            }
            i = i + 1;
        }
        proof {
            assert(outcomes@.take(i as int) =~= outcomes@);
        }
        let failed = outcomes.len() - ok;
        self.stats.record_broadcast(duration_us, ok as u64, failed as u64);
        self.stats.max_concurrent_connections = total_users as u64;
        let pm = self.config.error_threshold_permille as u128;
        let tu = total_users as u128;
        assert(pm * tu <= 0xffff_ffffu128 * 0xffff_ffff_ffff_ffffu128) by (nonlinear_arith)
            requires
                pm <= 0xffff_ffffu128,
                tu <= 0xffff_ffff_ffff_ffffu128,
        ;
        let over = (failed as u128) * 1000 > pm * tu;
        (ok, over)
    }

    /// Records how many rooms the last multi-room broadcast covered.
    pub fn record_multi_room(&mut self, room_count: usize)
        ensures
            final(self).stats_of() == (ParallelBroadcastStats {
                parallel_rooms_processed: room_count as u64,
                ..old(self).stats_of()
            }),
            final(self).config_of() == old(self).config_of(),
    {
        self.stats.parallel_rooms_processed = room_count as u64;
    }

    /// The counters.
    pub fn get_stats(&self) -> (s: ParallelBroadcastStats)
        ensures
            s == self.stats_of(),
    {
        self.stats
    }

    /// The settings.
    pub fn get_config(&self) -> (c: ParallelBroadcastConfig)
        ensures
            c == self.config_of(),
    {
        self.config
    }
}

impl ParallelBroadcastStats {
    pub open spec fn new_spec() -> ParallelBroadcastStats {
        ParallelBroadcastStats {
            total_broadcasts: 0,
            successful_messages: 0,
            failed_messages: 0,
            avg_broadcast_time_us: 0,
            parallel_rooms_processed: 0,
            max_concurrent_connections: 0,
        }
    }
}

/// How many sends succeeded.
pub open spec fn successes(s: Seq<bool>) -> nat
    decreases s.len(),
{
    if s.len() == 0 { 0 } else { successes(s.drop_last()) + if s.last() { 1nat } else { 0nat } }
}

} // verus!
