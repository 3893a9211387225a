//! The message compression service: compresses a message unless it is
//! small, serves repeated messages from a cache of earlier results, gathers
//! messages into batches, and counts what it did.

use vstd::prelude::*;
use std::io::{Read, Write};
use flate2::Compression;
use flate2::write::{GzEncoder, ZlibEncoder};
use flate2::read::{GzDecoder, ZlibDecoder};
use crate::compression::{
    CompressionAlgorithm, MessageCompressionConfig, MessageBatch, BatchError, decode_batch,
    encode_batch,
};
use crate::compression_cache::{
    CacheEntry, CacheView, CompressionCache, lru_entries, lru_capacity, lru_wf, lru_lookup, lru_touch,
    lru_store, has_key, lru_new, lru_get, lru_put, calculate_hash, default_hash, entry_view,
    lemma_touch_keeps_entries, lemma_store_keeps_entries, key_index,
};
use crate::error::io_error_text;
use crate::ring_buffer::wrap_add_u64;
use crate::wire::bytes_to_vec;

verus! {

/// The gzip stream `flate2` writes for `data` at `level`, or `None` where
/// its encoder reports an error.
pub uninterp spec fn gzip_encoded(data: Seq<u8>, level: u32) -> Option<Seq<u8>>;

/// The zlib stream `flate2` writes for `data` at `level`, or `None` where
/// its encoder reports an error.
pub uninterp spec fn zlib_encoded(data: Seq<u8>, level: u32) -> Option<Seq<u8>>;

/// What `flate2` reads from a gzip stream, or `None` where it reports an error.
pub uninterp spec fn gzip_decoded(data: Seq<u8>) -> Option<Seq<u8>>;

/// What `flate2` reads from a zlib stream, or `None` where it reports an error.
pub uninterp spec fn zlib_decoded(data: Seq<u8>) -> Option<Seq<u8>>;

/// `GzEncoder` over a `Vec` at `Compression::new(level)`: the gzip stream
/// of `data`, which `GzDecoder` reads back as `data`, or the encoder's
/// error; which of the two comes is a function of `data` and `level`
/// (named by `gzip_encoded`). Levels above 10 are left out: the backend
/// asserts `level <= 10` in debug builds.
#[verifier::external_body]
fn gzip_compress(data: &[u8], level: u32) -> (r: Result<Vec<u8>, std::io::Error>)
    requires
        level <= 10,
    ensures
        match r {
            Ok(v) => gzip_encoded(data@, level) == Some(v@) && gzip_decoded(v@) == Some(data@),
            Err(_) => gzip_encoded(data@, level) is None,
        },
{
    let mut encoder = GzEncoder::new(Vec::new(), Compression::new(level));
    encoder.write_all(data)?;
    encoder.finish()
}

/// `GzDecoder::read_to_end`: the bytes of the gzip stream `data`, or the
/// decoder's error.
#[verifier::external_body]
fn gzip_decompress(data: &[u8]) -> (r: Result<Vec<u8>, std::io::Error>)
    ensures
        match r {
            Ok(v) => gzip_decoded(data@) == Some(v@),
            Err(_) => gzip_decoded(data@) is None,
        },
{
    let mut decoder = GzDecoder::new(data);
    let mut out = Vec::new();
    decoder.read_to_end(&mut out)?;
    Ok(out)
}

/// `ZlibEncoder` over a `Vec` at `Compression::new(level)`: the zlib stream
/// of `data`, which `ZlibDecoder` reads back as `data`, or the encoder's
/// error; which of the two comes is a function of `data` and `level`
/// (named by `zlib_encoded`). Levels above 10 are left out: the backend
/// asserts `level <= 10` in debug builds.
#[verifier::external_body]
fn zlib_compress(data: &[u8], level: u32) -> (r: Result<Vec<u8>, std::io::Error>)
    requires
        level <= 10,
    ensures
        match r {
            Ok(v) => zlib_encoded(data@, level) == Some(v@) && zlib_decoded(v@) == Some(data@),
            Err(_) => zlib_encoded(data@, level) is None,
        },
{
    let mut encoder = ZlibEncoder::new(Vec::new(), Compression::new(level));
    encoder.write_all(data)?;
    encoder.finish()
}

/// `ZlibDecoder::read_to_end`: the bytes of the zlib stream `data`, or the
/// decoder's error.
#[verifier::external_body]
fn zlib_decompress(data: &[u8]) -> (r: Result<Vec<u8>, std::io::Error>)
    ensures
        match r {
            Ok(v) => zlib_decoded(data@) == Some(v@),
            Err(_) => zlib_decoded(data@) is None,
        },
{
    let mut decoder = ZlibDecoder::new(data);
    let mut out = Vec::new();
    decoder.read_to_end(&mut out)?;
    Ok(out)
}

/// Why compressing or decompressing failed.
#[derive(Debug, Clone)]
pub enum CompressionError {
    /// The codec reported an error, with its text.
    Io { message: String },
    /// A decompressed batch could not be read.
    Batch(BatchError),
}

/// What the encoder of an algorithm makes of `data`, `None` where it
/// reports an error; LZ4, Snappy and Zstd are served by zlib.
pub open spec fn encoded_with(alg: CompressionAlgorithm, data: Seq<u8>, level: u32) -> Option<Seq<u8>> {
    match alg {
        CompressionAlgorithm::Uncompressed => Some(data),
        CompressionAlgorithm::Gzip => gzip_encoded(data, level),
        _ => zlib_encoded(data, level),
    }
}

/// What the decoder of an algorithm makes of `data`, `None` on a decoding error.
pub open spec fn decoded_with(alg: CompressionAlgorithm, data: Seq<u8>) -> Option<Seq<u8>> {
    match alg {
        CompressionAlgorithm::Uncompressed => Some(data),
        CompressionAlgorithm::Gzip => gzip_decoded(data),
        _ => zlib_decoded(data),
    }
}

/// The algorithm a compression uses: the adaptive choice when adaptive
/// compression is on, else the configured default.
pub open spec fn chosen_algorithm(cfg: MessageCompressionConfig, adaptive_choice: CompressionAlgorithm) -> CompressionAlgorithm {
    if cfg.enable_adaptive_compression {
        adaptive_choice
    } else {
        cfg.default_algorithm
    }
}

fn encode(alg: CompressionAlgorithm, data: &[u8], level: u32) -> (r: Result<Vec<u8>, CompressionError>)
    requires
        level <= 10,
    ensures
        match r {
            Ok(v) => encoded_with(alg, data@, level) == Some(v@) && decoded_with(alg, v@) == Some(data@),
            Err(e) => encoded_with(alg, data@, level) is None && e is Io,
        },
{
    let res = match alg {
        CompressionAlgorithm::Uncompressed => return Ok(bytes_to_vec(data)),
        CompressionAlgorithm::Gzip => gzip_compress(data, level),
        _ => zlib_compress(data, level),
    };
    match res {
        Ok(v) => Ok(v),
        Err(e) => Err(CompressionError::Io { message: io_error_text(&e) }),
    }
}

fn decode(alg: CompressionAlgorithm, data: &[u8]) -> (r: Result<Vec<u8>, CompressionError>)
    ensures
        match r {
            Ok(v) => decoded_with(alg, data@) == Some(v@),
            Err(e) => decoded_with(alg, data@) is None && e is Io,
        },
{
    let res = match alg {
        CompressionAlgorithm::Uncompressed => return Ok(bytes_to_vec(data)),
        CompressionAlgorithm::Gzip => gzip_decompress(data),
        _ => zlib_decompress(data),
    };
    match res {
        Ok(v) => Ok(v),
        Err(e) => Err(CompressionError::Io { message: io_error_text(&e) }),
    }
}

/// Counters of the service; each wraps at 2^64.
#[derive(Debug, Clone, Copy)]
pub struct CompressionStats {
    pub total_messages: u64,
    pub compressed_messages: u64,
    pub batched_messages: u64,
    pub bytes_before_compression: u64,
    pub bytes_after_compression: u64,
    pub compression_time_us: u64,
    pub decompression_time_us: u64,
    pub cache_hits: u64,
    pub cache_misses: u64,
    pub batch_count: u64,
}

impl CompressionStats {
    pub open spec fn zero_spec() -> CompressionStats {
        CompressionStats {
            total_messages: 0,
            compressed_messages: 0,
            batched_messages: 0,
            bytes_before_compression: 0,
            bytes_after_compression: 0,
            compression_time_us: 0,
            decompression_time_us: 0,
            cache_hits: 0,
            cache_misses: 0,
            batch_count: 0,
        }
    }

    /// All counters at zero.
    pub fn zero() -> (s: Self)
        ensures
            s == Self::zero_spec(),
    {
        CompressionStats {
            total_messages: 0,
            compressed_messages: 0,
            batched_messages: 0,
            bytes_before_compression: 0,
            bytes_after_compression: 0,
            compression_time_us: 0,
            decompression_time_us: 0,
            cache_hits: 0,
            cache_misses: 0,
            batch_count: 0,
        }
    }

    /// The bytes compression saved; zero when it saved none.
    pub fn bytes_saved(&self) -> (n: u64)
        ensures
            n == if self.bytes_before_compression >= self.bytes_after_compression {
                self.bytes_before_compression - self.bytes_after_compression
            } else {
                0
            },
    {
        self.bytes_before_compression.saturating_sub(self.bytes_after_compression)
    }
}

/// How a message was served by `compress`.
#[derive(Debug, Clone, Copy, PartialEq, Eq)]
pub enum CompressOutcome {
    /// Below the size threshold: sent as is.
    Small,
    /// Served from the cache.
    CacheHit,
    /// Compressed now.
    Compressed,
}

/// The counters after one more message is seen.
pub open spec fn counted(s: CompressionStats) -> CompressionStats {
    CompressionStats { total_messages: wrap_add_u64(s.total_messages, 1), ..s }
}

/// The counters after a cache hit.
pub open spec fn hit(s: CompressionStats) -> CompressionStats {
    CompressionStats { cache_hits: wrap_add_u64(s.cache_hits, 1), ..s }
}

/// The counters after a cache miss (counted only when the cache is on).
pub open spec fn missed(s: CompressionStats, cache_on: bool) -> CompressionStats {
    if cache_on {
        CompressionStats { cache_misses: wrap_add_u64(s.cache_misses, 1), ..s }
    } else {
        s
    }
}

/// The counters after compressing `before` bytes into `after` bytes.
pub open spec fn compressed(s: CompressionStats, before: nat, after: nat) -> CompressionStats {
    CompressionStats {
        compressed_messages: wrap_add_u64(s.compressed_messages, 1),
        bytes_before_compression: wrap_add_u64(s.bytes_before_compression, before as int),
        bytes_after_compression: wrap_add_u64(s.bytes_after_compression, after as int),
        ..s
    }
}

/// The counters after a batch of `n` messages is sent.
pub open spec fn batched(s: CompressionStats, n: nat) -> CompressionStats {
    CompressionStats {
        batch_count: wrap_add_u64(s.batch_count, 1),
        batched_messages: wrap_add_u64(s.batched_messages, n as int),
        ..s
    }
}

/// The bytes of each message.
pub open spec fn byte_vecs(ms: Seq<Vec<u8>>) -> Seq<Seq<u8>> {
    ms.map_values(|m: Vec<u8>| m@)
}

/// A compression's content, `None` for a codec error.
pub type CompressView = Option<(Seq<u8>, CompressionAlgorithm, CompressOutcome)>;

/// The result of a compression by its content: the bytes, the algorithm and
/// how the message was served, or `None` on a codec error.
pub open spec fn compress_result_view(
    r: Result<(Vec<u8>, CompressionAlgorithm, CompressOutcome), CompressionError>,
) -> Option<(Seq<u8>, CompressionAlgorithm, CompressOutcome)> {
    match r {
        Ok((v, a, o)) => Some((v@, a, o)),
        Err(_) => None,
    }
}

/// What `compress` does to the service `pre` (giving `post`) and returns
/// (`out`) for `data`.
pub open spec fn compress_spec(
    pre: MessageCompressionService,
    data: Seq<u8>,
    adaptive_choice: CompressionAlgorithm,
    post: MessageCompressionService,
    out: Option<(Seq<u8>, CompressionAlgorithm, CompressOutcome)>,
) -> bool {
    let cfg = pre.config_of();
    let h = default_hash(data);
    &&& post.wf()
    &&& post.config_of() == cfg
    &&& post.pending() == pre.pending()
    &&& post.pending_bytes() == pre.pending_bytes()
    &&& post.pending_since() == pre.pending_since()
    &&& if data.len() < cfg.min_compression_size {
        &&& out == Some((data, CompressionAlgorithm::Uncompressed, CompressOutcome::Small))
        &&& post.stats_of() == counted(pre.stats_of())
        &&& post.cached() == pre.cached()
        &&& post.originals() == pre.originals()
    } else if cfg.enable_compression_cache && has_key(pre.cached(), h) {
        &&& out matches Some((v, a, o)) && lru_lookup(pre.cached(), h) matches Some(e) && e.1 == v
            && e.2 == a && o == CompressOutcome::CacheHit
        &&& post.stats_of() == hit(counted(pre.stats_of()))
        &&& post.cached() == lru_touch(pre.cached(), h)
        &&& post.originals() == pre.originals()
    } else {
        let alg = chosen_algorithm(cfg, adaptive_choice);
        let s1 = missed(counted(pre.stats_of()), cfg.enable_compression_cache);
        match encoded_with(alg, data, cfg.compression_level) {
            Some(v) => {
                &&& out == Some((v, alg, CompressOutcome::Compressed))
                &&& decoded_with(alg, v) == Some(data)
                &&& post.stats_of() == compressed(s1, data.len(), v.len())
                &&& post.cached() == if cfg.enable_compression_cache {
                    lru_store(pre.cached(), cfg.cache_size as nat, h, (h, v, alg))
                } else {
                    pre.cached()
                }
                &&& post.originals() == if cfg.enable_compression_cache {
                    pre.originals().insert(h, data)
                } else {
                    pre.originals()
                }
            },
            None => {
                &&& out is None
                &&& post.stats_of() == s1
                &&& post.cached() == pre.cached()
                &&& post.originals() == pre.originals()
            },
        }
    }
}

/// Each cached result decodes to a message whose hash is its key.
pub open spec fn cache_faithful(s: Seq<(u64, CacheView)>, originals: Map<u64, Seq<u8>>) -> bool {
    forall|i: int|
        0 <= i < s.len() ==> {
            &&& originals.contains_key(#[trigger] s[i].0)
            &&& default_hash(originals[s[i].0]) == s[i].0
            &&& decoded_with(s[i].1.2, s[i].1.1) == Some(originals[s[i].0])
        }
}

/// Compression, its cache, the open batch and the counters.
pub struct MessageCompressionService {
    config: MessageCompressionConfig,
    stats: CompressionStats,
    batch: MessageBatch,
    cache: CompressionCache,
    /// The message each cached result was made from, by its hash.
    originals: Ghost<Map<u64, Seq<u8>>>,
}

impl MessageCompressionService {
    pub closed spec fn config_of(&self) -> MessageCompressionConfig {
        self.config
    }

    pub closed spec fn stats_of(&self) -> CompressionStats {
        self.stats
    }

    /// The messages of the open batch, oldest first.
    pub closed spec fn pending(&self) -> Seq<Seq<u8>> {
        self.batch.message_views()
    }

    /// The byte count of the open batch.
    pub closed spec fn pending_bytes(&self) -> nat {
        self.batch.total_size as nat
    }

    /// When the open batch was opened.
    pub closed spec fn pending_since(&self) -> u64 {
        self.batch.created_at_ms
    }

    /// The cached results, most recently used first.
    pub closed spec fn cached(&self) -> Seq<(u64, CacheView)> {
        lru_entries(self.cache)
    }

    /// The message each cached result was made from, by its hash.
    pub closed spec fn originals(&self) -> Map<u64, Seq<u8>> {
        self.originals@
    }

    pub closed spec fn wf(&self) -> bool {
        &&& lru_wf(lru_entries(self.cache), lru_capacity(self.cache))
        &&& lru_capacity(self.cache) == self.config.cache_size
        &&& self.config.compression_level <= 10
        &&& cache_faithful(lru_entries(self.cache), self.originals@)
    }

    /// A service with the given settings, an empty cache of
    /// `config.cache_size` entries (which must not be zero) and an empty
    /// batch opened at `now_ms`. The compression level is at most 10, the
    /// highest the codec takes.
    pub fn new(config: MessageCompressionConfig, now_ms: u64) -> (s: Self)
        requires
            config.cache_size > 0,
            config.compression_level <= 10,
        ensures
            s.wf(),
            s.config_of() == config,
            s.stats_of() == CompressionStats::zero_spec(),
            s.pending() == Seq::<Seq<u8>>::empty(),
            s.pending_bytes() == 0,
            s.pending_since() == now_ms,
            s.cached() == Seq::<(u64, CacheView)>::empty(),
            s.originals() == Map::<u64, Seq<u8>>::empty(),
    {
        let cache = lru_new(config.cache_size);
        MessageCompressionService {
            config,
            stats: CompressionStats::zero(),
            batch: MessageBatch::new(now_ms),
            cache,
            originals: Ghost(Map::empty()),
        }
    }

    /// Compresses a message. A message below the size threshold is sent as
    /// is; one whose hash is cached is served from the cache; any other is
    /// compressed with the chosen algorithm (`adaptive_choice` when adaptive
    /// compression is on) and, with the cache on, cached under its hash.
    pub fn compress(&mut self, data: &[u8], adaptive_choice: CompressionAlgorithm) -> (r: Result<
        (Vec<u8>, CompressionAlgorithm, CompressOutcome),
        CompressionError,
    >)
        requires
            old(self).wf(),
        ensures
            final(self).wf(),
            final(self).config_of() == old(self).config_of(),
            final(self).pending() == old(self).pending(),
            final(self).pending_bytes() == old(self).pending_bytes(),
            final(self).pending_since() == old(self).pending_since(),
            compress_spec(*old(self), data@, adaptive_choice, *final(self), compress_result_view(r)),
    {
        self.stats.total_messages = self.stats.total_messages.wrapping_add(1);
        if data.len() < self.config.min_compression_size {
            return Ok((bytes_to_vec(data), CompressionAlgorithm::Uncompressed, CompressOutcome::Small));
        }
        let hash = calculate_hash(data);
        if self.config.enable_compression_cache {
            match lru_get(&mut self.cache, hash) {
                Some(entry) => {
                    self.stats.cache_hits = self.stats.cache_hits.wrapping_add(1);
                    proof {
                        let s = old(self).cached();
                        assert(has_key(s, hash));
                        lemma_touch_keeps_entries(s, hash);
                        let t = lru_entries(self.cache);
                        assert forall|j: int| 0 <= j < t.len() implies {
                            &&& self.originals@.contains_key(#[trigger] t[j].0)
                            &&& default_hash(self.originals@[t[j].0]) == t[j].0
                            &&& decoded_with(t[j].1.2, t[j].1.1) == Some(self.originals@[t[j].0])
                        } by {
                            assert(s.contains(t[j]));
                        }
                    }
                    return Ok((entry.compressed, entry.algorithm, CompressOutcome::CacheHit));
                },
                None => {
                    self.stats.cache_misses = self.stats.cache_misses.wrapping_add(1);
                },
            }
        }
        let algorithm = if self.config.enable_adaptive_compression {
            adaptive_choice
        } else {
            self.config.default_algorithm
        };
        let out = match encode(algorithm, data, self.config.compression_level) {
            Ok(v) => v,
            Err(e) => return Err(e),
        };
        self.stats.compressed_messages = self.stats.compressed_messages.wrapping_add(1);
        self.stats.bytes_before_compression = self.stats.bytes_before_compression.wrapping_add(
            data.len() as u64,
        );
        self.stats.bytes_after_compression = self.stats.bytes_after_compression.wrapping_add(
            out.len() as u64,
        );
        if self.config.enable_compression_cache {
            let entry = CacheEntry { original_hash: hash, compressed: out.clone(), algorithm };
            let ghost s = lru_entries(self.cache);
            let ghost o = self.originals@;
            lru_put(&mut self.cache, hash, entry);
            proof {
                self.originals@ = o.insert(hash, data@);
                lemma_store_keeps_entries(s, lru_capacity(self.cache), hash, entry_view(entry));
                let t = lru_entries(self.cache);
                assert forall|j: int| 0 <= j < t.len() implies {
                    &&& self.originals@.contains_key(#[trigger] t[j].0)
                    &&& default_hash(self.originals@[t[j].0]) == t[j].0
                    &&& decoded_with(t[j].1.2, t[j].1.1) == Some(self.originals@[t[j].0])
                } by {
                    if t[j] != (hash, entry_view(entry)) {
                        assert(s.contains(t[j]));
                        let i = choose|i: int| 0 <= i < s.len() && s[i] == t[j];
                        assert(s[i].0 != hash);
                    }
                }
            }
        }
        Ok((out, algorithm, CompressOutcome::Compressed))
    }
}

impl MessageCompressionService {
    /// Decompresses `data` that was sent with `algorithm`.
    pub fn decompress(&self, data: &[u8], algorithm: CompressionAlgorithm) -> (r: Result<Vec<u8>, CompressionError>)
        ensures
            match decoded_with(algorithm, data@) {
                Some(d) => r matches Ok(v) && v@ == d,
                None => r matches Err(e) && e is Io,
            },
    {
        decode(algorithm, data)
    }

    /// Adds the time a compression took.
    pub fn record_compression_time(&mut self, micros: u64)
        ensures
            final(self).stats_of() == (CompressionStats {
                compression_time_us: wrap_add_u64(old(self).stats_of().compression_time_us, micros as int),
                ..old(self).stats_of()
            }),
            final(self).config_of() == old(self).config_of(),
            final(self).pending() == old(self).pending(),
            final(self).pending_bytes() == old(self).pending_bytes(),
            final(self).pending_since() == old(self).pending_since(),
            final(self).cached() == old(self).cached(),
            old(self).wf() ==> final(self).wf(),
    {
        self.stats.compression_time_us = self.stats.compression_time_us.wrapping_add(micros);
    }

    /// Adds the time a decompression took.
    pub fn record_decompression_time(&mut self, micros: u64)
        ensures
            final(self).stats_of() == (CompressionStats {
                decompression_time_us: wrap_add_u64(old(self).stats_of().decompression_time_us, micros as int),
                ..old(self).stats_of()
            }),
            final(self).config_of() == old(self).config_of(),
            final(self).pending() == old(self).pending(),
            final(self).pending_bytes() == old(self).pending_bytes(),
            final(self).pending_since() == old(self).pending_since(),
            final(self).cached() == old(self).cached(),
            old(self).wf() ==> final(self).wf(),
    {
        self.stats.decompression_time_us = self.stats.decompression_time_us.wrapping_add(micros);
    }

    fn take_batch(&mut self, now_ms: u64) -> (b: MessageBatch)
        ensures
            b.message_views() == old(self).pending(),
            final(self).pending() == Seq::<Seq<u8>>::empty(),
            final(self).pending_bytes() == 0,
            final(self).pending_since() == now_ms,
            final(self).stats_of() == batched(old(self).stats_of(), old(self).pending().len()),
            final(self).config_of() == old(self).config_of(),
            final(self).cached() == old(self).cached(),
            old(self).wf() ==> final(self).wf(),
    {
        let mut ready = MessageBatch::new(now_ms);
        std::mem::swap(&mut ready, &mut self.batch);
        self.stats.batch_count = self.stats.batch_count.wrapping_add(1);
        self.stats.batched_messages = self.stats.batched_messages.wrapping_add(ready.messages.len() as u64);
        ready
    }

    /// Adds a message to the open batch. With batching off the message is
    /// returned at once; otherwise, when the batch becomes due (see
    /// `MessageBatch::is_ready`) it is returned framed and a new batch opens
    /// at `now_ms`.
    pub fn add_to_batch(&mut self, message: Vec<u8>, now_ms: u64) -> (r: Option<Vec<u8>>)
        requires
            old(self).pending_bytes() + message@.len() <= usize::MAX,
        ensures
            final(self).config_of() == old(self).config_of(),
            final(self).cached() == old(self).cached(),
            old(self).wf() ==> final(self).wf(),
            !old(self).config_of().enable_batching ==> {
                &&& r matches Some(v) && v@ == message@
                &&& final(self).stats_of() == old(self).stats_of()
                &&& final(self).pending() == old(self).pending()
                &&& final(self).pending_bytes() == old(self).pending_bytes()
                &&& final(self).pending_since() == old(self).pending_since()
            },
            old(self).config_of().enable_batching ==> {
                let cfg = old(self).config_of();
                let msgs = old(self).pending().push(message@);
                let size = old(self).pending_bytes() + message@.len();
                let since = old(self).pending_since();
                if msgs.len() >= cfg.batch_size || size >= cfg.max_batch_bytes || (now_ms >= since
                    && now_ms - since >= cfg.batch_timeout_ms) {
                    &&& r matches Some(v) && v@ == encode_batch(msgs)
                    &&& final(self).pending() == Seq::<Seq<u8>>::empty()
                    &&& final(self).pending_bytes() == 0
                    &&& final(self).pending_since() == now_ms
                    &&& final(self).stats_of() == batched(old(self).stats_of(), msgs.len())
                } else {
                    &&& r is None
                    &&& final(self).pending() == msgs
                    &&& final(self).pending_bytes() == size
                    &&& final(self).pending_since() == since
                    &&& final(self).stats_of() == old(self).stats_of()
                }
            },
    {
        if !self.config.enable_batching {
            return Some(message);
        }
        self.batch.add(message);
        if self.batch.is_ready(&self.config, now_ms) {
            let ready = self.take_batch(now_ms);
            match ready.serialize() {
                Ok(bytes) => return Some(bytes),
                Err(_) => {},
            }
        }
        None
    }

    /// Sends the open batch now, framed, unless it is empty; a new batch
    /// opens at `now_ms`.
    pub fn flush_batch(&mut self, now_ms: u64) -> (r: Option<Vec<u8>>)
        ensures
            final(self).config_of() == old(self).config_of(),
            final(self).cached() == old(self).cached(),
            old(self).wf() ==> final(self).wf(),
            old(self).pending().len() == 0 ==> {
                &&& r is None
                &&& final(self).stats_of() == old(self).stats_of()
                &&& final(self).pending() == old(self).pending()
                &&& final(self).pending_bytes() == old(self).pending_bytes()
                &&& final(self).pending_since() == old(self).pending_since()
            },
            old(self).pending().len() > 0 ==> {
                &&& r matches Some(v) && v@ == encode_batch(old(self).pending())
                &&& final(self).pending() == Seq::<Seq<u8>>::empty()
                &&& final(self).pending_bytes() == 0
                &&& final(self).pending_since() == now_ms
                &&& final(self).stats_of() == batched(old(self).stats_of(), old(self).pending().len())
            },
    {
        if self.batch.messages.len() == 0 {
            return None;
        }
        let ready = self.take_batch(now_ms);
        match ready.serialize() {
            Ok(bytes) => Some(bytes),
            Err(_) => None,
        }
    }

    /// Frames the messages as one batch and compresses the frame.
    pub fn compress_batch(&mut self, messages: Vec<Vec<u8>>, adaptive_choice: CompressionAlgorithm) -> (r: Result<Vec<u8>, CompressionError>)
        requires
            old(self).wf(),
        ensures
            exists|out: CompressView|
                #[trigger] compress_spec(
                    *old(self),
                    encode_batch(byte_vecs(messages@)),
                    adaptive_choice,
                    *final(self),
                    out,
                ) && match r {
                    Ok(v) => out matches Some(t) && t.0 == v@,
                    Err(_) => out is None,
                },
    {
        let batch = MessageBatch { messages, created_at_ms: 0, total_size: 0 };
        let framed = match batch.serialize() {
            Ok(b) => b,
            Err(_) => Vec::new(),
        };
        assert(batch.message_views() == byte_vecs(batch.messages@));
        let r = self.compress(framed.as_slice(), adaptive_choice);
        match r {
            Ok((v, _, _)) => Ok(v),
            Err(e) => Err(e),
        }
    }

    /// Decompresses a batch sent with `algorithm` and reads its messages.
    pub fn decompress_batch(&self, data: &[u8], algorithm: CompressionAlgorithm) -> (r: Result<Vec<Vec<u8>>, CompressionError>)
        ensures
            match decoded_with(algorithm, data@) {
                None => r matches Err(e) && e is Io,
                Some(d) => match decode_batch(d) {
                    Ok(ms) => r matches Ok(v) && v@.map_values(|m: Vec<u8>| m@) == ms,
                    Err(be) => r matches Err(e) && e == CompressionError::Batch(be),
                },
            },
    {
        let d = match decode(algorithm, data) {
            Ok(d) => d,
            Err(e) => return Err(e),
        };
        match MessageBatch::deserialize(d.as_slice()) {
            Ok(ms) => Ok(ms),
            Err(e) => Err(CompressionError::Batch(e)),
        }
    }

    /// A snapshot of the counters.
    pub fn get_stats(&self) -> (s: CompressionStats)
        ensures
            s == self.stats_of(),
    {
        self.stats
    }
}

/// Decompressing what `compress` returned, with the algorithm it reported,
/// gives back the message, unless the cache holds, at the time of the call,
/// the result of a different message with the same hash; a message below the size threshold comes
/// back as it is, uncompressed.
pub proof fn lemma_compress_roundtrip(
    pre: MessageCompressionService,
    data: Seq<u8>,
    adaptive_choice: CompressionAlgorithm,
    post: MessageCompressionService,
    bytes: Seq<u8>,
    algorithm: CompressionAlgorithm,
    outcome: CompressOutcome,
)
    requires
        pre.wf(),
        compress_spec(pre, data, adaptive_choice, post, Some((bytes, algorithm, outcome))),
        has_key(pre.cached(), default_hash(data)) ==> pre.originals()[default_hash(data)] == data,
    ensures
        decoded_with(algorithm, bytes) == Some(data),
        data.len() < pre.config_of().min_compression_size ==> algorithm == CompressionAlgorithm::Uncompressed
            && bytes == data,
{
    let h = default_hash(data);
    let s = pre.cached();
    if data.len() >= pre.config_of().min_compression_size && pre.config_of().enable_compression_cache
        && has_key(s, h) {
        let i = key_index(s, h);
        assert(s[i].0 == h);
        assert(pre.originals().contains_key(s[i].0));
    }
}

} // verus!
