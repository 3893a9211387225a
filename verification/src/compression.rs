//! Message batching: a batch is framed as a little-endian `u32` message
//! count, then each message as a little-endian `u32` length and its bytes.

use vstd::prelude::*;
use crate::wire::{ByteCursor, le_u32_bytes, take_u32, push_u32_le, push_bytes, lemma_le_u32_roundtrip};

verus! {

/// Compression algorithms a message may be sent with.
#[derive(Debug, Clone, Copy, PartialEq, Eq)]
pub enum CompressionAlgorithm {
    /// Sent as is.
    Uncompressed,
    Gzip,
    Zlib,
    Lz4,
    Snappy,
    Zstd,
}

/// Settings of compression and batching.
#[derive(Debug, Clone)]
pub struct MessageCompressionConfig {
    pub default_algorithm: CompressionAlgorithm,
    /// 1 to 9.
    pub compression_level: u32,
    /// Messages shorter than this are sent uncompressed.
    pub min_compression_size: usize,
    pub enable_adaptive_compression: bool,
    pub enable_batching: bool,
    /// A batch is flushed at this many messages ...
    pub batch_size: usize,
    /// ... or after this many milliseconds ...
    pub batch_timeout_ms: u64,
    /// ... or at this many bytes.
    pub max_batch_bytes: usize,
    pub enable_compression_cache: bool,
    pub cache_size: usize,
}

impl MessageCompressionConfig {
    /// Zlib at level 6, 128-byte threshold, batches of 10 messages / 50 ms /
    /// 64 KiB, a 100-entry cache, everything enabled.
    pub fn default() -> (c: Self)
        ensures
            c.default_algorithm == CompressionAlgorithm::Zlib,
            c.compression_level == 6,
            c.min_compression_size == 128,
            c.enable_adaptive_compression,
            c.enable_batching,
            c.batch_size == 10,
            c.batch_timeout_ms == 50,
            c.max_batch_bytes == 65536,
            c.enable_compression_cache,
            c.cache_size == 100,
    {
        MessageCompressionConfig {
            default_algorithm: CompressionAlgorithm::Zlib,
            compression_level: 6,
            min_compression_size: 128,
            enable_adaptive_compression: true,
            enable_batching: true,
            batch_size: 10,
            batch_timeout_ms: 50,
            max_batch_bytes: 65536,
            enable_compression_cache: true,
            cache_size: 100,
        }
    }
}

/// Why a batch could not be read.
#[derive(Debug, Clone, Copy, PartialEq, Eq)]
pub enum BatchError {
    /// Fewer than the four count bytes.
    TooShort,
    /// A length header runs past the end.
    BadHeader,
    /// A message runs past the end.
    MissingData,
}

/// The total length of the messages.
pub open spec fn total_len(msgs: Seq<Seq<u8>>) -> nat
    decreases msgs.len(),
{
    if msgs.len() == 0 {
        0
    } else {
        total_len(msgs.drop_last()) + msgs.last().len()
    }
}

/// The framing of the messages after the count: each length (low 32 bits) and bytes.
pub open spec fn encode_batch_messages(msgs: Seq<Seq<u8>>) -> Seq<u8>
    decreases msgs.len(),
{
    if msgs.len() == 0 {
        Seq::empty()
    } else {
        encode_batch_messages(msgs.drop_last()) + le_u32_bytes(
            (msgs.last().len() % 0x1_0000_0000) as u32,
        ) + msgs.last()
    }
}

/// The framing of a batch.
pub open spec fn encode_batch(msgs: Seq<Seq<u8>>) -> Seq<u8> {
    le_u32_bytes((msgs.len() % 0x1_0000_0000) as u32) + encode_batch_messages(msgs)
}

/// Reading `count` messages from the front of `d`.
pub open spec fn decode_batch_messages(d: Seq<u8>, count: nat) -> Result<Seq<Seq<u8>>, BatchError>
    decreases count,
{
    if count == 0 {
        Ok(Seq::empty())
    } else {
        match take_u32(d) {
            None => Err(BatchError::BadHeader),
            Some((n, r)) => if r.len() < n {
                Err(BatchError::MissingData)
            } else {
                match decode_batch_messages(r.skip(n as int), (count - 1) as nat) {
                    Ok(rest) => Ok(seq![r.take(n as int)] + rest),
                    Err(e) => Err(e),
                }
            },
        }
    }
}

/// What reading a batch gives; bytes after the last message are ignored.
pub open spec fn decode_batch(d: Seq<u8>) -> Result<Seq<Seq<u8>>, BatchError> {
    match take_u32(d) {
        None => Err(BatchError::TooShort),
        Some((count, r)) => decode_batch_messages(r, count as nat),
    }
}

/// Messages waiting to be sent together.
#[derive(Debug, Clone)]
pub struct MessageBatch {
    pub messages: Vec<Vec<u8>>,
    /// When the batch was opened, in milliseconds of the caller's clock.
    pub created_at_ms: u64,
    pub total_size: usize,
}

impl MessageBatch {
    /// The messages' bytes.
    pub open spec fn message_views(&self) -> Seq<Seq<u8>> {
        self.messages@.map_values(|m: Vec<u8>| m@)
    }

    /// An empty batch opened at `now_ms`.
    pub fn new(now_ms: u64) -> (b: Self)
        ensures
            b.message_views() == Seq::<Seq<u8>>::empty(),
            b.total_size == 0,
            b.created_at_ms == now_ms,
    {
        let b = MessageBatch { messages: Vec::new(), created_at_ms: now_ms, total_size: 0 };
        assert(b.message_views() =~= Seq::<Seq<u8>>::empty());
        b
    }

    /// Appends a message and adds its length to the byte count.
    pub fn add(&mut self, message: Vec<u8>)
        requires
            old(self).total_size + message@.len() <= usize::MAX,
        ensures
            final(self).message_views() == old(self).message_views().push(message@),
            final(self).total_size == old(self).total_size + message@.len(),
            final(self).created_at_ms == old(self).created_at_ms,
    {
        self.total_size = self.total_size + message.len();
        let ghost m = message@;
        self.messages.push(message);
        assert(self.message_views() =~= old(self).message_views().push(m));
    }

    /// Whether the batch is due at `now_ms`: enough messages, enough bytes,
    /// or open for the timeout (a clock that went back counts as no time).
    pub fn is_ready(&self, config: &MessageCompressionConfig, now_ms: u64) -> (r: bool)
        ensures
            r == (self.messages@.len() >= config.batch_size || self.total_size
                >= config.max_batch_bytes || (now_ms >= self.created_at_ms && now_ms
                - self.created_at_ms >= config.batch_timeout_ms)),
    {
        self.messages.len() >= config.batch_size || self.total_size >= config.max_batch_bytes || (
        now_ms >= self.created_at_ms && now_ms - self.created_at_ms >= config.batch_timeout_ms)
    }

    /// The framed batch: `encode_batch` of the messages. Never fails (counts
    /// and lengths keep their low 32 bits).
    pub fn serialize(&self) -> (r: Result<Vec<u8>, BatchError>)
        ensures
            r matches Ok(b) && b@ == encode_batch(self.message_views()),
    {
        let mut buffer: Vec<u8> = Vec::new();
        let count = self.messages.len();
        #[verifier::truncate]
        let c32: u32 = (count as u64 % 0x1_0000_0000u64) as u32;
        push_u32_le(&mut buffer, c32);
        let mut i: usize = 0;
        while i < count
            invariant
                count == self.messages@.len(),
                i <= count,
                buffer@ == le_u32_bytes(c32) + encode_batch_messages(self.message_views().take(i as int)),
            decreases count - i,
        {
            let msg = &self.messages[i];
            #[verifier::truncate]
            let n32: u32 = (msg.len() as u64 % 0x1_0000_0000u64) as u32;
            push_u32_le(&mut buffer, n32);
            push_bytes(&mut buffer, msg.as_slice());
            proof {
                let mv = self.message_views();
                assert(mv.take(i + 1).drop_last() =~= mv.take(i as int));
                assert(mv.take(i + 1).last() == msg@);
            }
            i = i + 1;
        }
        assert(self.message_views().take(count as int) =~= self.message_views());
        Ok(buffer)
    }

    /// Reads a framed batch; the result is exactly `decode_batch(data@)`.
    pub fn deserialize(data: &[u8]) -> (r: Result<Vec<Vec<u8>>, BatchError>)
        ensures
            match decode_batch(data@) {
                Ok(ms) => r matches Ok(v) && v@.map_values(|m: Vec<u8>| m@) == ms,
                Err(e) => r == Err::<Vec<Vec<u8>>, BatchError>(e),
            },
    {
        let mut cursor = ByteCursor::new(data);
        let count = match cursor.next_u32_le() {
            Some(c) => c,
            None => return Err(BatchError::TooShort),
        };
        let ghost after_count = cursor.remaining();
        let mut messages: Vec<Vec<u8>> = Vec::new();
        let mut i: u32 = 0;
        while i < count
            invariant
                cursor.wf(),
                i <= count,
                decode_batch(data@) == decode_batch_messages(after_count, count as nat),
                decode_batch_messages(after_count, count as nat) == match decode_batch_messages(
                    cursor.remaining(),
                    (count - i) as nat,
                ) {
                    Ok(rest) => Ok(messages@.map_values(|m: Vec<u8>| m@) + rest),
                    Err(e) => Err::<Seq<Seq<u8>>, BatchError>(e),
                },
            decreases count - i,
        {
            let ghost before = cursor.remaining();
            let ghost before_msgs = messages@.map_values(|m: Vec<u8>| m@);
            let n = match cursor.next_u32_le() {
                Some(n) => n,
                None => {
                    assert(decode_batch_messages(before, (count - i) as nat) == Err::<Seq<Seq<u8>>, BatchError>(BatchError::BadHeader));
                    return Err(BatchError::BadHeader);
                },
            };
            let msg = match cursor.next_bytes(n as usize) {
                Some(m) => m,
                None => {
                    assert(decode_batch_messages(before, (count - i) as nat) == Err::<Seq<Seq<u8>>, BatchError>(BatchError::MissingData));
                    return Err(BatchError::MissingData);
                },
            };
            let ghost mv = msg@;
            messages.push(msg);
            i = i + 1;
            proof {
                assert(messages@.map_values(|m: Vec<u8>| m@) =~= before_msgs.push(mv));
                match decode_batch_messages(cursor.remaining(), (count - i) as nat) {
                    Ok(rest) => {
                        assert(before_msgs.push(mv) + rest =~= before_msgs + (seq![mv] + rest));
                    },
                    Err(_) => {},
                }
            }
        }
        proof {
            assert(messages@.map_values(|m: Vec<u8>| m@) + Seq::<Seq<u8>>::empty() =~= messages@.map_values(|m: Vec<u8>| m@));
        }
        Ok(messages)
    }
}

} // verus!

verus! {

/// One message's framing: its length (low 32 bits) and bytes.
pub open spec fn frame_one(m: Seq<u8>) -> Seq<u8> {
    le_u32_bytes((m.len() % 0x1_0000_0000) as u32) + m
}

proof fn lemma_encode_front(msgs: Seq<Seq<u8>>)
    requires
        msgs.len() > 0,
    ensures
        encode_batch_messages(msgs) == frame_one(msgs[0]) + encode_batch_messages(msgs.drop_first()),
    decreases msgs.len(),
{
    if msgs.len() == 1 {
        assert(msgs.drop_last() =~= Seq::<Seq<u8>>::empty());
        assert(msgs.drop_first() =~= Seq::<Seq<u8>>::empty());
        assert(encode_batch_messages(msgs) =~= frame_one(msgs[0]) + encode_batch_messages(
            msgs.drop_first(),
        ));
    } else {
        lemma_encode_front(msgs.drop_last());
        assert(msgs.drop_last().drop_first() =~= msgs.drop_first().drop_last());
        assert(msgs.drop_last()[0] == msgs[0]);
        assert(msgs.drop_first().last() == msgs.last());
        assert(encode_batch_messages(msgs) =~= frame_one(msgs[0]) + encode_batch_messages(
            msgs.drop_first(),
        ));
    }
}

proof fn lemma_decode_messages(msgs: Seq<Seq<u8>>, trailing: Seq<u8>)
    requires
        forall|i: int| 0 <= i < msgs.len() ==> #[trigger] msgs[i].len() < 0x1_0000_0000,
    ensures
        decode_batch_messages(encode_batch_messages(msgs) + trailing, msgs.len()) == Ok::<
            Seq<Seq<u8>>,
            BatchError,
        >(msgs),
    decreases msgs.len(),
{
    if msgs.len() == 0 {
        assert(msgs =~= Seq::<Seq<u8>>::empty());
    } else {
        let m = msgs[0];
        let rest = msgs.drop_first();
        lemma_encode_front(msgs);
        assert forall|i: int| 0 <= i < rest.len() implies #[trigger] rest[i].len() < 0x1_0000_0000 by {
            assert(rest[i] == msgs[i + 1]);
        }
        lemma_decode_messages(rest, trailing);
        let n = m.len() as u32;
        let tail = m + (encode_batch_messages(rest) + trailing);
        assert(encode_batch_messages(msgs) + trailing =~= le_u32_bytes(n) + tail);
        lemma_le_u32_roundtrip(n);
        assert((le_u32_bytes(n) + tail).skip(4) =~= tail);
        assert(tail.take(n as int) =~= m);
        assert(tail.skip(n as int) =~= encode_batch_messages(rest) + trailing);
        assert(seq![m] + rest =~= msgs);
    }
}

/// Reading a framed batch gives its messages back, whatever follows the
/// frame, when there are fewer than 2^32 messages of fewer than 2^32 bytes each.
pub proof fn lemma_batch_roundtrip(msgs: Seq<Seq<u8>>, trailing: Seq<u8>)
    requires
        msgs.len() < 0x1_0000_0000,
        forall|i: int| 0 <= i < msgs.len() ==> #[trigger] msgs[i].len() < 0x1_0000_0000,
    ensures
        decode_batch(encode_batch(msgs) + trailing) == Ok::<Seq<Seq<u8>>, BatchError>(msgs),
{
    let c = msgs.len() as u32;
    lemma_le_u32_roundtrip(c);
    let body = encode_batch_messages(msgs) + trailing;
    assert(encode_batch(msgs) + trailing =~= le_u32_bytes(c) + body);
    assert((le_u32_bytes(c) + body).skip(4) =~= body);
    lemma_decode_messages(msgs, trailing);
}

} // verus!
