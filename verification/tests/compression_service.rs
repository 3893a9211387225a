use tcpserver::compression::{CompressionAlgorithm, MessageBatch, MessageCompressionConfig};
use tcpserver::compression_service::{CompressOutcome, MessageCompressionService};

fn long_message() -> Vec<u8> {
    b"Hello, World! This is a test message that should be compressed. ".repeat(8)
}

#[test]
fn test_batching() {
    let mut config = MessageCompressionConfig::default();
    config.batch_size = 3;
    config.batch_timeout_ms = 1000;

    let mut service = MessageCompressionService::new(config, 0);

    assert!(service.add_to_batch(b"msg1".to_vec(), 0).is_none());
    assert!(service.add_to_batch(b"msg2".to_vec(), 0).is_none());

    let batch = service.add_to_batch(b"msg3".to_vec(), 0);
    assert!(batch.is_some());

    let messages = MessageBatch::deserialize(&batch.unwrap()).unwrap();
    assert_eq!(messages.len(), 3);
}

#[test]
fn large_messages_compress_and_decompress() {
    let mut service = MessageCompressionService::new(MessageCompressionConfig::default(), 0);
    let data = long_message();
    let (compressed, algorithm, outcome) = service.compress(&data, CompressionAlgorithm::Zlib).unwrap();
    assert!(compressed.len() < data.len());
    assert_eq!(algorithm, CompressionAlgorithm::Zlib);
    assert_eq!(outcome, CompressOutcome::Compressed);
    assert_ne!(compressed, data);
    let decompressed = service.decompress(&compressed, algorithm).unwrap();
    assert_eq!(decompressed, data);
    let stats = service.get_stats();
    assert_eq!(stats.total_messages, 1);
    assert_eq!(stats.compressed_messages, 1);
    assert_eq!(stats.cache_misses, 1);
    assert_eq!(stats.bytes_before_compression, data.len() as u64);
    assert_eq!(stats.bytes_after_compression, compressed.len() as u64);
    assert_eq!(stats.bytes_saved(), (data.len() - compressed.len()) as u64);
}

#[test]
fn gzip_roundtrip_and_small_messages_pass_through() {
    let mut config = MessageCompressionConfig::default();
    config.enable_adaptive_compression = false;
    config.default_algorithm = CompressionAlgorithm::Gzip;
    let mut service = MessageCompressionService::new(config, 0);
    let data = long_message();
    let (compressed, algorithm, _) = service.compress(&data, CompressionAlgorithm::Zlib).unwrap();
    assert_eq!(algorithm, CompressionAlgorithm::Gzip);
    assert_eq!(&compressed[..2], &[0x1f, 0x8b]);
    assert_eq!(service.decompress(&compressed, algorithm).unwrap(), data);

    let small = b"tiny".to_vec();
    let (out, algorithm, outcome) = service.compress(&small, CompressionAlgorithm::Zlib).unwrap();
    assert_eq!(out, small);
    assert_eq!(algorithm, CompressionAlgorithm::Uncompressed);
    assert_eq!(outcome, CompressOutcome::Small);
}

#[test]
fn repeated_messages_come_from_the_cache() {
    let mut service = MessageCompressionService::new(MessageCompressionConfig::default(), 0);
    let data = long_message();
    let (first, a1, o1) = service.compress(&data, CompressionAlgorithm::Zlib).unwrap();
    let (second, a2, o2) = service.compress(&data, CompressionAlgorithm::Gzip).unwrap();
    assert_eq!(o1, CompressOutcome::Compressed);
    assert_eq!(o2, CompressOutcome::CacheHit);
    assert_eq!(first, second);
    assert_eq!(a1, a2);
    let stats = service.get_stats();
    assert_eq!(stats.cache_hits, 1);
    assert_eq!(stats.cache_misses, 1);
}

#[test]
fn the_cache_evicts_the_least_recently_used_result() {
    let mut config = MessageCompressionConfig::default();
    config.cache_size = 1;
    let mut service = MessageCompressionService::new(config, 0);
    let a = long_message();
    let mut b = long_message();
    b.push(b'!');
    service.compress(&a, CompressionAlgorithm::Zlib).unwrap();
    service.compress(&b, CompressionAlgorithm::Zlib).unwrap();
    let (_, _, outcome) = service.compress(&a, CompressionAlgorithm::Zlib).unwrap();
    assert_eq!(outcome, CompressOutcome::Compressed);
}

#[test]
fn garbage_does_not_decompress() {
    let service = MessageCompressionService::new(MessageCompressionConfig::default(), 0);
    assert!(service.decompress(&[1, 2, 3, 4], CompressionAlgorithm::Zlib).is_err());
    assert!(service.decompress(&[1, 2, 3, 4], CompressionAlgorithm::Gzip).is_err());
    assert_eq!(service.decompress(&[1, 2, 3], CompressionAlgorithm::Uncompressed).unwrap(), vec![1, 2, 3]);
}

#[test]
fn compressed_batches_roundtrip_and_flush_sends_the_rest() {
    let mut service = MessageCompressionService::new(MessageCompressionConfig::default(), 0);
    let msgs = vec![long_message(), b"second".to_vec(), Vec::new()];
    let packed = service.compress_batch(msgs.clone(), CompressionAlgorithm::Zlib).unwrap();
    let unpacked = service.decompress_batch(&packed, CompressionAlgorithm::Zlib).unwrap();
    assert_eq!(unpacked, msgs);

    assert!(service.flush_batch(5).is_none());
    assert!(service.add_to_batch(b"a".to_vec(), 5).is_none());
    let flushed = service.flush_batch(6).unwrap();
    assert_eq!(MessageBatch::deserialize(&flushed).unwrap(), vec![b"a".to_vec()]);
    assert_eq!(service.get_stats().batch_count, 1);
    assert_eq!(service.get_stats().batched_messages, 1);
}

#[test]
fn batching_off_passes_messages_through() {
    let mut config = MessageCompressionConfig::default();
    config.enable_batching = false;
    let mut service = MessageCompressionService::new(config, 0);
    assert_eq!(service.add_to_batch(b"x".to_vec(), 0), Some(b"x".to_vec()));
}

#[test]
fn the_short_test_message_does_not_shrink_under_any_codec() {
    let data = b"Hello, World! This is a test message that should be compressed.";
    // With the default settings the 63-byte message is below the 128-byte
    // threshold and is sent as it is.
    let mut service = MessageCompressionService::new(MessageCompressionConfig::default(), 0);
    let (out, algorithm, outcome) = service.compress(data, CompressionAlgorithm::Zlib).unwrap();
    assert_eq!(algorithm, CompressionAlgorithm::Uncompressed);
    assert_eq!(outcome, CompressOutcome::Small);
    assert_eq!(&out[..], &data[..]);
    // Forced through the codecs it comes back whole, but no shorter.
    let mut config = MessageCompressionConfig::default();
    config.min_compression_size = 0;
    config.enable_compression_cache = false;
    let mut forced = MessageCompressionService::new(config, 0);
    for alg in [CompressionAlgorithm::Zlib, CompressionAlgorithm::Gzip] {
        let (c, a, _) = forced.compress(data, alg).unwrap();
        assert_eq!(a, alg);
        assert!(c.len() >= data.len());
        assert_eq!(&forced.decompress(&c, a).unwrap()[..], &data[..]);
    }
}
