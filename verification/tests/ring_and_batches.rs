use tcpserver::compression::{BatchError, MessageBatch, MessageCompressionConfig};
use tcpserver::ring_buffer::{IOMetrics, RingBuffer};

#[test]
fn ring_buffer_is_a_bounded_fifo() {
    let mut r = RingBuffer::new(4);
    assert_eq!(r.capacity(), 4);
    assert_eq!(r.write(&[1, 2, 3]), 3);
    assert_eq!(r.available(), 3);
    assert_eq!(r.write(&[4, 5, 6]), 1);
    assert_eq!(r.capacity(), 0);
    let mut out = [0u8; 2];
    assert_eq!(r.read(&mut out), 2);
    assert_eq!(out, [1, 2]);
    assert_eq!(r.write(&[7, 8]), 2);
    let mut all = [0u8; 8];
    assert_eq!(r.read(&mut all), 4);
    assert_eq!(&all[..4], &[3, 4, 7, 8]);
    assert_eq!(r.available(), 0);
}

#[test]
fn zero_capacity_ring_holds_nothing() {
    let mut r = RingBuffer::new(0);
    assert_eq!(r.write(&[1]), 0);
    let mut out = [0u8; 1];
    assert_eq!(r.read(&mut out), 0);
}

#[test]
fn io_metrics_count() {
    let mut m = IOMetrics::new();
    m.record_read(10);
    m.record_write(20);
    m.record_vectored_write();
    m.record_zero_copy_read();
    assert_eq!(m.bytes_read, 10);
    assert_eq!(m.bytes_written, 20);
    assert_eq!(m.vectored_writes, 1);
    assert_eq!(m.zero_copy_reads, 1);
}

#[test]
fn batches_roundtrip() {
    let mut b = MessageBatch::new(0);
    b.add(b"msg1".to_vec());
    b.add(b"msg2".to_vec());
    b.add(b"msg3".to_vec());
    let bytes = b.serialize().unwrap();
    let messages = MessageBatch::deserialize(&bytes).unwrap();
    assert_eq!(messages.len(), 3);
    assert_eq!(messages[2], b"msg3".to_vec());
    assert_eq!(&bytes[..4], &[3, 0, 0, 0]);
}

#[test]
fn batch_readiness_and_errors() {
    let mut config = MessageCompressionConfig::default();
    config.batch_size = 3;
    config.batch_timeout_ms = 1000;
    let mut b = MessageBatch::new(100);
    b.add(vec![1]);
    assert!(!b.is_ready(&config, 500));
    assert!(b.is_ready(&config, 1100));
    assert!(!b.is_ready(&config, 50));
    b.add(vec![2]);
    b.add(vec![3]);
    assert!(b.is_ready(&config, 100));
    assert_eq!(MessageBatch::deserialize(&[1, 0]), Err(BatchError::TooShort));
    assert_eq!(MessageBatch::deserialize(&[1, 0, 0, 0, 5]), Err(BatchError::BadHeader));
    assert_eq!(MessageBatch::deserialize(&[1, 0, 0, 0, 5, 0, 0, 0, 1]), Err(BatchError::MissingData));
}
