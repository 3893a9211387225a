use bytes::{Bytes, BytesMut};
use tcpserver::async_io::{
    AdaptiveBufferManager, AsyncIoOptimizerConfig, BufferPoolError, IoCoalescingManager, IoStats,
    SizeSummary, VectoredIOManager, ZeroCopyBufferPool,
};

#[test]
fn test_zero_copy_buffer_pool() {
    let mut pool = ZeroCopyBufferPool::new(4096, 10);

    let buffer1 = pool.acquire().unwrap();
    assert_eq!(buffer1.capacity(), 4096);

    let buffer2 = pool.acquire().unwrap();
    assert_eq!(buffer2.capacity(), 4096);

    pool.release(buffer1);

    let buffer3 = pool.acquire().unwrap();
    assert_eq!(buffer3.capacity(), 4096);
    drop(buffer2);
}

#[test]
fn pool_refuses_past_its_limit() {
    let mut pool = ZeroCopyBufferPool::new(16, 2);
    let a = pool.acquire().unwrap();
    let b = pool.acquire().unwrap();
    assert_eq!(pool.acquire().unwrap_err(), BufferPoolError::Exhausted);
    pool.release(a);
    let c = pool.acquire().unwrap();
    assert!(c.is_empty());
    drop(b);
}

#[test]
fn released_buffer_comes_back_empty() {
    let mut pool = ZeroCopyBufferPool::new(8, 2);
    let mut a = pool.acquire().unwrap();
    a.extend_from_slice(b"abc");
    pool.release(a);
    let b = pool.acquire().unwrap();
    assert_eq!(b.len(), 0);
}

#[test]
fn test_adaptive_buffer_manager() {
    let mut manager = AdaptiveBufferManager::new(1024, 8192, 0);
    assert_eq!(manager.get_optimal_size(), 1024);
    for _ in 0..50 {
        assert!(manager.can_record(2048, 100));
        assert!(manager.record_io_size(2048, 100).is_none());
    }
    assert_eq!(manager.get_optimal_size(), 1024);
}

#[test]
fn adaptive_manager_summarizes_when_due() {
    let mut manager = AdaptiveBufferManager::new(1024, 8192, 0);
    assert!(manager.record_io_size(1000, 5).is_none());
    assert!(manager.record_io_size(3000, 5).is_none());
    let summary = manager.record_io_size(2000, 10_000).unwrap();
    // mean 2000; squared distances 1_000_000 + 1_000_000 + 0, over 3
    assert_eq!(summary, SizeSummary { average: 2000, variance: 666_666 });
    // too early again
    assert!(manager.record_io_size(2000, 15_000).is_none());
    manager.apply_adjustment(summary, 816);
    assert_eq!(manager.get_optimal_size(), 3632);
    manager.apply_adjustment(SizeSummary { average: 10, variance: 0 }, 0);
    assert_eq!(manager.get_optimal_size(), 1024);
    manager.apply_adjustment(SizeSummary { average: 100_000, variance: 0 }, 0);
    assert_eq!(manager.get_optimal_size(), 8192);
}

#[test]
fn adaptive_manager_keeps_the_last_hundred() {
    let mut manager = AdaptiveBufferManager::new(1, 10, 0);
    for _ in 0..100 {
        manager.record_io_size(1, 1);
    }
    manager.record_io_size(401, 1);
    let summary = manager.record_io_size(1, 20_000).unwrap();
    // window: 98 ones, 401, 1 -> sum 500, mean 5
    assert_eq!(summary.average, 5);
}

#[test]
fn test_io_coalescing() {
    let mut manager = IoCoalescingManager::new(1024, 10, 0);

    let data1 = Bytes::from(vec![1u8; 512]);
    let data2 = Bytes::from(vec![2u8; 512]);

    assert!(manager.add_write(data1.clone(), 0).is_none());

    let coalesced = manager.add_write(data2.clone(), 0);
    assert!(coalesced.is_some());

    let result = coalesced.unwrap();
    assert_eq!(result.len(), 2);
    assert_eq!(result[0].len(), 512);
    assert_eq!(result[1].len(), 512);
    assert_eq!(result[1][0], 2);
}

#[test]
fn coalescing_flushes_on_timeout() {
    let mut manager = IoCoalescingManager::new(1024, 10, 100);
    assert!(manager.add_write(Bytes::from(vec![0u8; 4]), 105).is_none());
    let out = manager.add_write(Bytes::from(vec![1u8; 4]), 110).unwrap();
    assert_eq!(out.len(), 2);
    assert!(manager.flush(200).is_empty());
    assert!(manager.add_write(Bytes::from(vec![1u8; 4]), 205).is_none());
    assert_eq!(manager.flush(206).len(), 1);
}

#[test]
fn io_stats_running_average() {
    let mut stats = IoStats::zero();
    stats.record_read(100, 10);
    stats.record_read(50, 20);
    assert_eq!(stats.total_reads, 2);
    assert_eq!(stats.bytes_read, 150);
    assert_eq!(stats.avg_read_latency_us, 15);
    stats.record_write(7, 9);
    assert_eq!(stats.total_writes, 1);
    assert_eq!(stats.bytes_written, 7);
    assert_eq!(stats.avg_write_latency_us, 9);
    assert_eq!(stats.total_reads, 2);
}

#[test]
fn io_config_defaults() {
    let c = AsyncIoOptimizerConfig::default();
    assert_eq!(c.buffer_size, 65536);
    assert_eq!(c.pipeline_depth, 4);
    assert_eq!(c.max_concurrent_io, 1000);
    assert_eq!(c.completion_queue_size, 512);
    assert!(c.enable_zero_copy && c.enable_io_coalescing);
    let _unused: Option<BytesMut> = None;
}

#[test]
fn vectored_writes_go_out_in_batches() {
    let mut m = VectoredIOManager::new(1024, 3);
    assert!(m.vectored_write(Bytes::from_static(b"a")).is_none());
    assert!(m.vectored_write(Bytes::from_static(b"bb")).is_none());
    let batch = m.vectored_write(Bytes::from_static(b"ccc")).unwrap();
    let lens: Vec<usize> = batch.iter().map(|b| b.len()).collect();
    assert_eq!(lens, vec![1, 2, 3]);
    assert!(m.flush_writes().is_empty());
    assert!(m.vectored_write(Bytes::from_static(b"d")).is_none());
    let rest = m.flush_writes();
    assert_eq!(rest.len(), 1);
    assert_eq!(&rest[0][..], b"d");
}
