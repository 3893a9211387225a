use tcpserver::simd::{SimdCapabilities, SimdLevel, SimdOptimizer, SimdOptimizerConfig};

fn optimizer() -> SimdOptimizer {
    SimdOptimizer::new(SimdOptimizerConfig::default(), SimdCapabilities::default())
}

#[test]
fn test_simd_memcmp() {
    let mut optimizer = optimizer();

    let a = vec![1u8; 1024];
    let b = vec![1u8; 1024];
    let c = vec![2u8; 1024];

    assert!(optimizer.simd_memcmp(&a, &b));
    assert!(!optimizer.simd_memcmp(&a, &c));
}

#[test]
fn test_simd_find() {
    let mut optimizer = optimizer();

    let haystack = vec![0u8; 1000];
    let mut haystack_with_needle = haystack.clone();
    haystack_with_needle[500] = 42;

    assert_eq!(optimizer.simd_find(&haystack_with_needle, 42), Some(500));
    assert_eq!(optimizer.simd_find(&haystack, 42), None);
}

#[test]
fn test_simd_xor() {
    let mut optimizer = optimizer();

    let a = vec![0xAAu8; 1024];
    let b = vec![0x55u8; 1024];
    let result = optimizer.simd_xor(&a, &b);

    assert_eq!(result.len(), 1024);
    assert!(result.iter().all(|&x| x == 0xFF));
}

#[test]
fn test_simd_checksum() {
    let mut optimizer = optimizer();

    let data = vec![1u8; 1000];
    let checksum = optimizer.simd_checksum(&data);

    assert_eq!(checksum, 1000);
}

#[test]
fn counters_follow_the_chosen_path() {
    let caps = SimdCapabilities { has_avx2: true, has_sse42: true, has_sse2: true, ..SimdCapabilities::default() };
    let mut o = SimdOptimizer::new(SimdOptimizerConfig::default(), caps);
    let big = vec![3u8; 128];
    let small = vec![3u8; 8];
    assert!(o.simd_memcmp(&big, &big));
    assert!(o.simd_memcmp(&small, &small));
    assert!(!o.simd_memcmp(&big, &small));
    let s = o.get_stats();
    assert_eq!(s.total_operations, 2);
    assert_eq!(s.avx2_usage, 1);
    assert_eq!(s.fallback_usage, 1);
    assert_eq!(s.vectorized_operations, 1);
    assert_eq!(s.bytes_processed, 136);
    assert_eq!(s.optimal_level, SimdLevel::Avx2);
}

#[test]
fn optimal_level_prefers_the_widest_path() {
    let mut c = SimdCapabilities::default();
    assert_eq!(c.optimal_level(), SimdLevel::NoSimd);
    c.has_sse2 = true;
    assert_eq!(c.optimal_level(), SimdLevel::Sse2);
    c.has_sse42 = true;
    assert_eq!(c.optimal_level(), SimdLevel::Sse42);
    c.has_avx2 = true;
    assert_eq!(c.optimal_level(), SimdLevel::Avx2);
}

#[test]
fn xor_of_unequal_lengths_is_empty_and_aligned_buffers_are_zeroed() {
    let mut o = optimizer();
    assert!(o.simd_xor(&[1, 2], &[1]).is_empty());
    let v = o.allocate_aligned(32, 64);
    assert_eq!(v, vec![0u8; 32]);
    assert_eq!(o.get_stats().alignment_optimizations, 1);
    assert_eq!(SimdOptimizer::simple_checksum(&[1, 2, 250]), 253);
}

#[test]
fn test_parallel_simd() {
    let mut optimizer = optimizer();
    let data = vec![vec![1u8; 100], vec![2u8; 100], vec![3u8; 100]];
    let results = optimizer.parallel_simd_process(data, |d: &Vec<u8>| d.iter().map(|&x| x * 2).collect());
    assert_eq!(results.len(), 3);
    assert!(results[0].iter().all(|&x| x == 2));
    assert!(results[1].iter().all(|&x| x == 4));
    assert!(results[2].iter().all(|&x| x == 6));
    assert_eq!(optimizer.get_stats().parallel_executions, 1);
    let single = optimizer.parallel_simd_process(vec![vec![5u8]], |d: &Vec<u8>| d.clone());
    assert_eq!(single, vec![vec![5u8]]);
    assert_eq!(optimizer.get_stats().parallel_executions, 1);
}

#[test]
fn detected_features_count_only_with_sse() {
    let all = SimdCapabilities {
        has_sse: true,
        has_sse2: true,
        has_sse3: true,
        has_ssse3: true,
        has_sse41: true,
        has_sse42: true,
        has_avx: true,
        has_avx2: true,
        has_avx512: false,
    };
    let kept = SimdCapabilities::from_detected(all.clone());
    assert!(kept.has_avx2 && kept.has_sse42 && !kept.has_avx512);
    assert_eq!(kept.optimal_level(), SimdLevel::Avx2);
    let without_sse = SimdCapabilities { has_sse: false, ..all };
    let none = SimdCapabilities::from_detected(without_sse);
    assert!(!none.has_sse2 && !none.has_avx2 && !none.has_sse42);
    assert_eq!(none.optimal_level(), SimdLevel::NoSimd);
}
