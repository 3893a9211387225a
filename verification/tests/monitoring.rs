use tcpserver::performance_monitor::{Histogram, PerformanceProfiler};

#[test]
fn test_histogram() {
    // bounds and values in thousandths: 10.0, 50.0, 100.0, 500.0
    let mut histogram = Histogram::new(vec![10_000, 50_000, 100_000, 500_000]);

    histogram.observe(5_000);
    histogram.observe(25_000);
    histogram.observe(75_000);
    histogram.observe(200_000);

    assert!(histogram.mean() > 0);
    assert!(histogram.percentile(50) > 0);
}

#[test]
fn histogram_percentiles_exact() {
    let mut h = Histogram::new(vec![10, 50, 100, 500]);
    for v in [5, 25, 75, 200] {
        h.observe(v);
    }
    assert_eq!(h.mean(), 76); // 305 / 4
    assert_eq!(h.percentile(0), 10);
    assert_eq!(h.percentile(25), 10); // target 1
    assert_eq!(h.percentile(50), 50); // target 2
    assert_eq!(h.percentile(75), 100); // target 3
    assert_eq!(h.percentile(100), 500); // target 4
    // a value above every bound is counted in no bucket
    h.observe(9_999);
    assert_eq!(h.percentile(100), 500);
}

#[test]
fn empty_histogram() {
    let h = Histogram::new(vec![1, 2]);
    assert_eq!(h.percentile(50), 0);
    assert_eq!(h.mean(), 0);
    let none = Histogram::new(vec![]);
    assert_eq!(none.percentile(50), 0);
}

#[test]
fn profiler_records_nested_calls() {
    let mut p = PerformanceProfiler::new();
    p.start_timing("outer".to_string(), 100);
    p.start_timing("inner".to_string(), 150);
    p.end_timing("inner", 180);
    p.start_timing("inner".to_string(), 200);
    p.end_timing("inner", 290);
    p.end_timing("outer", 400);
    // closing what is not open changes nothing
    p.end_timing("missing", 500);
    let results = p.get_profile_results();
    assert_eq!(results.len(), 2);
    let inner = &results[0];
    assert_eq!(inner.function_name, "inner");
    assert_eq!(inner.call_count, 2);
    assert_eq!(inner.total_time_us, 120);
    assert_eq!(inner.avg_time_us, 60);
    assert_eq!(inner.max_time_us, 90);
    assert_eq!(inner.min_time_us, 30);
    let outer = &results[1];
    assert_eq!(outer.function_name, "outer");
    assert_eq!(outer.call_count, 1);
    assert_eq!(outer.total_time_us, 300);
}

#[test]
fn profiler_closes_innermost_of_same_name() {
    let mut p = PerformanceProfiler::new();
    p.start_timing("f".to_string(), 0);
    p.start_timing("f".to_string(), 10);
    p.end_timing("f", 15);
    p.end_timing("f", 100);
    let r = p.get_profile_results();
    assert_eq!(r[0].call_count, 2);
    assert_eq!(r[0].min_time_us, 5);
    assert_eq!(r[0].max_time_us, 100);
}
