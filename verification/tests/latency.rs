use bangida::execution::latency::LatencyTracker;

#[test]
fn test_basic_stats() {
    let mut lt = LatencyTracker::new(100);
    for i in 1..=100 {
        lt.record(i);
    }
    assert_eq!(lt.count(), 100);
    assert_eq!(lt.mean(), 50);
    assert_eq!(lt.min(), 1);
    assert_eq!(lt.max(), 100);
}

#[test]
fn test_percentiles() {
    let mut lt = LatencyTracker::new(100);
    for i in 1..=100 {
        lt.record(i);
    }
    assert_eq!(lt.p50(), 51);
    assert_eq!(lt.p99(), 99);
}

#[test]
fn test_ring_buffer_eviction() {
    let mut lt = LatencyTracker::new(5);
    for i in 1..=10 {
        lt.record(i);
    }
    assert_eq!(lt.count(), 5);
    assert_eq!(lt.min(), 6);
}

#[test]
fn test_empty() {
    let lt = LatencyTracker::new(100);
    assert_eq!(lt.mean(), 0);
    assert_eq!(lt.p50(), 0);
    assert_eq!(lt.p99(), 0);
}

#[test]
fn latency_unsorted_samples() {
    let mut lt = LatencyTracker::new(10);
    for x in [30u64, 10, 20] {
        lt.record(x);
    }
    // sorted: 10 20 30; p50 index round(0.5 * 2) = 1
    assert_eq!(lt.p50(), 20);
    assert_eq!(lt.p99(), 30);
    assert_eq!(lt.mean(), 20);
    assert_eq!(lt.min(), 10);
    assert_eq!(lt.max(), 30);
}

#[test]
fn latency_window_is_last_max_samples_records() {
    let xs: Vec<u64> = vec![50, 10, 40, 20, 30, 90, 60];
    let mut lt = LatencyTracker::new(4);
    for &x in &xs {
        lt.record(x);
    }
    // window = [20, 30, 90, 60]
    assert_eq!(lt.count(), 4);
    assert_eq!(lt.min(), 20);
    assert_eq!(lt.max(), 90);
    assert_eq!(lt.mean(), 50);
    // sorted window [20, 30, 60, 90]; round(0.5 * 3) = 2
    assert_eq!(lt.p50(), 60);
    assert_eq!(lt.p99(), 90);
}
