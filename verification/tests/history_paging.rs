use bangida::scalper::paging::{
    cache_coverage, cache_cutoff_ms, coverage_sufficient, dedupe_sort_order, kept_since, Pager,
};

#[derive(Debug, Clone)]
struct Candle {
    time_ms: u64,
    open: f64,
    high: f64,
    low: f64,
    close: f64,
    volume: f64,
}

fn dedupe_sort(candles: Vec<Candle>) -> Vec<Candle> {
    let times: Vec<u64> = candles.iter().map(|c| c.time_ms).collect();
    dedupe_sort_order(&times).into_iter().map(|i| candles[i].clone()).collect()
}

#[test]
fn dedupe_sort_removes_duplicates() {
    let candles = vec![
        Candle { time_ms: 3000, open: 3.0, high: 3.0, low: 3.0, close: 3.0, volume: 1.0 },
        Candle { time_ms: 1000, open: 1.0, high: 1.0, low: 1.0, close: 1.0, volume: 1.0 },
        Candle { time_ms: 2000, open: 2.0, high: 2.0, low: 2.0, close: 2.0, volume: 1.0 },
        Candle { time_ms: 1000, open: 1.0, high: 1.0, low: 1.0, close: 1.0, volume: 1.0 },
    ];
    let sorted = dedupe_sort(candles);
    assert_eq!(sorted.len(), 3);
    assert_eq!(sorted[0].time_ms, 1000);
    assert_eq!(sorted[1].time_ms, 2000);
    assert_eq!(sorted[2].time_ms, 3000);
    assert_eq!(sorted[0].open + sorted[0].high + sorted[0].low + sorted[0].close, 4.0);
    assert_eq!(sorted[2].volume, 1.0);
}

#[test]
fn dedupe_keeps_first_of_equal_times() {
    assert_eq!(dedupe_sort_order(&vec![5, 2, 5, 2, 9]), vec![1, 0, 4]);
    assert_eq!(dedupe_sort_order(&vec![]), Vec::<usize>::new());
    assert_eq!(dedupe_sort_order(&vec![7, 7, 7]), vec![0]);
}

#[test]
fn binance_pager_walks_to_now() {
    let mut p = Pager::binance(200_000_000, 1, 60);
    assert_eq!(p.window(), Some((113_600_000, 197_600_000)));
    p.advance(Some(197_540_000));
    assert_eq!(p.window(), Some((197_600_001, 200_000_000)));
    p.advance(None);
    assert_eq!(p.window(), None);
    assert_eq!(p.pages(), 2);
}

#[test]
fn pager_moves_one_step_past_last_item() {
    let mut p = Pager::kraken(1_000_000, 1, 60);
    assert_eq!(p.window(), Some((913_600, 1_000_000)));
    p.advance(Some(999_990));
    // 999_990 + 60 passes the window's end, so the cursor goes there
    assert_eq!(p.window(), None);
    assert_eq!(p.pages(), 1);
}

#[test]
fn pager_stops_at_page_cap() {
    let mut p = Pager::kraken(1_000_000_000, 1000, 60);
    let mut fetched = 0;
    while let Some((_, to)) = p.window() {
        p.advance(Some(to - 60));
        fetched += 1;
    }
    assert_eq!(fetched, 501);
    assert_eq!(p.pages(), 501);
}

#[test]
fn cache_coverage_threshold() {
    assert_eq!(cache_coverage(1000, 1, 60), 69);
    assert!(!coverage_sufficient(cache_coverage(1000, 1, 60)));
    assert_eq!(cache_coverage(1008, 1, 60), 70);
    assert!(coverage_sufficient(cache_coverage(1008, 1, 60)));
    assert_eq!(cache_coverage(5, 0, 60), 100);
}

#[test]
fn cache_cutoff_and_trim() {
    assert_eq!(cache_cutoff_ms(100, 1), 0);
    assert_eq!(cache_cutoff_ms(100_000_000, 1), 13_600_000);
    assert_eq!(kept_since(&vec![5, 1, 7, 3], 4), vec![0, 2]);
}
