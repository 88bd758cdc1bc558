use bangida::exchange::binance::rate_limit::BinanceRateLimiter;
use bangida::exchange::bybit::rate_limit::BybitRateLimiter;
use std::time::Duration;

#[test]
fn rate_limit_test_consume_within_limit() {
    let mut rl = BinanceRateLimiter::with_limit(10, Duration::from_secs(60));
    assert!(rl.check_and_consume(5));
    assert!(rl.check_and_consume(5));
    assert!(!rl.check_and_consume(1));

    let mut rl = BybitRateLimiter::with_limit(5, Duration::from_secs(5));
    assert!(rl.check_and_consume(3));
    assert!(rl.check_and_consume(2));
    assert!(!rl.check_and_consume(1));
}

#[test]
fn rate_limit_refusal_keeps_count() {
    let mut rl = BinanceRateLimiter::with_limit(10, Duration::from_secs(60));
    assert!(rl.check_and_consume(7));
    assert!(!rl.check_and_consume(4));
    assert_eq!(rl.used_weight(), 7);
    assert!(rl.check_and_consume(3));
    assert_eq!(rl.used_weight(), 10);
    assert!(rl.time_until_reset_nanos() <= 60_000_000_000);
}

#[test]
fn rate_limit_window_restarts() {
    let mut rl = BybitRateLimiter::with_limit(2, Duration::from_nanos(0));
    assert!(rl.check_and_consume(2));
    // the zero-length window has always elapsed, so the count restarts
    assert!(rl.check_and_consume(2));
    assert_eq!(rl.used(), 2);
    assert_eq!(BinanceRateLimiter::new().used_weight(), 0);
    assert_eq!(BybitRateLimiter::default().used(), 0);
}
