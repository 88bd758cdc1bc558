use bangida::decimal::{parse_decimal, Dec};
use bangida::risk::pnl_tracker::PnlTracker;

fn d(s: &str) -> Dec {
    parse_decimal(s).unwrap()
}

#[test]
fn test_record_winning_trade() {
    let mut tracker = PnlTracker::new(d("10000"));
    tracker.record_trade(d("100"), d("1"));
    assert_eq!(tracker.total_trades(), 1);
    assert_eq!(tracker.winning_trades(), 1);
    assert_eq!(tracker.total_pnl(), d("99"));
    assert_eq!(tracker.current_equity(), d("10099"));
}

#[test]
fn test_record_losing_trade() {
    let mut tracker = PnlTracker::new(d("10000"));
    tracker.record_trade(d("-50"), d("1"));
    assert_eq!(tracker.total_trades(), 1);
    assert_eq!(tracker.winning_trades(), 0);
    assert_eq!(tracker.gross_loss(), d("50"));
    assert_eq!(tracker.current_equity(), d("9949"));
}

#[test]
fn pnl_peak_follows_equity() {
    let mut tracker = PnlTracker::new(d("1000"));
    tracker.record_trade(d("50"), d("0"));
    assert_eq!(tracker.peak_equity(), d("1050"));
    tracker.record_trade(d("-20"), d("0"));
    assert_eq!(tracker.peak_equity(), d("1050"));
    assert_eq!(tracker.current_equity(), d("1030"));
    assert_eq!(tracker.gross_profit(), d("50"));
    assert_eq!(tracker.daily_pnl(), d("30"));
    tracker.reset_daily();
    assert_eq!(tracker.daily_pnl(), d("0"));
    tracker.update_equity(d("2000"));
    assert_eq!(tracker.peak_equity(), d("2000"));
    assert_eq!(tracker.total_fees(), d("0"));
}

#[test]
fn test_drawdown_pct() {
    let mut tracker = PnlTracker::new(d("10000"));
    assert_eq!(tracker.drawdown_fraction(), d("0"));
    tracker.record_trade(d("-500"), d("0"));
    // peak 10000, current 9500: a 5 % drawdown
    assert_eq!(tracker.drawdown_fraction(), d("0.05"));
    assert_eq!(PnlTracker::new(d("0")).drawdown_fraction(), d("0"));
}

#[test]
fn test_profit_factor() {
    let mut tracker = PnlTracker::new(d("10000"));
    assert_eq!(tracker.profit_ratio(), None);
    tracker.record_trade(d("200"), d("0"));
    assert_eq!(tracker.profit_ratio(), None);
    tracker.record_trade(d("-100"), d("0"));
    assert_eq!(tracker.profit_ratio(), Some(d("2")));
}

#[test]
fn test_win_rate() {
    let mut tracker = PnlTracker::new(d("10000"));
    tracker.record_trade(d("10"), d("0"));
    tracker.record_trade(d("-5"), d("0"));
    tracker.record_trade(d("10"), d("0"));
    // a win rate of 2/3
    assert_eq!(tracker.winning_trades(), 2);
    assert_eq!(tracker.total_trades(), 3);
    assert!((tracker.winning_trades() as f64 / tracker.total_trades() as f64 - 0.6667).abs() < 0.01);
}

#[test]
fn test_empty_tracker() {
    let tracker = PnlTracker::new(d("10000"));
    assert_eq!(tracker.total_trades(), 0);
    assert_eq!(tracker.profit_ratio(), None);
    assert_eq!(tracker.gross_profit(), d("0"));
    assert_eq!(tracker.drawdown_fraction(), d("0"));
}

#[test]
fn pnl_try_record_trade_checks_the_range() {
    let mut t = PnlTracker::new(d("1000"));
    assert!(t.try_record_trade(d("50"), d("1")));
    assert_eq!(t.total_trades(), 1);
    assert_eq!(t.current_equity(), d("1049"));
    assert_eq!(t.total_pnl(), d("49"));
    // the largest decimal as equity: a further gain would leave the range
    let max = Dec::from_parts(79228162514264337593543950335, 0).unwrap();
    let mut full = PnlTracker::new(max);
    assert!(!full.try_record_trade(d("2"), d("1")));
    assert_eq!(full.total_trades(), 0);
    assert_eq!(full.current_equity(), max);
    // a loss still fits
    assert!(full.try_record_trade(d("-2"), d("1")));
    assert_eq!(full.total_trades(), 1);
}
