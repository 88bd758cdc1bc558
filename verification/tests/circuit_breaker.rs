use bangida::decimal::{parse_decimal, Dec};
use bangida::risk::circuit_breaker::{BreakerHalt, CircuitBreaker};
use bangida::risk::limits::RiskLimits;

fn d(s: &str) -> Dec {
    parse_decimal(s).unwrap()
}

fn test_config() -> RiskLimits {
    RiskLimits {
        max_risk_per_trade_pct: d("0.01"),
        max_daily_loss_pct: d("0.05"),
        max_drawdown_pct: d("0.10"),
        max_consecutive_losses: 3,
        cooldown_minutes: 5,
        min_equity: d("100.0"),
        max_open_positions: 3,
        max_trades_per_hour: 60,
        max_leverage: 20,
    }
}

#[test]
fn test_can_trade_initially() {
    let cb = CircuitBreaker::new(test_config(), d("10000"));
    assert!(cb.can_trade().is_ok());
}

#[test]
fn test_consecutive_losses_trigger() {
    let mut cb = CircuitBreaker::new(test_config(), d("10000"));
    cb.on_trade_result(d("-10"));
    cb.on_trade_result(d("-10"));
    cb.on_trade_result(d("-10"));
    assert!(cb.can_trade().is_err());
}

#[test]
fn test_winning_trade_resets_streak() {
    let mut cb = CircuitBreaker::new(test_config(), d("10000"));
    cb.on_trade_result(d("-10"));
    cb.on_trade_result(d("-10"));
    cb.on_trade_result(d("20"));
    assert!(cb.can_trade().is_ok());
}

#[test]
fn test_low_equity_trigger() {
    let mut cb = CircuitBreaker::new(test_config(), d("150"));
    cb.on_trade_result(d("-60"));
    assert!(cb.can_trade().is_err());
}

#[test]
fn test_reset_daily() {
    let mut cb = CircuitBreaker::new(test_config(), d("10000"));
    cb.on_trade_result(d("-10"));
    cb.on_trade_result(d("-10"));
    cb.on_trade_result(d("-10"));
    assert!(cb.can_trade().is_err());
    cb.reset_daily();
    assert!(cb.can_trade().is_ok());
}

#[test]
fn breaker_cooldown_reason_and_expiry() {
    let mut cb = CircuitBreaker::new(test_config(), d("10000"));
    for _ in 0..3 {
        cb.on_trade_result_at(d("-10"), 1_000);
    }
    assert!(cb.is_halted());
    match cb.can_trade_at(1_000) {
        Err(BreakerHalt::Cooldown { until, remaining_secs }) => {
            assert_eq!(until, 301_000);
            assert_eq!(remaining_secs, 300);
        }
        other => panic!("expected a cooldown, got {:?}", other),
    }
    // after the cooldown the streak no longer blocks trading
    assert!(cb.can_trade_at(301_000).is_ok());
}

#[test]
fn breaker_daily_loss_and_drawdown() {
    let mut cb = CircuitBreaker::new(test_config(), d("1000"));
    cb.on_trade_result_at(d("-60"), 0);
    match cb.can_trade_at(0) {
        Err(BreakerHalt::DailyLoss { loss_ratio, max_ratio }) => {
            assert_eq!(loss_ratio, d("0.06"));
            assert_eq!(max_ratio, d("0.05"));
        }
        other => panic!("expected the daily loss limit, got {:?}", other),
    }
    cb.reset_daily();
    cb.update_equity(d("850"));
    match cb.can_trade_at(0) {
        Err(BreakerHalt::Drawdown { drawdown, .. }) => assert_eq!(drawdown, d("0.15")),
        other => panic!("expected the drawdown limit, got {:?}", other),
    }
}

#[test]
fn breaker_trade_rate() {
    let mut cfg = test_config();
    cfg.max_trades_per_hour = 2;
    let mut cb = CircuitBreaker::new(cfg, d("10000"));
    cb.on_trade_result_at(d("1"), 0);
    cb.on_trade_result_at(d("1"), 0);
    assert!(matches!(cb.can_trade_at(0), Err(BreakerHalt::TradeRate { trades: 2, max_trades: 2 })));
    cb.reset_hourly();
    assert!(cb.can_trade_at(0).is_ok());
}

#[test]
fn breaker_try_can_trade_checks_the_range() {
    let tiny = Dec::from_parts(1, 28).unwrap();
    let mut cb = CircuitBreaker::new(test_config(), tiny);
    assert!(cb.checks_fit());
    assert!(cb.try_can_trade().is_some());
    assert!(cb.result_fits(d("-10")));
    cb.on_trade_result(d("-10"));
    // a daily loss of 10 against a peak of 10^-28 has no ratio within range
    assert!(!cb.checks_fit());
    assert!(cb.try_can_trade().is_none());
}
