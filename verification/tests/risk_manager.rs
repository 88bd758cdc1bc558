use bangida::common::error::BangidaError;
use bangida::decimal::{parse_decimal, Dec};
use bangida::risk::limits::RiskLimits;
use bangida::risk::risk_manager::RiskManager;

fn d(s: &str) -> Dec {
    parse_decimal(s).unwrap()
}

fn test_config() -> RiskLimits {
    RiskLimits {
        max_risk_per_trade_pct: d("0.01"),
        max_daily_loss_pct: d("0.05"),
        max_drawdown_pct: d("0.10"),
        max_consecutive_losses: 5,
        cooldown_minutes: 15,
        min_equity: d("100.0"),
        max_open_positions: 3,
        max_trades_per_hour: 60,
        max_leverage: 20,
    }
}

#[test]
fn test_validate_signal_ok() {
    let rm = RiskManager::new(test_config());
    let result = rm.validate_signal(d("10000"), 0, 10);
    assert!(result.is_ok());
    let vs = result.unwrap();
    assert!(Dec::zero().lt(&vs.quantity));
    assert!(vs.leverage <= 10);
}

#[test]
fn test_reject_low_equity() {
    let rm = RiskManager::new(test_config());
    let result = rm.validate_signal(d("50"), 0, 10);
    assert!(result.is_err());
}

#[test]
fn test_reject_max_positions() {
    let rm = RiskManager::new(test_config());
    let result = rm.validate_signal(d("10000"), 3, 10);
    assert!(result.is_err());
}

#[test]
fn risk_manager_exact_sizing_and_messages() {
    let rm = RiskManager::new(test_config());
    let ok = rm.validate_signal(d("10000"), 1, 50).unwrap();
    assert_eq!(ok.quantity, d("10000"));
    assert_eq!(ok.leverage, 20);
    assert_eq!(ok.max_loss, d("100"));
    match rm.validate_signal(d("50"), 0, 10) {
        Err(BangidaError::RiskCheck(t)) => assert_eq!(t, "equity 50 below minimum 100.0"),
        other => panic!("unexpected {:?}", other),
    }
    match rm.validate_signal(d("10000"), 3, 10) {
        Err(BangidaError::RiskCheck(t)) => assert_eq!(t, "max open positions reached: 3/3"),
        other => panic!("unexpected {:?}", other),
    }
    let mut cfg = test_config();
    cfg.max_risk_per_trade_pct = d("0");
    match RiskManager::new(cfg).validate_signal(d("10000"), 0, 10) {
        Err(BangidaError::RiskCheck(t)) => assert_eq!(t, "max_risk_per_trade_pct must be positive"),
        other => panic!("unexpected {:?}", other),
    }
    let mut cfg = test_config();
    cfg.min_equity = d("0");
    match RiskManager::new(cfg).validate_signal(d("0"), 0, 10) {
        Err(BangidaError::RiskCheck(t)) => assert_eq!(t, "computed position size is zero"),
        other => panic!("unexpected {:?}", other),
    }
}
