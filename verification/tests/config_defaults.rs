use bangida::common::config::default_max_leverage;
use bangida::scalper::config::{
    default_leverage, default_log_level, default_max_open_positions, default_symbols, ExchangesConfig,
    ExecutionConfig, LoggingConfig, TradingConfig,
};

#[test]
fn scalper_defaults() {
    assert_eq!(default_symbols(), vec!["BTCUSDT".to_string(), "ETHUSDT".to_string()]);
    assert_eq!(default_leverage(), 10);
    assert_eq!(default_max_open_positions(), 1);
    assert_eq!(default_log_level(), "info");
    assert_eq!(default_max_leverage(), 20);
    let t = TradingConfig::default();
    assert_eq!(t.max_leverage, 10);
    let e = ExecutionConfig::default();
    assert!(e.post_only);
    assert_eq!(e.max_slippage_bps, 5);
    let l = LoggingConfig::default();
    assert_eq!(l.file_path, "logs/bangida_bot.log");
    assert_eq!(l.performance_summary_interval, 60);
    assert_eq!(l.max_file_size_mb, 10);
    assert!(ExchangesConfig::default().binance.is_none());
}
