use bangida::data::storage::{day_start_ms, TradeRow};

#[test]
fn day_start_is_utc_midnight() {
    assert_eq!(day_start_ms(0), 0);
    assert_eq!(day_start_ms(86_399_999), 0);
    assert_eq!(day_start_ms(86_400_000), 86_400_000);
    assert_eq!(day_start_ms(3 * 86_400_000 + 5), 3 * 86_400_000);
}

#[test]
fn trade_row_holds_text_amounts() {
    let row = TradeRow {
        id: 1,
        timestamp_ms: 5,
        exchange: "Binance".to_string(),
        symbol: "BTCUSDT".to_string(),
        side: "BUY".to_string(),
        entry_price: "50000".to_string(),
        exit_price: None,
        quantity: "0.1".to_string(),
        leverage: 1,
        pnl: None,
        fees: None,
        strategy: "momentum".to_string(),
        hold_time_ms: None,
        status: "OPEN".to_string(),
    };
    assert_eq!(row.clone().entry_price, "50000");
}
