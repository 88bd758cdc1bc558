use bangida::backtest::engine::{BacktestCore, SignalOutcome};
use bangida::common::types::{
    AggTrade, Exchange, Kline, MarketEvent, OrderStatus, OrderType, Side, Symbol,
};
use bangida::decimal::{parse_decimal, Dec};
use bangida::risk::circuit_breaker::BreakerHalt;
use bangida::risk::limits::RiskLimits;

fn d(s: &str) -> Dec {
    parse_decimal(s).unwrap()
}

fn limits() -> RiskLimits {
    RiskLimits {
        max_risk_per_trade_pct: d("0.01"),
        max_daily_loss_pct: d("0.05"),
        max_drawdown_pct: d("0.10"),
        max_consecutive_losses: 5,
        cooldown_minutes: 15,
        min_equity: d("100"),
        max_open_positions: 3,
        max_trades_per_hour: 60,
        max_leverage: 20,
    }
}

fn book(bids: &[(&str, &str)], asks: &[(&str, &str)], ts: u64) -> MarketEvent {
    MarketEvent::OrderBookUpdate {
        exchange: Exchange::Binance,
        symbol: Symbol::new("BTCUSDT"),
        bids: bids.iter().map(|(p, q)| (d(p), d(q))).collect(),
        asks: asks.iter().map(|(p, q)| (d(p), d(q))).collect(),
        timestamp_ms: ts,
    }
}

fn trade(price: &str, ts: u64) -> MarketEvent {
    MarketEvent::Trade(AggTrade {
        symbol: Symbol::new("BTCUSDT"),
        price: d(price),
        quantity: d("1"),
        timestamp_ms: ts,
        is_buyer_maker: false,
    })
}

#[test]
fn core_book_update_summarises_and_prices() {
    let mut core = BacktestCore::new(limits(), d("10000"), d("0.0004"));
    let s = core
        .on_event_at(&book(&[("100", "2"), ("99", "1")], &[("101", "1")], 5), 1)
        .unwrap();
    assert_eq!(s.symbol.as_str(), "BTCUSDT");
    assert_eq!(s.mid, d("100.5"));
    assert_eq!(s.spread, d("1"));
    assert_eq!(s.bid_depth, d("3"));
    assert_eq!(s.ask_depth, d("1"));
    assert_eq!(s.imbalance, d("0.5"));
    assert_eq!(s.timestamp_ms, 5);
    assert_eq!(core.exchange().current_price(), d("100.5"));
    assert_eq!(core.timestamp_ms(), 5);
}

#[test]
fn core_one_sided_book_has_no_summary() {
    let mut core = BacktestCore::new(limits(), d("10000"), d("0.0004"));
    assert!(core.on_event_at(&book(&[("100", "2")], &[], 9), 1).is_none());
    assert_eq!(core.timestamp_ms(), 9);
    assert_eq!(core.exchange().current_price(), d("0"));
}

#[test]
fn core_balanced_zero_depth_has_zero_imbalance() {
    let mut core = BacktestCore::new(limits(), d("10000"), d("0.0004"));
    let s = core.on_event_at(&book(&[("100", "0")], &[("102", "0")], 1), 1).unwrap();
    assert_eq!(s.imbalance, d("0"));
    assert_eq!(s.mid, d("101"));
}

#[test]
fn core_signal_places_limit_and_trade_fills_it() {
    let mut core = BacktestCore::new(limits(), d("10000"), d("0.0004"));
    core.on_event_at(&book(&[("100", "2")], &[("101", "1")], 5), 1);
    let out = core.on_signal_at(Symbol::new("BTCUSDT"), Side::Buy, Some(d("99")), 10);
    match out {
        SignalOutcome::Placed(resp) => {
            assert_eq!(resp.order_id, "sim_1");
            assert_eq!(resp.order_type, OrderType::Limit);
            assert_eq!(resp.status, OrderStatus::New);
            assert_eq!(resp.price, Some(d("100.5")));
            // fixed-fractional with risk = stop distance = 1 %: the whole equity
            assert_eq!(resp.quantity, d("10000"));
            assert_eq!(resp.timestamp_ms, 10);
        }
        _ => panic!("signal should be placed"),
    }
    // a trade below the limit fills the buy at its limit price
    assert!(core.on_event_at(&trade("100", 20), 21).is_none());
    assert_eq!(core.trades().len(), 1);
    let t = &core.trades()[0];
    assert_eq!(t.side, Side::Sell);
    assert_eq!(t.exit_price, d("100"));
    assert_eq!(t.pnl, d("0"));
    // fee: 10000 * 100.5 * 0.0004
    assert_eq!(t.fees, d("402"));
    assert_eq!(t.exit_time_ms, 20);
    assert_eq!(core.pnl_tracker().total_trades(), 1);
    assert_eq!(core.pnl_tracker().total_fees(), d("402"));
    assert_eq!(core.exchange().open_position_count(), 1);
    assert_eq!(core.timestamp_ms(), 20);
}

#[test]
fn core_trade_touching_limit_does_not_fill() {
    let mut core = BacktestCore::new(limits(), d("10000"), d("0.0004"));
    core.on_event_at(&book(&[("100", "2")], &[("101", "1")], 5), 1);
    core.on_signal_at(Symbol::new("BTCUSDT"), Side::Buy, None, 10);
    core.on_event_at(&trade("100.5", 20), 21);
    assert_eq!(core.trades().len(), 0);
    assert_eq!(core.pnl_tracker().total_trades(), 0);
}

#[test]
fn core_halted_breaker_drops_signal() {
    let mut lim = limits();
    lim.max_trades_per_hour = 0;
    let mut core = BacktestCore::new(lim, d("10000"), d("0.0004"));
    match core.on_signal_at(Symbol::new("BTCUSDT"), Side::Sell, None, 10) {
        SignalOutcome::Halted(BreakerHalt::TradeRate { trades, max_trades }) => {
            assert_eq!(trades, 0);
            assert_eq!(max_trades, 0);
        }
        _ => panic!("the breaker should halt"),
    }
    assert_eq!(core.exchange().open_position_count(), 0);
}

#[test]
fn core_rejected_signal_places_nothing() {
    let mut lim = limits();
    lim.max_open_positions = 0;
    let mut core = BacktestCore::new(lim, d("10000"), d("0.0004"));
    match core.on_signal_at(Symbol::new("BTCUSDT"), Side::Buy, None, 10) {
        SignalOutcome::Rejected(e) => {
            assert_eq!(e.message(), "Risk check failed: max open positions reached: 0/0")
        }
        _ => panic!("the risk manager should refuse"),
    }
}

#[test]
fn core_kline_close_sets_price_and_clock() {
    let mut core = BacktestCore::new(limits(), d("10000"), d("0.0004"));
    let k = Kline {
        symbol: Symbol::new("BTCUSDT"),
        open: d("1"),
        high: d("3"),
        low: d("1"),
        close: d("2.5"),
        volume: d("10"),
        open_time_ms: 0,
        close_time_ms: 60_000,
    };
    assert!(core.on_event_at(&MarketEvent::KlineClose(k), 1).is_none());
    assert_eq!(core.exchange().current_price(), d("2.5"));
    assert_eq!(core.timestamp_ms(), 60_000);
}

#[test]
fn test_empty_backtest() {
    let core = BacktestCore::new(limits(), d("10000"), d("0.0004"));
    assert_eq!(core.pnl_tracker().total_trades(), 0);
    assert_eq!(core.pnl_tracker().total_pnl(), d("0"));
    assert_eq!(core.pnl_tracker().current_equity(), d("10000"));
    assert!(core.trades().is_empty());
}

#[test]
fn core_try_on_event_checks_the_range() {
    let mut core = BacktestCore::new(limits(), d("10000"), d("0.0004"));
    let ev = book(&[("100", "2")], &[("101", "1")], 5);
    assert!(core.event_fits_at(&ev, 1));
    let s = core.try_on_event_at(&ev, 1).unwrap().unwrap();
    assert_eq!(s.mid, d("100.5"));
    // depths whose sum leaves the range of decimals
    let big = "70000000000000000000000000000";
    let bad = book(&[("100", big), ("99", big)], &[("101", "1")], 6);
    assert!(!core.event_fits_at(&bad, 1));
    assert!(core.try_on_event_at(&bad, 1).is_none());
    assert_eq!(core.timestamp_ms(), 5);
    assert_eq!(core.exchange().current_price(), d("100.5"));
    // a trade with nothing waiting fits
    assert_eq!(core.try_on_event(&trade("100", 7)).map(|a| a.is_none()), Some(true));
    assert_eq!(core.timestamp_ms(), 7);
}
