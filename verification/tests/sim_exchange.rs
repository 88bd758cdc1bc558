use bangida::backtest::sim_exchange::SimulatedExchange;
use bangida::common::types::{OrderRequest, OrderStatus, OrderType, Side, Symbol, TimeInForce};
use bangida::decimal::{parse_decimal, Dec};

fn d(s: &str) -> Dec {
    parse_decimal(s).unwrap()
}

fn request(side: Side, order_type: OrderType, qty: &str, price: Option<&str>, stop: Option<&str>) -> OrderRequest {
    OrderRequest {
        symbol: Symbol::new("BTCUSDT"),
        side,
        order_type,
        quantity: d(qty),
        price: price.map(d),
        stop_price: stop.map(d),
        time_in_force: TimeInForce::Gtc,
        reduce_only: false,
    }
}

#[test]
fn test_market_order_buy() {
    let mut exchange = SimulatedExchange::new(d("10000"), d("0.0004"));
    exchange.update_price(d("50000"));
    let mut req = request(Side::Buy, OrderType::Market, "0.1", None, None);
    req.time_in_force = TimeInForce::Ioc;
    let resp = exchange.place_order(req, d("50000"));
    assert_eq!(resp.status, OrderStatus::Filled);
    assert!(exchange.balance().lt(&d("10000")));
    assert_eq!(exchange.open_position_count(), 1);
}

#[test]
fn test_limit_order_queued() {
    let mut exchange = SimulatedExchange::new(d("10000"), d("0.0004"));
    exchange.update_price(d("50000"));
    let req = request(Side::Buy, OrderType::Limit, "0.1", Some("49900"), None);
    let resp = exchange.place_order(req, d("50000"));
    assert_eq!(resp.status, OrderStatus::New);
}

#[test]
fn test_limit_order_fills_on_cross() {
    let mut exchange = SimulatedExchange::new(d("10000"), d("0.0004"));
    exchange.update_price(d("50000"));
    let req = request(Side::Buy, OrderType::Limit, "0.1", Some("49900"), None);
    exchange.place_order(req, d("50000"));
    let fills = exchange.check_fills(d("49900"));
    assert!(fills.is_empty());
    let fills = exchange.check_fills(d("49800"));
    assert_eq!(fills.len(), 1);
}

#[test]
fn sim_market_buy_exact_cash() {
    let mut exchange = SimulatedExchange::new(d("10000"), d("0.0004"));
    let resp = exchange.place_order_at(request(Side::Buy, OrderType::Market, "0.1", None, None), d("50000"), 7);
    // fill 50000.1, notional 5000.01, fee 2.000004
    assert_eq!(resp.price, Some(d("50000.1")));
    assert_eq!(resp.order_id, "sim_1");
    assert_eq!(resp.timestamp_ms, 7);
    assert_eq!(exchange.balance(), d("4997.989996"));
    let second = exchange.place_order_at(request(Side::Sell, OrderType::Market, "0.1", None, None), d("50010"), 8);
    assert_eq!(second.order_id, "sim_2");
    assert_eq!(second.price, Some(d("50009.9")));
    // the sell closes the whole long position
    assert_eq!(exchange.open_position_count(), 0);
}

#[test]
fn sim_limit_sell_pnl_against_long() {
    let mut exchange = SimulatedExchange::new(d("10000"), d("0"));
    exchange.set_slippage(d("0"));
    exchange.place_order_at(request(Side::Buy, OrderType::Market, "1", None, None), d("100"), 0);
    exchange.place_order_at(request(Side::Sell, OrderType::Limit, "1", Some("110"), None), d("100"), 0);
    assert!(exchange.check_fills(d("110")).is_empty());
    let fills = exchange.check_fills(d("111"));
    assert_eq!(fills, vec![(d("10"), d("0"))]);
    assert_eq!(exchange.balance(), d("10010"));
    assert_eq!(exchange.open_position_count(), 0);
}

#[test]
fn sim_stop_and_take_profit_triggers() {
    let mut exchange = SimulatedExchange::new(d("1000"), d("0"));
    exchange.set_slippage(d("0"));
    let stop = exchange.place_order_at(request(Side::Sell, OrderType::StopMarket, "1", None, Some("95")), d("100"), 0);
    assert_eq!(stop.price, None);
    assert_eq!(stop.status, OrderStatus::New);
    exchange.place_order_at(request(Side::Buy, OrderType::TakeProfitMarket, "1", None, Some("90")), d("100"), 0);
    assert!(exchange.check_fills(d("95")).is_empty());
    assert_eq!(exchange.check_fills(d("94")).len(), 1);
    assert_eq!(exchange.check_fills(d("89")).len(), 1);
    assert!(exchange.check_fills(d("50")).is_empty());
    exchange.update_price(d("42"));
    assert_eq!(exchange.current_price(), d("42"));
}

#[test]
fn sim_try_place_order_refuses_out_of_range_fills() {
    let mut exchange = SimulatedExchange::new(d("10000"), d("0.0004"));
    let ok = exchange.try_place_order(request(Side::Buy, OrderType::Market, "0.1", None, None), d("50000"));
    assert_eq!(ok.map(|r| r.price), Some(Some(d("50000.1"))));
    assert_eq!(exchange.balance(), d("4997.989996"));
    let huge = request(Side::Buy, OrderType::Market, "100000000000000000000", None, None);
    assert!(exchange.placement_fits(&request(Side::Buy, OrderType::Limit, "1", Some("1"), None), d("1")));
    assert!(!exchange.placement_fits(&huge, d("100000000000000000000")));
    assert!(exchange.try_place_order(huge, d("100000000000000000000")).is_none());
    assert_eq!(exchange.balance(), d("4997.989996"));
    assert_eq!(exchange.open_position_count(), 1);
}

#[test]
fn sim_try_check_fills_refuses_out_of_range_fills() {
    let mut exchange = SimulatedExchange::new(d("10000"), d("0.0004"));
    exchange.place_order(request(Side::Buy, OrderType::Limit, "0.1", Some("49000"), None), d("50000"));
    assert!(exchange.fills_fit_at(d("48000")));
    let fills = exchange.try_check_fills(d("48000")).unwrap();
    assert_eq!(fills.len(), 1);
    assert_eq!(exchange.open_position_count(), 1);
    exchange.place_order(
        request(Side::Buy, OrderType::Limit, "100000000000000000000", Some("100000000000000000000"), None),
        d("50000"),
    );
    assert!(!exchange.fills_fit_at(d("1")));
    assert!(exchange.try_check_fills(d("1")).is_none());
    assert_eq!(exchange.open_position_count(), 1);
    assert_eq!(exchange.try_check_fills(d("200000000000000000000")).map(|v| v.len()), Some(0));
}
