use bangida::common::types::{OrderResponse, OrderStatus, OrderType, Side, Symbol, TimeInForce};
use bangida::decimal::{parse_decimal, Dec};
use bangida::execution::executor::{plan_order, sent_order, Urgency};

fn d(s: &str) -> Dec {
    parse_decimal(s).unwrap()
}

#[test]
fn executor_plans_prices() {
    let sym = Symbol::new("BTCUSDT");
    let passive = plan_order(Urgency::Passive, &sym, Side::Buy, d("1"), None, d("100"), d("101"), d("0.1"));
    assert_eq!(passive.price, Some(d("100")));
    assert_eq!(passive.order_type, OrderType::Limit);
    assert_eq!(passive.time_in_force, TimeInForce::PostOnly);
    let aggressive = plan_order(Urgency::Aggressive, &sym, Side::Sell, d("1"), None, d("100"), d("101"), d("0.1"));
    assert_eq!(aggressive.price, Some(d("99.9")));
    assert_eq!(aggressive.order_type, OrderType::Limit);
    assert_eq!(aggressive.time_in_force, TimeInForce::PostOnly);
    let aggressive_buy = plan_order(Urgency::Aggressive, &sym, Side::Buy, d("1"), None, d("100"), d("101"), d("0.1"));
    assert_eq!(aggressive_buy.price, Some(d("101.1")));
    assert_eq!(aggressive_buy.time_in_force, TimeInForce::PostOnly);
    let stop = plan_order(Urgency::StopLoss, &sym, Side::Sell, d("1"), Some(d("95")), d("100"), d("101"), d("0.1"));
    assert_eq!(stop.order_type, OrderType::Market);
    assert_eq!(stop.time_in_force, TimeInForce::Ioc);
    assert_eq!(stop.price, None);
    assert_eq!(stop.stop_price, Some(d("95")));
    let resp = OrderResponse {
        order_id: "x1".to_string(),
        client_order_id: String::new(),
        symbol: sym.clone(),
        side: Side::Sell,
        order_type: OrderType::Market,
        quantity: d("1"),
        price: None,
        status: OrderStatus::New,
        timestamp_ms: 8,
    };
    let m = sent_order(&stop, &resp);
    assert_eq!(m.order_id, "x1");
    assert_eq!(m.created_at, 8);
    assert_eq!(m.fill_quantity, Dec::zero());
}
