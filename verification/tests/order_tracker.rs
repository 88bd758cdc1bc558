use bangida::common::types::{OrderResponse, OrderStatus, OrderType, Side, Symbol};
use bangida::decimal::{parse_decimal, Dec};
use bangida::execution::order_tracker::OrderTracker;

fn d(s: &str) -> Dec {
    parse_decimal(s).unwrap()
}

fn make_response(id: &str, status: OrderStatus) -> OrderResponse {
    OrderResponse {
        order_id: id.to_string(),
        client_order_id: format!("client_{}", id),
        symbol: Symbol::new("BTCUSDT"),
        side: Side::Buy,
        order_type: OrderType::Limit,
        quantity: d("0.1"),
        price: Some(d("50000")),
        status,
        timestamp_ms: 1000,
    }
}

#[test]
fn test_track_new_order() {
    let mut tracker = OrderTracker::new();
    tracker.on_order_update(make_response("ord1", OrderStatus::New));
    assert_eq!(tracker.len(), 1);
    assert_eq!(tracker.open_orders().len(), 1);
}

#[test]
fn test_order_filled() {
    let mut tracker = OrderTracker::new();
    tracker.on_order_update(make_response("ord1", OrderStatus::New));
    tracker.on_order_update(make_response("ord1", OrderStatus::Filled));
    assert_eq!(tracker.open_orders().len(), 0);
    let order = tracker.get("ord1").unwrap();
    assert_eq!(order.status, OrderStatus::Filled);
}

#[test]
fn test_stale_orders_empty_when_recent() {
    let mut tracker = OrderTracker::new();
    let mut r = make_response("ord1", OrderStatus::New);
    r.client_order_id = "c1".to_string();
    r.timestamp_ms = bangida::common::time::now_ms();
    tracker.on_order_update(r);
    let stale = tracker.cancel_stale_orders(60_000);
    assert!(stale.is_empty());
}

#[test]
fn tracker_averages_fills_and_prunes() {
    let mut tracker = OrderTracker::default();
    assert!(tracker.is_empty());
    tracker.on_order_update(make_response("a", OrderStatus::New));
    let mut fill = make_response("a", OrderStatus::PartiallyFilled);
    fill.quantity = d("1");
    fill.price = Some(d("100"));
    tracker.on_order_update(fill);
    let mut fill2 = make_response("a", OrderStatus::Filled);
    fill2.quantity = d("3");
    fill2.price = Some(d("200"));
    tracker.on_order_update(fill2);
    let o = tracker.get("a").unwrap();
    assert_eq!(o.fill_quantity, d("4"));
    assert_eq!(o.avg_fill_price, d("175"));
    assert!(o.is_terminal());
    assert!(!o.is_open());
    assert_eq!(tracker.stale_orders_at(10, 5_000).len(), 0);
    tracker.on_order_update(make_response("b", OrderStatus::New));
    assert_eq!(tracker.stale_orders_at(10, 5_000).len(), 1);
    tracker.prune_terminal_at(10, 5_000);
    assert_eq!(tracker.len(), 1);
    assert!(tracker.get("a").is_none());
}

#[test]
fn tracker_lists_every_open_order_once() {
    let mut tracker = OrderTracker::new();
    tracker.on_order_update(make_response("a", OrderStatus::New));
    tracker.on_order_update(make_response("b", OrderStatus::PartiallyFilled));
    tracker.on_order_update(make_response("c", OrderStatus::Canceled));
    let mut b_again = make_response("b", OrderStatus::PartiallyFilled);
    b_again.price = None;
    tracker.on_order_update(b_again);
    let mut open: Vec<String> = tracker.open_orders().into_iter().map(|o| o.order_id).collect();
    open.sort();
    assert_eq!(open, vec!["a".to_string(), "b".to_string()]);
    let mut stale: Vec<String> = tracker.stale_orders_at(500, 2_000).into_iter().map(|o| o.order_id).collect();
    stale.sort();
    assert_eq!(stale, vec!["a".to_string(), "b".to_string()]);
    assert!(tracker.stale_orders_at(5_000, 2_000).is_empty());
}

#[test]
fn tracker_try_on_order_update_checks_the_range() {
    let mut tracker = OrderTracker::new();
    assert!(tracker.try_on_order_update(make_response("a", OrderStatus::New)));
    let mut fill = make_response("a", OrderStatus::PartiallyFilled);
    fill.quantity = d("2");
    fill.price = Some(d("100"));
    assert!(tracker.update_fits_now(&fill));
    assert!(tracker.try_on_order_update(fill));
    assert_eq!(tracker.get("a").unwrap().fill_quantity, d("2"));
    let mut huge = make_response("a", OrderStatus::Filled);
    huge.quantity = d("100000000000000000000");
    huge.price = Some(d("100000000000000000000"));
    assert!(!tracker.update_fits_now(&huge));
    assert!(!tracker.try_on_order_update(huge));
    let o = tracker.get("a").unwrap();
    assert_eq!(o.fill_quantity, d("2"));
    assert_eq!(o.status, OrderStatus::PartiallyFilled);
}
