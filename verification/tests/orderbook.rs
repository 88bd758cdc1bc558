use bangida::data::orderbook::OrderBook;
use bangida::decimal::{parse_decimal, Dec};

fn d(s: &str) -> Dec {
    parse_decimal(s).unwrap()
}

#[test]
fn snapshot_and_best() {
    let mut ob = OrderBook::new();
    ob.apply_snapshot(&[(d("100"), d("1")), (d("99"), d("2"))], &[(d("101"), d("1.5")), (d("102"), d("3"))]);
    assert_eq!(ob.best_bid(), Some((d("100"), d("1"))));
    assert_eq!(ob.best_ask(), Some((d("101"), d("1.5"))));
    assert_eq!(ob.spread(), Some(d("1")));
}

#[test]
fn update_removes_zero_qty() {
    let mut ob = OrderBook::new();
    ob.apply_snapshot(&[(d("100"), d("1"))], &[(d("101"), d("1"))]);
    ob.apply_update(&[(d("100"), d("0"))], &[]);
    assert_eq!(ob.best_bid(), None);
}

#[test]
fn microprice_calculation() {
    let mut ob = OrderBook::new();
    ob.apply_snapshot(&[(d("100"), d("2"))], &[(d("102"), d("3"))]);
    assert_eq!(ob.microprice(), Some(d("100.8")));
}

#[test]
fn orderbook_mid_and_depth() {
    let mut ob = OrderBook::new();
    ob.apply_snapshot(&[(d("99"), d("2")), (d("100"), d("1"))], &[(d("102"), d("3")), (d("101"), d("1.5"))]);
    assert_eq!(ob.best_bid(), Some((d("100"), d("1"))));
    assert_eq!(ob.best_ask(), Some((d("101"), d("1.5"))));
    assert_eq!(ob.mid_price(), Some(d("100.5")));
    assert_eq!(ob.bid_depth(1), d("1"));
    assert_eq!(ob.bid_depth(5), d("3"));
    assert_eq!(ob.ask_depth(2), d("4.5"));
    ob.apply_update(&[(d("100.5"), d("4"))], &[(d("101"), d("0"))]);
    assert_eq!(ob.best_bid(), Some((d("100.5"), d("4"))));
    assert_eq!(ob.best_ask(), Some((d("102"), d("3"))));
}

#[test]
fn orderbook_empty_side() {
    let ob = OrderBook::new();
    assert_eq!(ob.best_bid(), None);
    assert_eq!(ob.spread(), None);
    assert_eq!(ob.mid_price(), None);
    assert_eq!(ob.microprice(), None);
}

#[test]
fn orderbook_depth_imbalance() {
    let mut ob = OrderBook::new();
    assert_eq!(ob.depth_imbalance(5), None);
    ob.apply_snapshot(&[(d("100"), d("3")), (d("99"), d("1"))], &[(d("101"), d("1"))]);
    // top level: bids 3, asks 1 -> (2, 4), an imbalance of 0.5
    assert_eq!(ob.depth_imbalance(1), Some((d("2"), d("4"))));
    assert_eq!(ob.depth_imbalance(5), Some((d("3"), d("5"))));
}

#[test]
fn orderbook_checked_microprice() {
    let mut ob = OrderBook::new();
    assert_eq!(ob.checked_microprice(), Some(None));
    ob.apply_snapshot(&[(d("100"), d("2"))], &[(d("102"), d("3"))]);
    assert_eq!(ob.checked_microprice(), Some(Some(d("100.8"))));
    ob.apply_snapshot(&[(d("100"), d("0"))], &[(d("102"), d("0"))]);
    assert_eq!(ob.checked_microprice(), Some(None));
    // a price times a quantity beyond the largest decimal
    ob.apply_snapshot(
        &[(d("100000000000000000000"), d("100000000000000000000"))],
        &[(d("100000000000000000001"), d("1"))],
    );
    assert_eq!(ob.checked_microprice(), None);
}
