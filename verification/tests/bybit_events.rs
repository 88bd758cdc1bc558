use bangida::common::types::MarketEvent;
use bangida::decimal::{parse_decimal, Dec};
use bangida::exchange::bybit::events::{
    kline_events, orderbook_event, route_message, subscribe_topics, ticker_event, trade_events,
    MessageRoute,
};
use bangida::common::types::Symbol;
use bangida::exchange::bybit::models::{KlineData, OrderBookSnapshot, PublicTrade, TickerData};

fn d(s: &str) -> Dec {
    parse_decimal(s).unwrap()
}

#[test]
fn bybit_routes() {
    assert_eq!(route_message(Some("pong"), None, false), MessageRoute::Ignore);
    assert_eq!(route_message(None, Some("orderbook.50.BTCUSDT"), true), MessageRoute::OrderBook);
    assert_eq!(route_message(None, Some("publicTrade.BTCUSDT"), true), MessageRoute::PublicTrade);
    assert_eq!(route_message(None, Some("kline.1.BTCUSDT"), true), MessageRoute::Kline);
    assert_eq!(route_message(None, Some("tickers.BTCUSDT"), true), MessageRoute::Ticker);
    assert_eq!(route_message(None, Some("liquidation.BTCUSDT"), true), MessageRoute::Unknown);
    assert_eq!(route_message(None, Some("tickers.BTCUSDT"), false), MessageRoute::Ignore);
}

#[test]
fn bybit_orderbook_and_trades() {
    let ob = OrderBookSnapshot {
        s: "BTCUSDT".to_string(),
        b: vec![["100".to_string(), "2".to_string()]],
        a: vec![["101".to_string(), "x".to_string()]],
        u: 1,
        seq: None,
    };
    match orderbook_event(&ob, 55) {
        MarketEvent::OrderBookUpdate { bids, asks, timestamp_ms, .. } => {
            assert_eq!(bids, vec![(d("100"), d("2"))]);
            assert!(asks.is_empty());
            assert_eq!(timestamp_ms, 55);
        }
        other => panic!("unexpected {:?}", other),
    }
    let trade = |p: &str, side: &str| PublicTrade {
        i: "1".to_string(),
        timestamp: 9,
        p: p.to_string(),
        v: "0.1".to_string(),
        side: side.to_string(),
        s: "BTCUSDT".to_string(),
        is_block_trade: None,
    };
    let events = trade_events(&vec![trade("100", "Sell"), trade("bad", "Buy"), trade("101", "Buy")]);
    assert_eq!(events.len(), 2);
    match (&events[0], &events[1]) {
        (MarketEvent::Trade(a), MarketEvent::Trade(b)) => {
            assert!(a.is_buyer_maker);
            assert!(!b.is_buyer_maker);
            assert_eq!(b.price, d("101"));
        }
        other => panic!("unexpected {:?}", other),
    }
}

#[test]
fn bybit_klines_and_ticker() {
    let k = |confirm: bool| KlineData {
        start: 0,
        end: 59_999,
        interval: "1".to_string(),
        open: "1".to_string(),
        close: "2".to_string(),
        high: "3".to_string(),
        low: "0.5".to_string(),
        volume: "10".to_string(),
        turnover: "20".to_string(),
        confirm,
        timestamp: 1,
    };
    let events = kline_events("kline.1.ETHUSDT", &vec![k(false), k(true)]);
    assert_eq!(events.len(), 1);
    match &events[0] {
        MarketEvent::KlineClose(c) => {
            assert_eq!(c.symbol.as_str(), "ETHUSDT");
            assert_eq!(c.low, d("0.5"));
        }
        other => panic!("unexpected {:?}", other),
    }
    let mut t = TickerData {
        symbol: "BTCUSDT".to_string(),
        mark_price: Some("50000".to_string()),
        funding_rate: None,
        next_funding_time: Some("1700000000000".to_string()),
    };
    match ticker_event(&t) {
        Some(MarketEvent::MarkPrice { mark_price, funding_rate, next_funding_time_ms, .. }) => {
            assert_eq!(mark_price, d("50000"));
            assert_eq!(funding_rate, Dec::zero());
            assert_eq!(next_funding_time_ms, 1_700_000_000_000);
        }
        other => panic!("unexpected {:?}", other),
    }
    t.mark_price = None;
    assert!(ticker_event(&t).is_none());
}

#[test]
fn bybit_subscribe_topics() {
    let topics = subscribe_topics(&[Symbol::new("BTCUSDT"), Symbol::new("ETHUSDT")]);
    assert_eq!(
        topics,
        vec![
            "orderbook.50.BTCUSDT",
            "publicTrade.BTCUSDT",
            "kline.1.BTCUSDT",
            "tickers.BTCUSDT",
            "orderbook.50.ETHUSDT",
            "publicTrade.ETHUSDT",
            "kline.1.ETHUSDT",
            "tickers.ETHUSDT",
        ]
    );
    assert!(subscribe_topics(&[]).is_empty());
}

#[test]
fn bybit_ticker_funding_time_text() {
    let mut t = TickerData {
        symbol: "BTCUSDT".to_string(),
        mark_price: Some("1".to_string()),
        funding_rate: None,
        next_funding_time: Some("+42".to_string()),
    };
    for (text, expected) in [("+42", 42u64), ("18446744073709551616", 0), ("1e3", 0), ("-1", 0)] {
        t.next_funding_time = Some(text.to_string());
        match ticker_event(&t) {
            Some(MarketEvent::MarkPrice { next_funding_time_ms, .. }) => assert_eq!(next_funding_time_ms, expected),
            other => panic!("unexpected {:?}", other),
        }
    }
}
