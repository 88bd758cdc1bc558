use bangida::common::types::{MarketEvent, OrderStatus, OrderType, Side, Symbol};
use bangida::decimal::{parse_decimal, Dec};
use bangida::exchange::binance::events::{
    agg_trade_event, build_stream_url, depth_event, kline_event, mark_price_event, stream_kind,
    user_data_events, StreamKind,
};
use bangida::exchange::binance::models::{
    BinanceAggTrade, BinanceKline, BinanceKlineEvent, BinanceMarkPrice, DepthUpdate, UserDataAccount,
    UserDataBalance, UserDataEvent, UserDataOrder, UserDataPosition,
};

fn d(s: &str) -> Dec {
    parse_decimal(s).unwrap()
}

fn level(p: &str, q: &str) -> [String; 2] {
    [p.to_string(), q.to_string()]
}

#[test]
fn stream_kinds() {
    assert_eq!(stream_kind("btcusdt@depth@100ms"), StreamKind::Depth);
    assert_eq!(stream_kind("btcusdt@aggTrade"), StreamKind::AggTrade);
    assert_eq!(stream_kind("btcusdt@kline_1m"), StreamKind::Kline);
    assert_eq!(stream_kind("btcusdt@markPrice@1s"), StreamKind::MarkPrice);
    assert_eq!(stream_kind("someListenKey"), StreamKind::UserData);
}

#[test]
fn stream_url_lists_streams() {
    let url = build_stream_url("wss://fstream.binance.com", &[Symbol::new("BTCUSDT")], Some("lk"));
    assert_eq!(
        url,
        "wss://fstream.binance.com/stream?streams=btcusdt@depth@100ms/btcusdt@aggTrade/btcusdt@kline_1m/btcusdt@markPrice@1s/lk"
    );
    assert_eq!(build_stream_url("wss://x", &[], None), "wss://x/stream?streams=");
}

#[test]
fn depth_skips_unreadable_levels() {
    let depth = DepthUpdate {
        event_type: "depthUpdate".to_string(),
        event_time: 1,
        transaction_time: 2,
        symbol: "BTCUSDT".to_string(),
        first_update_id: 1,
        final_update_id: 2,
        prev_final_update_id: 0,
        bids: vec![level("100.5", "1"), level("bad", "1")],
        asks: vec![level("101", "0")],
    };
    match depth_event(&depth) {
        MarketEvent::OrderBookUpdate { symbol, bids, asks, timestamp_ms, .. } => {
            assert_eq!(symbol.as_str(), "BTCUSDT");
            assert_eq!(bids, vec![(d("100.5"), d("1"))]);
            assert_eq!(asks, vec![(d("101"), d("0"))]);
            assert_eq!(timestamp_ms, 2);
        }
        other => panic!("unexpected {:?}", other),
    }
}

#[test]
fn agg_trade_and_kline_events() {
    let t = BinanceAggTrade {
        event_type: "aggTrade".to_string(),
        event_time: 1,
        symbol: "ETHUSDT".to_string(),
        agg_trade_id: 7,
        price: "2000.5".to_string(),
        quantity: "0.3".to_string(),
        first_trade_id: 1,
        last_trade_id: 2,
        trade_time: 99,
        is_buyer_maker: true,
    };
    match agg_trade_event(&t) {
        Some(MarketEvent::Trade(a)) => {
            assert_eq!(a.price, d("2000.5"));
            assert_eq!(a.quantity, d("0.3"));
            assert_eq!(a.timestamp_ms, 99);
            assert!(a.is_buyer_maker);
        }
        other => panic!("unexpected {:?}", other),
    }
    let mut bad = t.clone();
    bad.price = "x".to_string();
    assert!(agg_trade_event(&bad).is_none());

    let kline = BinanceKline {
        open_time: 0,
        close_time: 59_999,
        symbol: "ETHUSDT".to_string(),
        interval: "1m".to_string(),
        open: "1".to_string(),
        close: "2".to_string(),
        high: "3".to_string(),
        low: "oops".to_string(),
        volume: "4".to_string(),
        is_closed: false,
    };
    let mut ev = BinanceKlineEvent { event_type: "kline".to_string(), event_time: 0, symbol: "ETHUSDT".to_string(), kline };
    assert!(kline_event(&ev).is_none());
    ev.kline.is_closed = true;
    match kline_event(&ev) {
        Some(MarketEvent::KlineClose(k)) => {
            assert_eq!(k.high, d("3"));
            assert_eq!(k.low, Dec::zero());
            assert_eq!(k.close_time_ms, 59_999);
        }
        other => panic!("unexpected {:?}", other),
    }
    let mp = BinanceMarkPrice {
        event_type: "markPriceUpdate".to_string(),
        event_time: 0,
        symbol: "BTCUSDT".to_string(),
        mark_price: "50000.1".to_string(),
        funding_rate: "0.0001".to_string(),
        next_funding_time: 123,
    };
    match mark_price_event(&mp) {
        MarketEvent::MarkPrice { mark_price, funding_rate, next_funding_time_ms, .. } => {
            assert_eq!(mark_price, d("50000.1"));
            assert_eq!(funding_rate, d("0.0001"));
            assert_eq!(next_funding_time_ms, 123);
        }
        other => panic!("unexpected {:?}", other),
    }
}

#[test]
fn user_data_order_update() {
    let ev = UserDataEvent {
        event_type: "ORDER_TRADE_UPDATE".to_string(),
        event_time: 5,
        order: Some(UserDataOrder {
            symbol: "BTCUSDT".to_string(),
            client_order_id: "c1".to_string(),
            side: "SELL".to_string(),
            order_type: "STOP_MARKET".to_string(),
            original_quantity: "0.5".to_string(),
            original_price: "0".to_string(),
            order_status: "PARTIALLY_FILLED".to_string(),
            order_id: 42,
            order_trade_time: 77,
        }),
        account: None,
    };
    let events = user_data_events(&ev);
    assert_eq!(events.len(), 1);
    match &events[0] {
        MarketEvent::OrderUpdate(r) => {
            assert_eq!(r.order_id, "42");
            assert_eq!(r.side, Side::Sell);
            assert_eq!(r.order_type, OrderType::StopMarket);
            assert_eq!(r.status, OrderStatus::PartiallyFilled);
            assert_eq!(r.price, None);
            assert_eq!(r.quantity, d("0.5"));
        }
        other => panic!("unexpected {:?}", other),
    }
}

#[test]
fn user_data_account_update() {
    let ev = UserDataEvent {
        event_type: "ACCOUNT_UPDATE".to_string(),
        event_time: 5,
        order: None,
        account: Some(UserDataAccount {
            balances: vec![
                UserDataBalance { asset: "BNB".to_string(), wallet_balance: "1".to_string(), cross_wallet_balance: "1".to_string() },
                UserDataBalance { asset: "USDT".to_string(), wallet_balance: "1000".to_string(), cross_wallet_balance: "800".to_string() },
            ],
            positions: vec![
                UserDataPosition { symbol: "BTCUSDT".to_string(), position_amount: "-0.2".to_string(), entry_price: "50000".to_string(), unrealized_pnl: "5".to_string(), position_side: "BOTH".to_string() },
                UserDataPosition { symbol: "ETHUSDT".to_string(), position_amount: "0".to_string(), entry_price: "0".to_string(), unrealized_pnl: "0".to_string(), position_side: "BOTH".to_string() },
            ],
        }),
    };
    let events = user_data_events(&ev);
    assert_eq!(events.len(), 2);
    match &events[0] {
        MarketEvent::PositionUpdate(p) => {
            assert_eq!(p.side, Side::Sell);
            assert_eq!(p.quantity, d("0.2"));
            assert_eq!(p.entry_price, d("50000"));
        }
        other => panic!("unexpected {:?}", other),
    }
    match &events[1] {
        MarketEvent::BalanceUpdate(b) => {
            assert_eq!(b.total_balance, d("1000"));
            assert_eq!(b.available_balance, d("800"));
            assert_eq!(b.margin_used, d("200"));
        }
        other => panic!("unexpected {:?}", other),
    }
    let other = UserDataEvent { event_type: "listenKeyExpired".to_string(), event_time: 0, order: None, account: None };
    assert!(user_data_events(&other).is_empty());
}
