use bangida::common::types::{OrderRequest, OrderStatus, OrderType, Side, Symbol, TimeInForce};
use bangida::decimal::{parse_decimal, Dec};
use bangida::exchange::binance::models::{AccountResponse, PlaceOrderResponse, PositionResponse};
use bangida::exchange::binance::requests::{
    balance_from_answer, cancel_query, leverage_query, order_query, place_resp_to_order_response, position_from_answer,
};
use bangida::exchange::bybit::models::{
    BybitAccountInfo, BybitApiResponse, BybitCoinBalance, BybitPositionInfo, BybitWalletBalanceResult,
};
use bangida::exchange::bybit::requests::{
    balance_from_wallet, leverage_accepted, order_fields, parse_order_status, position_from_list, BalanceReadError,
};

fn d(s: &str) -> Dec {
    parse_decimal(s).unwrap()
}

fn limit_buy() -> OrderRequest {
    OrderRequest {
        symbol: Symbol::new("BTCUSDT"),
        side: Side::Buy,
        order_type: OrderType::Limit,
        quantity: d("0.010"),
        price: Some(d("50000.5")),
        stop_price: None,
        time_in_force: TimeInForce::PostOnly,
        reduce_only: true,
    }
}

#[test]
fn binance_queries() {
    assert_eq!(
        order_query(&limit_buy()),
        "symbol=BTCUSDT&side=BUY&type=LIMIT&quantity=0.010&price=50000.5&timeInForce=GTX&reduceOnly=true"
    );
    let mut stop = limit_buy();
    stop.order_type = OrderType::StopMarket;
    stop.side = Side::Sell;
    stop.stop_price = Some(d("49000"));
    stop.reduce_only = false;
    assert_eq!(order_query(&stop), "symbol=BTCUSDT&side=SELL&type=STOP_MARKET&quantity=0.010&stopPrice=49000");
    assert_eq!(cancel_query(&Symbol::new("ETHUSDT"), "123"), "symbol=ETHUSDT&orderId=123");
    assert_eq!(leverage_query(&Symbol::new("ETHUSDT"), 20), "symbol=ETHUSDT&leverage=20");
}

#[test]
fn binance_order_answer() {
    let mut r = PlaceOrderResponse {
        order_id: 9,
        client_order_id: "x".to_string(),
        symbol: "BTCUSDT".to_string(),
        side: "BUY".to_string(),
        order_type: "MARKET".to_string(),
        orig_qty: "0.1".to_string(),
        price: "0.00000000".to_string(),
        status: "FILLED".to_string(),
        update_time: 3,
    };
    let o = place_resp_to_order_response(&r).unwrap();
    assert_eq!(o.order_id, "9");
    assert_eq!(o.price, None);
    assert_eq!(o.status, OrderStatus::Filled);
    r.price = "100".to_string();
    assert_eq!(place_resp_to_order_response(&r).unwrap().price, Some(d("100")));
    r.orig_qty = "?".to_string();
    assert!(place_resp_to_order_response(&r).is_err());
}

#[test]
fn binance_position_and_balance() {
    let positions = vec![
        PositionResponse {
            symbol: "BTCUSDT".to_string(),
            position_amt: "-0.5".to_string(),
            entry_price: "50000".to_string(),
            unrealized_profit: "10".to_string(),
            leverage: "x".to_string(),
            isolated_margin: "0".to_string(),
            position_side: "BOTH".to_string(),
        },
    ];
    let p = position_from_answer(&positions, &Symbol::new("BTCUSDT")).unwrap();
    assert_eq!(p.side, Side::Sell);
    assert_eq!(p.quantity, d("0.5"));
    assert_eq!(p.leverage, 1);
    let flat = position_from_answer(&positions, &Symbol::new("ETHUSDT")).unwrap();
    assert_eq!(flat.side, Side::Buy);
    assert_eq!(flat.quantity, Dec::zero());
    let acct = AccountResponse {
        total_wallet_balance: "1000".to_string(),
        available_balance: "750.5".to_string(),
        total_unrealized_profit: "-3".to_string(),
        total_margin_balance: "997".to_string(),
        total_cross_un_pnl: "0".to_string(),
        positions: vec![],
    };
    let b = balance_from_answer(&acct).unwrap();
    assert_eq!(b.margin_used, d("249.5"));
    assert_eq!(b.unrealized_pnl, d("-3"));
}

#[test]
fn bybit_fields_and_answers() {
    let f = order_fields(&limit_buy());
    assert_eq!(f.side, "Buy");
    assert_eq!(f.order_type, "Limit");
    assert_eq!(f.qty, "0.010");
    assert_eq!(f.time_in_force, "PostOnly");
    assert_eq!(f.price, Some("50000.5".to_string()));
    assert_eq!(f.trigger_price, None);
    assert!(f.reduce_only);
    assert_eq!(parse_order_status("Untriggered"), OrderStatus::New);
    assert_eq!(parse_order_status("Deactivated"), OrderStatus::Canceled);
    assert_eq!(parse_order_status("Active"), OrderStatus::PartiallyFilled);
    let ok = BybitApiResponse::<u32> { ret_code: 110043, ret_msg: "not modified".to_string(), result: None, time: None };
    assert!(leverage_accepted(&ok));
    let bad = BybitApiResponse::<u32> { ret_code: 10001, ret_msg: "bad".to_string(), result: None, time: None };
    assert!(!leverage_accepted(&bad));
    assert!(bad.is_ok() == false);

    let list = vec![BybitPositionInfo {
        symbol: "BTCUSDT".to_string(),
        side: "Buy".to_string(),
        size: "0.3".to_string(),
        avg_price: "50000".to_string(),
        unrealised_pnl: "1".to_string(),
        leverage: "10".to_string(),
        position_im: Some("150".to_string()),
    }];
    let p = position_from_list(&list, &Symbol::new("BTCUSDT")).unwrap();
    assert_eq!(p.leverage, 10);
    assert_eq!(p.margin, d("150"));
    let none = position_from_list(&list, &Symbol::new("ETHUSDT")).unwrap();
    assert_eq!(none.side, Side::Sell);
    assert_eq!(none.leverage, 1);

    let w = BybitWalletBalanceResult {
        list: vec![BybitAccountInfo {
            total_wallet_balance: "500".to_string(),
            total_available_balance: "400".to_string(),
            total_margin_balance: "500".to_string(),
            coin: Some(vec![BybitCoinBalance {
                coin: "USDT".to_string(),
                wallet_balance: "500".to_string(),
                available_to_withdraw: "400".to_string(),
                unrealised_pnl: "2.5".to_string(),
            }]),
        }],
    };
    let b = balance_from_wallet(&w).unwrap();
    assert_eq!(b.margin_used, d("100"));
    assert_eq!(b.unrealized_pnl, d("2.5"));
    let empty = BybitWalletBalanceResult { list: vec![] };
    assert_eq!(balance_from_wallet(&empty).unwrap_err(), BalanceReadError::NoAccount);
}

#[test]
fn bybit_position_leverage_text_is_read_as_unsigned_decimal() {
    let cases = [("+7", 7u32), ("007", 7), ("-3", 1), ("", 1), ("+", 1), ("4294967295", 4294967295), ("4294967296", 1), (" 5", 1)];
    for (text, expected) in cases {
        let list = vec![BybitPositionInfo {
            symbol: "BTCUSDT".to_string(),
            side: "Buy".to_string(),
            size: "1".to_string(),
            avg_price: "100".to_string(),
            unrealised_pnl: "0".to_string(),
            leverage: text.to_string(),
            position_im: None,
        }];
        let p = position_from_list(&list, &Symbol::new("BTCUSDT")).unwrap();
        assert_eq!(p.leverage, expected, "leverage text {:?}", text);
    }
}
