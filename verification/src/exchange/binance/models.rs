//! Messages of the Binance Futures streams and REST API, as plain data.
//! Prices and quantities are kept as the decimal text that Binance sends.
use vstd::prelude::*;

pub use crate::decimal::parse_decimal;

verus! {

/// Depth update from the `depth@100ms` stream.
#[derive(Debug, Clone)]
pub struct DepthUpdate {
    /// Event type, "depthUpdate".
    pub event_type: String,
    /// Event time (ms).
    pub event_time: u64,
    /// Transaction time (ms).
    pub transaction_time: u64,
    pub symbol: String,
    /// First update id in the event.
    pub first_update_id: u64,
    /// Final update id in the event.
    pub final_update_id: u64,
    /// Final update id of the previous event.
    pub prev_final_update_id: u64,
    /// Bid levels to update: [price, quantity].
    pub bids: Vec<[String; 2]>,
    /// Ask levels to update: [price, quantity].
    pub asks: Vec<[String; 2]>,
}

/// Aggregated trade from the `aggTrade` stream.
#[derive(Debug, Clone)]
pub struct BinanceAggTrade {
    pub event_type: String,
    pub event_time: u64,
    pub symbol: String,
    pub agg_trade_id: u64,
    pub price: String,
    pub quantity: String,
    pub first_trade_id: u64,
    pub last_trade_id: u64,
    pub trade_time: u64,
    pub is_buyer_maker: bool,
}

/// Kline event from the `kline_1m` stream.
#[derive(Debug, Clone)]
pub struct BinanceKlineEvent {
    pub event_type: String,
    pub event_time: u64,
    pub symbol: String,
    pub kline: BinanceKline,
}

/// One candlestick of a kline event.
#[derive(Debug, Clone)]
pub struct BinanceKline {
    pub open_time: u64,
    pub close_time: u64,
    pub symbol: String,
    pub interval: String,
    pub open: String,
    pub close: String,
    pub high: String,
    pub low: String,
    pub volume: String,
    pub is_closed: bool,
}

/// Mark price from the `markPrice@1s` stream.
#[derive(Debug, Clone)]
pub struct BinanceMarkPrice {
    pub event_type: String,
    pub event_time: u64,
    pub symbol: String,
    pub mark_price: String,
    pub funding_rate: String,
    pub next_funding_time: u64,
}

/// Order update from the user data stream.
#[derive(Debug, Clone)]
pub struct UserDataOrder {
    pub symbol: String,
    pub client_order_id: String,
    pub side: String,
    pub order_type: String,
    pub original_quantity: String,
    pub original_price: String,
    pub order_status: String,
    pub order_id: u64,
    pub order_trade_time: u64,
}

/// Account update from the user data stream.
#[derive(Debug, Clone)]
pub struct UserDataAccount {
    pub balances: Vec<UserDataBalance>,
    pub positions: Vec<UserDataPosition>,
}

/// One asset balance of an account update.
#[derive(Debug, Clone)]
pub struct UserDataBalance {
    pub asset: String,
    pub wallet_balance: String,
    pub cross_wallet_balance: String,
}

/// One position of an account update.
#[derive(Debug, Clone)]
pub struct UserDataPosition {
    pub symbol: String,
    pub position_amount: String,
    pub entry_price: String,
    pub unrealized_pnl: String,
    pub position_side: String,
}

/// Envelope of a user data stream event: an order update for
/// `ORDER_TRADE_UPDATE`, an account update for `ACCOUNT_UPDATE`.
#[derive(Debug, Clone)]
pub struct UserDataEvent {
    pub event_type: String,
    pub event_time: u64,
    pub order: Option<UserDataOrder>,
    pub account: Option<UserDataAccount>,
}

/// Answer to placing an order.
#[derive(Debug, Clone)]
pub struct PlaceOrderResponse {
    pub order_id: u64,
    pub client_order_id: String,
    pub symbol: String,
    pub side: String,
    pub order_type: String,
    pub orig_qty: String,
    pub price: String,
    pub status: String,
    pub update_time: u64,
}

/// Answer to cancelling an order.
#[derive(Debug, Clone)]
pub struct CancelOrderResponse {
    pub order_id: u64,
    pub client_order_id: String,
    pub symbol: String,
    pub side: String,
    pub order_type: String,
    pub orig_qty: String,
    pub price: String,
    pub status: String,
    pub update_time: u64,
}

/// One open position.
#[derive(Debug, Clone)]
pub struct PositionResponse {
    pub symbol: String,
    pub position_amt: String,
    pub entry_price: String,
    pub unrealized_profit: String,
    pub leverage: String,
    pub isolated_margin: String,
    pub position_side: String,
}

/// Account summary with its positions.
#[derive(Debug, Clone)]
pub struct AccountResponse {
    pub total_wallet_balance: String,
    pub available_balance: String,
    pub total_unrealized_profit: String,
    pub total_margin_balance: String,
    pub total_cross_un_pnl: String,
    pub positions: Vec<PositionResponse>,
}

/// Listen key for the user data stream.
#[derive(Debug, Clone)]
pub struct ListenKeyResponse {
    pub listen_key: String,
}

/// Error payload of the Binance API.
#[derive(Debug, Clone)]
pub struct BinanceApiError {
    pub code: i64,
    pub msg: String,
}

/// Answer to setting the leverage.
#[derive(Debug, Clone)]
pub struct SetLeverageResponse {
    pub leverage: u32,
    pub symbol: String,
    pub max_notional_value: Option<String>,
}

/// One element of the answer to cancelling all orders.
#[derive(Debug, Clone)]
pub struct CancelAllResponse {
    pub code: i64,
    pub msg: String,
}

/// The text of an API error: `Binance API error <code>: <msg>`.
pub open spec fn api_error_text(code: i64, msg: Seq<char>) -> Seq<char> {
    "Binance API error "@ + crate::common::time::signed_decimal_digits(code as int) + ": "@ + msg
}

impl BinanceApiError {
    /// The message of the error, as it is displayed.
    pub fn message(&self) -> (r: String)
        ensures
            r@ == api_error_text(self.code, self.msg@),
    {
        let mut s = String::from_str("Binance API error ");
        let code = crate::common::time::i64_text(self.code);
        s.append(code.as_str());
        s.append(": ");
        s.append(self.msg.as_str());
        s
    }
}

} // verus!
