//! Messages of the Bybit V5 streams and REST API, as plain data. Prices and
//! quantities are kept as the decimal text that Bybit sends.
use vstd::prelude::*;

pub use crate::decimal::parse_decimal;

verus! {

/// Order book snapshot from the `orderbook.50` topic.
#[derive(Debug, Clone)]
pub struct OrderBookSnapshot {
    /// Symbol.
    pub s: String,
    /// Bids: [price, quantity].
    pub b: Vec<[String; 2]>,
    /// Asks: [price, quantity].
    pub a: Vec<[String; 2]>,
    /// Update id.
    pub u: u64,
    /// Cross sequence.
    pub seq: Option<u64>,
}

/// Order book delta from the `orderbook.50` topic.
#[derive(Debug, Clone)]
pub struct OrderBookDelta {
    pub s: String,
    pub b: Vec<[String; 2]>,
    pub a: Vec<[String; 2]>,
    pub u: u64,
    pub seq: Option<u64>,
}

/// Public trade from the `publicTrade` topic.
#[derive(Debug, Clone)]
pub struct PublicTrade {
    /// Trade id.
    pub i: String,
    /// Time (ms).
    pub timestamp: u64,
    /// Price.
    pub p: String,
    /// Quantity.
    pub v: String,
    /// "Buy" or "Sell".
    pub side: String,
    /// Symbol.
    pub s: String,
    pub is_block_trade: Option<bool>,
}

/// Kline from the `kline.1` topic.
#[derive(Debug, Clone)]
pub struct KlineData {
    pub start: u64,
    pub end: u64,
    pub interval: String,
    pub open: String,
    pub close: String,
    pub high: String,
    pub low: String,
    pub volume: String,
    pub turnover: String,
    /// Whether the kline is closed.
    pub confirm: bool,
    pub timestamp: u64,
}

/// Ticker from the `tickers` topic.
#[derive(Debug, Clone)]
pub struct TickerData {
    pub symbol: String,
    pub mark_price: Option<String>,
    pub funding_rate: Option<String>,
    pub next_funding_time: Option<String>,
}

/// Envelope of a Bybit V5 REST answer.
#[derive(Debug, Clone)]
pub struct BybitApiResponse<T> {
    pub ret_code: i64,
    pub ret_msg: String,
    pub result: Option<T>,
    pub time: Option<u64>,
}

impl<T> BybitApiResponse<T> {
    /// Whether the call succeeded: the return code is zero.
    pub fn is_ok(&self) -> (r: bool)
        ensures
            r == (self.ret_code == 0),
    {
        self.ret_code == 0
    }
}

/// Answer to creating or cancelling an order.
#[derive(Debug, Clone)]
pub struct BybitOrderResult {
    pub order_id: String,
    pub order_link_id: Option<String>,
}

/// One order of an order list.
#[derive(Debug, Clone)]
pub struct BybitOrderInfo {
    pub order_id: String,
    pub order_link_id: String,
    pub symbol: String,
    pub side: String,
    pub order_type: String,
    pub qty: String,
    pub price: String,
    pub order_status: String,
    pub updated_time: Option<String>,
}

/// One position of `/v5/position/list`.
#[derive(Debug, Clone)]
pub struct BybitPositionInfo {
    pub symbol: String,
    pub side: String,
    pub size: String,
    pub avg_price: String,
    pub unrealised_pnl: String,
    pub leverage: String,
    pub position_im: Option<String>,
}

/// The positions of `/v5/position/list`.
#[derive(Debug, Clone)]
pub struct BybitPositionList {
    pub list: Vec<BybitPositionInfo>,
}

/// One coin of a wallet balance.
#[derive(Debug, Clone)]
pub struct BybitCoinBalance {
    pub coin: String,
    pub wallet_balance: String,
    pub available_to_withdraw: String,
    pub unrealised_pnl: String,
}

/// Account of `/v5/account/wallet-balance`.
#[derive(Debug, Clone)]
pub struct BybitAccountInfo {
    pub total_wallet_balance: String,
    pub total_available_balance: String,
    pub total_margin_balance: String,
    pub coin: Option<Vec<BybitCoinBalance>>,
}

/// The accounts of a wallet balance answer.
#[derive(Debug, Clone)]
pub struct BybitWalletBalanceResult {
    pub list: Vec<BybitAccountInfo>,
}

/// Answer to setting the leverage (empty).
#[derive(Debug, Clone, Copy)]
pub struct BybitSetLeverageResult {}

/// Answer to cancelling all orders.
#[derive(Debug, Clone)]
pub struct BybitCancelAllResult {
    pub list: Option<Vec<BybitOrderResult>>,
    pub success: Option<String>,
}

} // verus!
