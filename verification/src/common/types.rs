//! Core trading types: sides, order types, symbols, orders and market events.
use crate::decimal::Dec;
use vstd::prelude::*;

verus! {

/// A price.
pub type Price = Dec;

/// A quantity.
pub type Quantity = Dec;

/// An exchange order id.
pub type OrderId = String;

#[derive(Debug, Clone, Copy, PartialEq, Eq, Hash, Structural)]
pub enum Side {
    Buy,
    Sell,
}

impl Side {
    /// The other side.
    pub fn opposite(&self) -> (r: Side)
        ensures
            r != *self,
    {
        match self {
            Side::Buy => Side::Sell,
            Side::Sell => Side::Buy,
        }
    }

    /// The side as the exchanges write it ("BUY" / "SELL").
    pub fn as_str(&self) -> (r: &'static str)
        ensures
            r@ == side_text(*self),
    {
        proof {
            reveal_strlit("BUY");
            reveal_strlit("SELL");
        }
        match self {
            Side::Buy => "BUY",
            Side::Sell => "SELL",
        }
    }
}

/// The text of a side.
pub open spec fn side_text(s: Side) -> Seq<char> {
    match s {
        Side::Buy => seq!['B', 'U', 'Y'],
        Side::Sell => seq!['S', 'E', 'L', 'L'],
    }
}

#[derive(Debug, Clone, Copy, PartialEq, Eq, Structural)]
pub enum OrderType {
    Market,
    Limit,
    StopMarket,
    TakeProfitMarket,
}

#[derive(Debug, Clone, Copy, PartialEq, Eq, Structural)]
pub enum TimeInForce {
    Gtc,
    Ioc,
    Fok,
    PostOnly,
}

#[derive(Debug, Clone, Copy, PartialEq, Eq, Hash, Structural)]
pub enum Exchange {
    Binance,
    Bybit,
}

impl Exchange {
    /// The exchange's name ("Binance" / "Bybit").
    pub fn as_str(&self) -> (r: &'static str)
        ensures
            r@ == (match *self {
                Exchange::Binance => seq!['B', 'i', 'n', 'a', 'n', 'c', 'e'],
                Exchange::Bybit => seq!['B', 'y', 'b', 'i', 't'],
            }),
    {
        proof {
            reveal_strlit("Binance");
            reveal_strlit("Bybit");
        }
        match self {
            Exchange::Binance => "Binance",
            Exchange::Bybit => "Bybit",
        }
    }
}

/// A trading symbol such as "BTCUSDT".
#[derive(Debug)]
pub struct Symbol(pub String);

impl View for Symbol {
    type V = Seq<char>;

    open spec fn view(&self) -> Seq<char> {
        self.0@
    }
}

impl Symbol {
    pub fn new(s: &str) -> (r: Symbol)
        ensures
            r@ == s@,
    {
        Symbol(String::from_str(s))
    }

    /// The symbol's text.
    pub fn as_str(&self) -> (r: &str)
        ensures
            r@ == self@,
    {
        self.0.as_str()
    }
}

impl Clone for Symbol {
    fn clone(&self) -> (r: Self)
        ensures
            r@ == self@,
    {
        Symbol(self.0.clone())
    }
}

impl PartialEq for Symbol {
    fn eq(&self, other: &Symbol) -> (r: bool) {
        self.0 == other.0
    }
}

impl vstd::std_specs::cmp::PartialEqSpecImpl for Symbol {
    open spec fn obeys_eq_spec() -> bool {
        true
    }

    open spec fn eq_spec(&self, other: &Symbol) -> bool {
        self@ == other@
    }
}

impl Eq for Symbol {
}

#[derive(Debug, Clone)]
pub struct OrderRequest {
    pub symbol: Symbol,
    pub side: Side,
    pub order_type: OrderType,
    pub quantity: Quantity,
    pub price: Option<Price>,
    pub stop_price: Option<Price>,
    pub time_in_force: TimeInForce,
    pub reduce_only: bool,
}

#[derive(Debug, Clone)]
pub struct OrderResponse {
    pub order_id: OrderId,
    pub client_order_id: String,
    pub symbol: Symbol,
    pub side: Side,
    pub order_type: OrderType,
    pub quantity: Quantity,
    pub price: Option<Price>,
    pub status: OrderStatus,
    pub timestamp_ms: u64,
}

#[derive(Debug, Clone, Copy, PartialEq, Eq, Structural)]
pub enum OrderStatus {
    New,
    PartiallyFilled,
    Filled,
    Canceled,
    Rejected,
    Expired,
}

#[derive(Debug, Clone)]
pub struct Position {
    pub symbol: Symbol,
    pub side: Side,
    pub quantity: Quantity,
    pub entry_price: Price,
    pub unrealized_pnl: Dec,
    pub leverage: u32,
    pub margin: Dec,
}

#[derive(Debug, Clone)]
pub struct AccountBalance {
    pub total_balance: Dec,
    pub available_balance: Dec,
    pub unrealized_pnl: Dec,
    pub margin_used: Dec,
}

#[derive(Debug, Clone)]
pub struct AggTrade {
    pub symbol: Symbol,
    pub price: Price,
    pub quantity: Quantity,
    pub timestamp_ms: u64,
    pub is_buyer_maker: bool,
}

#[derive(Debug, Clone)]
pub struct Kline {
    pub symbol: Symbol,
    pub open: Price,
    pub high: Price,
    pub low: Price,
    pub close: Price,
    pub volume: Quantity,
    pub open_time_ms: u64,
    pub close_time_ms: u64,
}

#[derive(Debug, Clone)]
pub enum MarketEvent {
    OrderBookUpdate {
        exchange: Exchange,
        symbol: Symbol,
        bids: Vec<(Price, Quantity)>,
        asks: Vec<(Price, Quantity)>,
        timestamp_ms: u64,
    },
    Trade(AggTrade),
    KlineClose(Kline),
    MarkPrice { symbol: Symbol, mark_price: Price, funding_rate: Dec, next_funding_time_ms: u64 },
    OrderUpdate(OrderResponse),
    PositionUpdate(Position),
    BalanceUpdate(AccountBalance),
}

#[derive(Debug, Clone, Copy, PartialEq, Eq, Structural)]
pub enum TradingMode {
    Backtest,
    Paper,
    Live,
}

} // verus!
