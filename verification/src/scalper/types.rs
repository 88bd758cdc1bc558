//! Trading vocabulary of the scalper.
use vstd::prelude::*;

verus! {

/// Order side.
#[derive(Debug, Clone, Copy, PartialEq, Eq, Structural)]
pub enum Side {
    Buy,
    Sell,
}

/// Order type.
#[derive(Debug, Clone, Copy, PartialEq, Eq, Structural)]
pub enum OrderType {
    Market,
    Limit,
    StopMarket,
    TakeProfitMarket,
}

/// Time in force.
#[derive(Debug, Clone, Copy, PartialEq, Eq, Structural)]
pub enum TimeInForce {
    GTC,
    IOC,
    FOK,
    PostOnly,
}

/// Supported exchanges.
#[derive(Debug, Clone, Copy, PartialEq, Eq, Hash, Structural)]
pub enum Exchange {
    Binance,
    Bybit,
    OKX,
    Kraken,
}

/// The display name of an exchange.
pub open spec fn exchange_name(e: Exchange) -> Seq<char> {
    match e {
        Exchange::Binance => "Binance"@,
        Exchange::Bybit => "Bybit"@,
        Exchange::OKX => "OKX"@,
        Exchange::Kraken => "Kraken"@,
    }
}

impl Exchange {
    /// The display name of the exchange.
    pub fn name(&self) -> (r: &'static str)
        ensures
            r@ == exchange_name(*self),
    {
        match self {
            Exchange::Binance => "Binance",
            Exchange::Bybit => "Bybit",
            Exchange::OKX => "OKX",
            Exchange::Kraken => "Kraken",
        }
    }
}

/// How volatile the market currently is.
#[derive(Debug, Clone, Copy, PartialEq, Eq, Structural)]
pub enum VolatilityRegime {
    Ranging,
    Normal,
    Volatile,
    Extreme,
}

/// The direction of the prevailing trend.
#[derive(Debug, Clone, Copy, PartialEq, Eq, Structural)]
pub enum Trend {
    Up,
    Neutral,
    Down,
}

} // verus!
