//! Application settings: the plain sections of the configuration file.
use vstd::prelude::*;

verus! {

/// General settings: the trading mode and the log level.
#[derive(Debug, Clone)]
pub struct GeneralConfig {
    pub mode: String,
    pub log_level: String,
}

/// Credentials for the two supported exchanges.
#[derive(Debug, Clone)]
pub struct ExchangesConfig {
    pub binance: ExchangeCredentials,
    pub bybit: ExchangeCredentials,
}

/// API credentials and endpoints of one exchange.
#[derive(Debug, Clone)]
pub struct ExchangeCredentials {
    pub api_key: String,
    pub api_secret: String,
    pub base_url_rest: String,
    pub base_url_ws: String,
    pub testnet: bool,
}

/// The traded symbols and the leverage settings.
#[derive(Debug, Clone)]
pub struct TradingConfig {
    pub symbols: Vec<String>,
    pub default_leverage: u32,
    pub max_leverage: u32,
}

/// Where the trade database lives.
#[derive(Debug, Clone)]
pub struct DatabaseConfig {
    pub path: String,
}

/// The port on which metrics are served.
#[derive(Debug, Clone, Copy)]
pub struct MonitoringConfig {
    pub metrics_port: u16,
}

/// The maximum leverage used when the risk settings do not give one.
pub fn default_max_leverage() -> (r: u32)
    ensures
        r == 20,
{
    20
}

} // verus!
