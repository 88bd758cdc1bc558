//! Settings of the scalper: the plain sections of its configuration and
//! the defaults that apply where the file leaves a field out.
use std::collections::HashMap;
use vstd::prelude::*;

verus! {

/// General settings: the trading mode.
#[derive(Debug, Clone)]
pub struct GeneralConfig {
    pub mode: String,
}

/// The configured exchanges; each may be absent.
#[derive(Debug, Clone)]
pub struct ExchangesConfig {
    pub binance: Option<ExchangeConfig>,
    pub bybit: Option<ExchangeConfig>,
    pub okx: Option<ExchangeConfig>,
    pub kraken: Option<ExchangeConfig>,
}

impl Default for ExchangesConfig {
    fn default() -> (r: Self)
        ensures
            r.binance is None && r.bybit is None && r.okx is None && r.kraken is None,
    {
        ExchangesConfig { binance: None, bybit: None, okx: None, kraken: None }
    }
}

/// Endpoints, credentials and symbol names of one exchange.
#[derive(Debug, Clone)]
pub struct ExchangeConfig {
    pub base_url_rest: String,
    pub base_url_ws: String,
    pub testnet: bool,
    pub api_key: String,
    pub api_secret: String,
    pub passphrase: Option<String>,
    pub symbol_map: HashMap<String, String>,
}

/// The traded symbols and the leverage settings.
#[derive(Debug, Clone)]
pub struct TradingConfig {
    pub symbols: Vec<String>,
    pub default_leverage: u32,
    pub max_leverage: u32,
}

/// Order placement settings.
#[derive(Debug, Clone, Copy)]
pub struct ExecutionConfig {
    pub post_only: bool,
    pub max_slippage_bps: u32,
}

/// Logging settings.
#[derive(Debug, Clone)]
pub struct LoggingConfig {
    pub level: String,
    pub console: bool,
    pub file_enabled: bool,
    pub file_path: String,
    pub performance_log: String,
    pub trade_log: String,
    pub supervisor_log: String,
    pub performance_summary_interval: u64,
    pub rotate_daily: bool,
    pub max_file_size_mb: u64,
}

/// The symbols traded when none are configured: BTCUSDT and ETHUSDT.
pub fn default_symbols() -> (r: Vec<String>)
    ensures
        r@.len() == 2,
        r@[0]@ == "BTCUSDT"@,
        r@[1]@ == "ETHUSDT"@,
{
    let mut v: Vec<String> = Vec::new();
    v.push(String::from_str("BTCUSDT"));
    v.push(String::from_str("ETHUSDT"));
    v
}

/// The leverage used when none is configured.
pub fn default_leverage() -> (r: u32)
    ensures
        r == 10,
{
    10
}

/// The number of open positions allowed when none is configured.
pub fn default_max_open_positions() -> (r: u32)
    ensures
        r == 1,
{
    1
}

/// The log level used when none is configured.
pub fn default_log_level() -> (r: String)
    ensures
        r@ == "info"@,
{
    String::from_str("info")
}

/// The log file used when none is configured.
pub fn default_log_path() -> (r: String)
    ensures
        r@ == "logs/bangida_bot.log"@,
{
    String::from_str("logs/bangida_bot.log")
}

/// The performance log used when none is configured.
pub fn default_perf_log() -> (r: String)
    ensures
        r@ == "logs/performance_tracker.log"@,
{
    String::from_str("logs/performance_tracker.log")
}

/// The trade log used when none is configured.
pub fn default_trade_log() -> (r: String)
    ensures
        r@ == "logs/trades.log"@,
{
    String::from_str("logs/trades.log")
}

/// The supervisor log used when none is configured.
pub fn default_supervisor_log() -> (r: String)
    ensures
        r@ == "logs/ai_supervisor.log"@,
{
    String::from_str("logs/ai_supervisor.log")
}

/// Seconds between performance summaries when none is configured.
pub fn default_perf_interval() -> (r: u64)
    ensures
        r == 60,
{
    60
}

/// The largest log file, in MB, when none is configured.
pub fn default_max_log_size() -> (r: u64)
    ensures
        r == 10,
{
    10
}

impl Default for TradingConfig {
    fn default() -> (r: Self)
        ensures
            r.symbols@.len() == 2,
            r.symbols@[0]@ == "BTCUSDT"@,
            r.symbols@[1]@ == "ETHUSDT"@,
            r.default_leverage == 10,
            r.max_leverage == 10,
    {
        TradingConfig {
            symbols: default_symbols(),
            default_leverage: default_leverage(),
            max_leverage: default_leverage(),
        }
    }
}

impl Default for ExecutionConfig {
    fn default() -> (r: Self)
        ensures
            r.post_only,
            r.max_slippage_bps == 5,
    {
        ExecutionConfig { post_only: true, max_slippage_bps: 5 }
    }
}

impl Default for LoggingConfig {
    fn default() -> (r: Self)
        ensures
            r.level@ == "info"@,
            r.console,
            !r.file_enabled,
            r.file_path@ == "logs/bangida_bot.log"@,
            r.performance_log@ == "logs/performance_tracker.log"@,
            r.trade_log@ == "logs/trades.log"@,
            r.supervisor_log@ == "logs/ai_supervisor.log"@,
            r.performance_summary_interval == 60,
            !r.rotate_daily,
            r.max_file_size_mb == 10,
    {
        LoggingConfig {
            level: default_log_level(),
            console: true,
            file_enabled: false,
            file_path: default_log_path(),
            performance_log: default_perf_log(),
            trade_log: default_trade_log(),
            supervisor_log: default_supervisor_log(),
            performance_summary_interval: default_perf_interval(),
            rotate_daily: false,
            max_file_size_mb: default_max_log_size(),
        }
    }
}

} // verus!
