pub mod binance;
pub mod bybit;
pub mod signing;
pub mod window_limiter;
pub mod parsing;
pub mod ws_session;
