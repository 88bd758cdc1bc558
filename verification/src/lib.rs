//! The verified core of a crypto futures scalping system: exact decimal
//! arithmetic, order books and candles, exchange message handling, request
//! signing and rate limits, order tracking and planning, risk controls
//! (position sizing, circuit breaker, pre-trade checks, PnL books), the
//! simulated exchange and backtest state machine, and the decisions of
//! WebSocket sessions and historical downloads.
pub mod backtest;
pub mod common;
pub mod data;
pub mod decimal;
pub mod exchange;
pub mod execution;
pub mod ml;
pub mod risk;
pub mod scalper;
