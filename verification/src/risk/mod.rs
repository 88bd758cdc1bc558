pub mod circuit_breaker;
pub mod limits;
pub mod pnl_tracker;
pub mod position_sizer;
pub mod risk_manager;
