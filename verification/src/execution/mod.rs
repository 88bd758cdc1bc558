pub mod latency;
pub mod fill_tracker;
pub mod order_tracker;
pub mod executor;
