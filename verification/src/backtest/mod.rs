pub mod engine;
pub mod sim_exchange;
