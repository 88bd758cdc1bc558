pub mod time;
pub mod types;
pub mod config;
pub mod error;
pub mod text;
