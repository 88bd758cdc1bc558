pub mod config;
pub mod error;
pub mod historical;
pub mod paging;
pub mod types;
