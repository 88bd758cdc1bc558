pub mod auth;
pub mod models;
pub mod rate_limit;
pub mod events;
pub mod requests;
