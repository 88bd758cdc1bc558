//! The error type shared by the trading components.
use vstd::prelude::*;

verus! {

/// What went wrong, with a human-readable detail.
#[derive(Debug, Clone)]
pub enum BangidaError {
    Exchange(String),
    WebSocket(String),
    RestApi(String),
    Auth(String),
    RateLimit(String),
    OrderRejected(String),
    InsufficientBalance { available: String, required: String },
    RiskCheck(String),
    CircuitBreaker(String),
    Config(String),
    Database(String),
    Deserialization(String),
    ConnectionLost(String),
    Timeout(String),
    Internal(String),
}

/// The text of an error: a fixed prefix naming the kind of error, then the
/// detail.
pub open spec fn error_text(e: BangidaError) -> Seq<char> {
    match e {
        BangidaError::Exchange(d) => "Exchange error: "@ + d@,
        BangidaError::WebSocket(d) => "WebSocket error: "@ + d@,
        BangidaError::RestApi(d) => "REST API error: "@ + d@,
        BangidaError::Auth(d) => "Authentication error: "@ + d@,
        BangidaError::RateLimit(d) => "Rate limit exceeded: "@ + d@,
        BangidaError::OrderRejected(d) => "Order rejected: "@ + d@,
        BangidaError::InsufficientBalance { available, required } => "Insufficient balance: available="@
            + available@ + ", required="@ + required@,
        BangidaError::RiskCheck(d) => "Risk check failed: "@ + d@,
        BangidaError::CircuitBreaker(d) => "Circuit breaker triggered: "@ + d@,
        BangidaError::Config(d) => "Configuration error: "@ + d@,
        BangidaError::Database(d) => "Database error: "@ + d@,
        BangidaError::Deserialization(d) => "Deserialization error: "@ + d@,
        BangidaError::ConnectionLost(d) => "Connection lost: "@ + d@,
        BangidaError::Timeout(d) => "Timeout: "@ + d@,
        BangidaError::Internal(d) => "Internal error: "@ + d@,
    }
}

/// `prefix` followed by `detail`.
fn prefixed(prefix: &str, detail: &String) -> (r: String)
    ensures
        r@ == prefix@ + detail@,
{
    let mut s = String::from_str(prefix);
    s.append(detail.as_str());
    s
}

impl BangidaError {
    /// The message of the error, as it is displayed.
    pub fn message(&self) -> (r: String)
        ensures
            r@ == error_text(*self),
    {
        match self {
            BangidaError::Exchange(d) => prefixed("Exchange error: ", d),
            BangidaError::WebSocket(d) => prefixed("WebSocket error: ", d),
            BangidaError::RestApi(d) => prefixed("REST API error: ", d),
            BangidaError::Auth(d) => prefixed("Authentication error: ", d),
            BangidaError::RateLimit(d) => prefixed("Rate limit exceeded: ", d),
            BangidaError::OrderRejected(d) => prefixed("Order rejected: ", d),
            BangidaError::InsufficientBalance { available, required } => {
                let mut s = prefixed("Insufficient balance: available=", available);
                s.append(", required=");
                s.append(required.as_str());
                s
            },
            BangidaError::RiskCheck(d) => prefixed("Risk check failed: ", d),
            BangidaError::CircuitBreaker(d) => prefixed("Circuit breaker triggered: ", d),
            BangidaError::Config(d) => prefixed("Configuration error: ", d),
            BangidaError::Database(d) => prefixed("Database error: ", d),
            BangidaError::Deserialization(d) => prefixed("Deserialization error: ", d),
            BangidaError::ConnectionLost(d) => prefixed("Connection lost: ", d),
            BangidaError::Timeout(d) => prefixed("Timeout: ", d),
            BangidaError::Internal(d) => prefixed("Internal error: ", d),
        }
    }
}

} // verus!
