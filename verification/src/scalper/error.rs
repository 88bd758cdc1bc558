//! Errors of the scalper. A serialization error carries the text of the
//! underlying JSON error.
use vstd::prelude::*;

verus! {

#[derive(Debug, Clone)]
pub enum ScalperError {
    Exchange(String),
    Config(String),
    Strategy(String),
    RiskViolation(String),
    Order(String),
    WebSocket(String),
    Serialization(String),
}

/// The text of an error: a fixed prefix naming the kind, then the detail.
pub open spec fn scalper_error_text(e: ScalperError) -> Seq<char> {
    match e {
        ScalperError::Exchange(d) => "Exchange error: "@ + d@,
        ScalperError::Config(d) => "Configuration error: "@ + d@,
        ScalperError::Strategy(d) => "Strategy error: "@ + d@,
        ScalperError::RiskViolation(d) => "Risk violation: "@ + d@,
        ScalperError::Order(d) => "Order error: "@ + d@,
        ScalperError::WebSocket(d) => "WebSocket error: "@ + d@,
        ScalperError::Serialization(d) => "Serialization error: "@ + d@,
    }
}

fn with_prefix(prefix: &str, detail: &String) -> (r: String)
    ensures
        r@ == prefix@ + detail@,
{
    let mut s = String::from_str(prefix);
    s.append(detail.as_str());
    s
}

impl ScalperError {
    /// The message of the error, as it is displayed.
    pub fn message(&self) -> (r: String)
        ensures
            r@ == scalper_error_text(*self),
    {
        match self {
            ScalperError::Exchange(d) => with_prefix("Exchange error: ", d),
            ScalperError::Config(d) => with_prefix("Configuration error: ", d),
            ScalperError::Strategy(d) => with_prefix("Strategy error: ", d),
            ScalperError::RiskViolation(d) => with_prefix("Risk violation: ", d),
            ScalperError::Order(d) => with_prefix("Order error: ", d),
            ScalperError::WebSocket(d) => with_prefix("WebSocket error: ", d),
            ScalperError::Serialization(d) => with_prefix("Serialization error: ", d),
        }
    }
}

} // verus!
