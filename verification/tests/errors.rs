use bangida::scalper::error::ScalperError;
use bangida::common::error::BangidaError;
use bangida::exchange::binance::models::BinanceApiError;

#[test]
fn error_messages() {
    assert_eq!(BangidaError::Exchange("down".to_string()).message(), "Exchange error: down");
    assert_eq!(
        BangidaError::InsufficientBalance { available: "1".to_string(), required: "2".to_string() }.message(),
        "Insufficient balance: available=1, required=2"
    );
    assert_eq!(BangidaError::Timeout("5s".to_string()).message(), "Timeout: 5s");
    let e = BinanceApiError { code: -1021, msg: "Timestamp outside recvWindow".to_string() };
    assert_eq!(e.message(), "Binance API error -1021: Timestamp outside recvWindow");
}

#[test]
fn scalper_error_messages() {
    assert_eq!(ScalperError::RiskViolation("limit".to_string()).message(), "Risk violation: limit");
    assert_eq!(ScalperError::Config("missing".to_string()).message(), "Configuration error: missing");
    assert_eq!(ScalperError::Serialization("bad json".to_string()).message(), "Serialization error: bad json");
}
