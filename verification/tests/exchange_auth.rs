use bangida::exchange::binance::auth::BinanceAuth;
use bangida::exchange::bybit::auth::BybitAuth;

#[test]
fn auth_test_hmac_sign() {
    let auth = BinanceAuth::new("key", "secret");
    let sig = auth.hmac_sign("hello");
    assert!(!sig.is_empty());
    assert_eq!(sig.len(), 64);

    let auth = BybitAuth::new("key", "secret");
    let sig = auth.hmac_sign("hello");
    assert!(!sig.is_empty());
    assert_eq!(sig.len(), 64);
}

#[test]
fn test_sign_request_returns_three_parts() {
    let auth = BybitAuth::new("mykey", "mysecret");
    let (ts, sign, rw) = auth.sign_request("symbol=BTCUSDT", 5000);
    assert!(!ts.is_empty());
    assert_eq!(sign.len(), 64);
    assert_eq!(rw, "5000");
}

#[test]
fn hmac_known_digest() {
    let auth = BinanceAuth::new("key", "secret");
    assert_eq!(auth.hmac_sign("hello"), "88aab3ede8d3adf94d26ab90d3bafd4a2083070c3bcce9c014ee04a443847c0b");
}

#[test]
fn binance_sign_query_at_layout() {
    let auth = BinanceAuth::new("key", "secret");
    let q = auth.sign_query_at("symbol=BTCUSDT", 5000, 1_700_000_000_000);
    assert_eq!(
        q,
        "symbol=BTCUSDT&timestamp=1700000000000&recvWindow=5000&signature=898122a528961a351a3a8321656401f94a9273b6b8a3eee071845e9c573a755e"
    );
    let empty = auth.sign_query_at("", 10, -5);
    assert!(empty.starts_with("timestamp=-5&recvWindow=10&signature="));
    assert_eq!(auth.api_key(), "key");
}

#[test]
fn bybit_sign_request_at_values() {
    let auth = BybitAuth::new("mykey", "mysecret");
    let (ts, sign, rw) = auth.sign_request_at("symbol=BTCUSDT", 5000, 1_700_000_000_000);
    assert_eq!(ts, "1700000000000");
    assert_eq!(sign, "6b12ce04e99109598da192cc0ff87a3bcadb25cb245e5b2644d5a8a754791fa0");
    assert_eq!(rw, "5000");
    assert_eq!(auth.api_key(), "mykey");
    assert_eq!(auth.secret_key(), "mysecret");
}

#[test]
fn bybit_ws_auth_signature_value() {
    let auth = BybitAuth::new("key", "secret");
    assert_eq!(
        auth.ws_auth_signature(1_700_000_000_000),
        "9baf584ddf7a063dffe910d97ce4eac0cf7064058356de8b8d92f028e5ad936f"
    );
}

#[test]
fn bybit_ws_auth_signature_is_lowercase_hex_and_ignores_api_key() {
    let a = BybitAuth::new("key-one", "secret");
    let b = BybitAuth::new("key-two", "secret");
    let sig = a.ws_auth_signature(42);
    assert_eq!(sig, b.ws_auth_signature(42));
    assert_eq!(sig.len(), 64);
    assert!(sig.chars().all(|c| c.is_ascii_digit() || ('a'..='f').contains(&c)));
}

#[test]
fn bybit_request_headers_write_numbers_in_decimal() {
    let auth = BybitAuth::new("k", "s");
    let (ts, _, rw) = auth.sign_request_at("", 0, -1_234_567);
    assert_eq!(ts, "-1234567");
    assert_eq!(rw, "0");
    let (ts, _, rw) = auth.sign_request_at("", u64::MAX, i64::MIN);
    assert_eq!(ts, i64::MIN.to_string());
    assert_eq!(rw, "18446744073709551615");
}
