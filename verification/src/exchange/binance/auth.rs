//! Request signing for the Binance Futures API.
use crate::common::time::{signed_decimal_digits, decimal_digits, i64_text, u64_text, utc_now_millis};
use crate::exchange::signing::{hmac_sha256_hex, hmac_sign_hex, is_lower_hex};
use vstd::prelude::*;

verus! {

/// Credentials for the Binance Futures API.
#[derive(Debug, Clone)]
pub struct BinanceAuth {
    pub api_key: String,
    secret_key: String,
}

/// The query that is signed: the caller's query (if any), then the
/// timestamp and the receive window.
pub open spec fn binance_payload(query: Seq<char>, timestamp: int, recv_window: u64) -> Seq<char> {
    let tail = "timestamp="@ + signed_decimal_digits(timestamp) + "&recvWindow="@ + decimal_digits(
        recv_window as nat,
    );
    if query.len() == 0 {
        tail
    } else {
        query + "&"@ + tail
    }
}

impl BinanceAuth {
    /// The API key.
    pub closed spec fn key(&self) -> Seq<char> {
        self.api_key@
    }

    /// The secret key.
    pub closed spec fn secret(&self) -> Seq<char> {
        self.secret_key@
    }

    pub fn new(api_key: &str, secret_key: &str) -> (r: Self)
        ensures
            r.key() == api_key@,
            r.secret() == secret_key@,
    {
        BinanceAuth { api_key: String::from_str(api_key), secret_key: String::from_str(secret_key) }
    }

    /// The HMAC-SHA256 hex digest of a message under the secret key.
    pub fn hmac_sign(&self, message: &str) -> (r: String)
        ensures
            r@ == hmac_sha256_hex(self.secret(), message@),
            r@.len() == 64,
            is_lower_hex(r@),
    {
        hmac_sign_hex(self.secret_key.as_str(), message)
    }

    /// Signs `query` stamped with `timestamp` (ms): the query with the
    /// timestamp and receive window appended, then `&signature=` and the
    /// signature of everything before it.
    pub fn sign_query_at(&self, query: &str, recv_window: u64, timestamp: i64) -> (r: String)
        ensures
            r@ == binance_payload(query@, timestamp as int, recv_window) + "&signature="@
                + hmac_sha256_hex(self.secret(), binance_payload(query@, timestamp as int, recv_window)),
    {
        let mut full = String::new();
        if query.unicode_len() != 0 {
            full.append(query);
            full.append("&");
        }
        full.append("timestamp=");
        let ts = i64_text(timestamp);
        full.append(ts.as_str());
        full.append("&recvWindow=");
        let rw = u64_text(recv_window);
        full.append(rw.as_str());
        proof {
            reveal_strlit("&");
            reveal_strlit("timestamp=");
            reveal_strlit("&recvWindow=");
            assert(full@ =~= binance_payload(query@, timestamp as int, recv_window));
        }
        let signature = self.hmac_sign(full.as_str());
        full.append("&signature=");
        full.append(signature.as_str());
        full
    }

    /// Signs `query` stamped with the current time.
    pub fn sign_query(&self, query: &str, recv_window: u64) -> (r: String)
        ensures
            exists|timestamp: i64|
                r@ == #[trigger] binance_payload(query@, timestamp as int, recv_window)
                    + "&signature="@ + hmac_sha256_hex(
                    self.secret(),
                    binance_payload(query@, timestamp as int, recv_window),
                ),
    {
        let timestamp = utc_now_millis();
        self.sign_query_at(query, recv_window, timestamp)
    }

    /// The API key (sent as the `X-MBX-APIKEY` header).
    pub fn api_key(&self) -> (r: &str)
        ensures
            r@ == self.key(),
    {
        self.api_key.as_str()
    }
}

} // verus!
