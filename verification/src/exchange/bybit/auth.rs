//! Request signing for the Bybit V5 API. The signed text is the timestamp,
//! the API key, the receive window and the payload (query string or body),
//! one after the other.
use crate::common::time::{decimal_digits, i64_text, signed_decimal_digits, u64_text, utc_now_millis};
use crate::exchange::signing::{hmac_sha256_hex, hmac_sign_hex, is_lower_hex};
use vstd::prelude::*;

verus! {

/// Credentials and request signing for the Bybit V5 API.
#[derive(Debug, Clone)]
pub struct BybitAuth {
    api_key: String,
    secret_key: String,
}

/// The text signed for a REST request made at `timestamp` (ms).
pub open spec fn bybit_presign(timestamp: int, api_key: Seq<char>, recv_window: u64, payload: Seq<char>) -> Seq<char> {
    signed_decimal_digits(timestamp) + api_key + decimal_digits(recv_window as nat) + payload
}

/// The text signed for WebSocket authentication that expires at `expires`.
pub open spec fn bybit_ws_auth_text(expires: u64) -> Seq<char> {
    "GET/realtime"@ + decimal_digits(expires as nat)
}

impl BybitAuth {
    /// The API key.
    pub closed spec fn key(&self) -> Seq<char> {
        self.api_key@
    }

    /// The secret key.
    pub closed spec fn secret(&self) -> Seq<char> {
        self.secret_key@
    }

    pub fn new(api_key: &str, secret_key: &str) -> (r: Self)
        ensures
            r.key() == api_key@,
            r.secret() == secret_key@,
    {
        BybitAuth { api_key: String::from_str(api_key), secret_key: String::from_str(secret_key) }
    }

    /// The API key (sent as the `X-BAPI-API-KEY` header).
    pub fn api_key(&self) -> (r: &str)
        ensures
            r@ == self.key(),
    {
        self.api_key.as_str()
    }

    /// The secret key (needed for WebSocket authentication).
    pub fn secret_key(&self) -> (r: &str)
        ensures
            r@ == self.secret(),
    {
        self.secret_key.as_str()
    }

    /// The HMAC-SHA256 hex digest of a message under the secret key.
    pub fn hmac_sign(&self, message: &str) -> (r: String)
        ensures
            r@ == hmac_sha256_hex(self.secret(), message@),
            r@.len() == 64,
            is_lower_hex(r@),
    {
        hmac_sign_hex(self.secret_key.as_str(), message)
    }

    /// The authentication headers of a request made at `timestamp` (ms):
    /// the timestamp, the signature and the receive window, as text.
    pub fn sign_request_at(&self, payload: &str, recv_window: u64, timestamp: i64) -> (r: (
        String,
        String,
        String,
    ))
        ensures
            r.0@ == signed_decimal_digits(timestamp as int),
            r.1@ == hmac_sha256_hex(
                self.secret(),
                bybit_presign(timestamp as int, self.key(), recv_window, payload@),
            ),
            r.1@.len() == 64,
            is_lower_hex(r.1@),
            r.2@ == decimal_digits(recv_window as nat),
    {
        let ts = i64_text(timestamp);
        let rw = u64_text(recv_window);
        let mut pre = ts.clone();
        pre.append(self.api_key.as_str());
        pre.append(rw.as_str());
        pre.append(payload);
        let signature = self.hmac_sign(pre.as_str());
        (ts, signature, rw)
    }

    /// The authentication headers of a request made now.
    pub fn sign_request(&self, payload: &str, recv_window: u64) -> (r: (String, String, String))
        ensures
            exists|timestamp: i64|
                r.0@ == #[trigger] signed_decimal_digits(timestamp as int) && r.1@ == hmac_sha256_hex(
                    self.secret(),
                    bybit_presign(timestamp as int, self.key(), recv_window, payload@),
                ),
            r.1@.len() == 64,
            is_lower_hex(r.1@),
            r.2@ == decimal_digits(recv_window as nat),
    {
        let timestamp = utc_now_millis();
        self.sign_request_at(payload, recv_window, timestamp)
    }

    /// The signature for WebSocket authentication: the digest of
    /// `GET/realtime` followed by the expiry time (ms).
    pub fn ws_auth_signature(&self, expires: u64) -> (r: String)
        ensures
            r@ == hmac_sha256_hex(self.secret(), bybit_ws_auth_text(expires)),
            r@.len() == 64,
            is_lower_hex(r@),
    {
        let mut message = String::from_str("GET/realtime");
        let digits = u64_text(expires);
        message.append(digits.as_str());
        self.hmac_sign(message.as_str())
    }
}

} // verus!
