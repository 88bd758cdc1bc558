//! HMAC-SHA256 signatures of request payloads, in lowercase hex.
use hmac::{Hmac, Mac};
use sha2::Sha256;
use vstd::prelude::*;

verus! {

/// The lowercase hex text of the HMAC-SHA256 of the UTF-8 bytes of
/// `message` under the UTF-8 bytes of `key`.
pub uninterp spec fn hmac_sha256_hex(key: Seq<char>, message: Seq<char>) -> Seq<char>;

/// Every character is a lowercase hexadecimal digit (`0`-`9`, `a`-`f`).
pub open spec fn is_lower_hex(s: Seq<char>) -> bool {
    forall|i: int| 0 <= i < s.len() ==> ('0' <= #[trigger] s[i] <= '9' || 'a' <= s[i] <= 'f')
}

/// `Hmac::<Sha256>::new_from_slice(key)`, `update(message)`, `finalize()`, then
/// `hex::encode`. HMAC accepts keys of any length, so the key is never
/// refused; the digest has 32 bytes and `hex::encode` writes two characters
/// per byte from the table `0123456789abcdef`, so the text has 64
/// characters, each a lowercase hex digit.
#[verifier::external_body]
pub(crate) fn hmac_sign_hex(key: &str, message: &str) -> (r: String)
    ensures
        r@ == hmac_sha256_hex(key@, message@),
        r@.len() == 64,
        is_lower_hex(r@),
{
    let mut mac = Hmac::<Sha256>::new_from_slice(key.as_bytes()).expect("HMAC accepts any key length");
    mac.update(message.as_bytes());
    hex::encode(mac.finalize().into_bytes())
}

} // verus!
