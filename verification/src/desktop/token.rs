//! The random token that the QR code carries and Wi-Fi `AUTH` must present.

use vstd::prelude::*;
use rand::RngCore;
use crate::desktop::b64::{b64_nopad, base64_url, is_url_safe_char, law_b64_nopad_len, law_url_encoding_is_url_safe};

verus! {

/// `rand::rngs::OsRng.try_fill_bytes`: `n` bytes from the operating
/// system's random source, or `None` when that source fails. Only their
/// number is promised (the values are random). `requires` keeps the buffer's
/// allocation within what `vec!` accepts.
#[verifier::external_body]
pub(crate) fn random_bytes(n: usize) -> (r: Option<Vec<u8>>)
    requires
        n <= isize::MAX,
    ensures
        r matches Some(v) ==> v@.len() == n,
{
    let mut buf = vec![0u8; n];
    match rand::rngs::OsRng.try_fill_bytes(&mut buf) {
        Ok(()) => Some(buf),
        Err(_) => None,
    }
}

/// The number of random bytes behind a QR token.
pub const QR_TOKEN_BYTES: usize = 24;

/// A fresh QR token: the URL-safe base64 of 24 random bytes, 32 characters
/// long; `None` when the operating system's random source fails.
pub fn new_qr_token() -> (r: Option<String>)
    ensures
        r matches Some(t) ==> {
            &&& exists|b: Seq<u8>| b.len() == QR_TOKEN_BYTES && t@ == b64_nopad(true, b)
            &&& t@.len() == 32
            &&& forall|i: int| 0 <= i < t@.len() ==> is_url_safe_char(#[trigger] t@[i])
        },
{
    match random_bytes(QR_TOKEN_BYTES) {
        None => None,
        Some(bytes) => {
            let t = base64_url(bytes.as_slice());
            proof {
                law_b64_nopad_len(true, bytes@);
                law_url_encoding_is_url_safe(bytes@);
            }
            Some(t)
        },
    }
}

} // verus!
