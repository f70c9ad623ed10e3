//! Length checks of the control-plane framing `[u32 BE length][payload]`.

use vstd::prelude::*;
use crate::protocol::envelope::DEFAULT_MAX_PAYLOAD;
use crate::protocol::wire::{be_u32_at, be_u32_bytes, lemma_be_u32_round_trip};
use crate::transport::error::TransportError;

verus! {

/// Payload cap of a control frame, as a `usize`.
pub const MAX_PAYLOAD_USIZE: usize = 1048576usize;

/// The prefix to write before a payload of `json_len` bytes, or
/// `FrameTooLarge(json_len)` when it exceeds the cap.
pub fn outgoing_prefix(json_len: usize) -> (r: Result<[u8; 4], TransportError>)
    ensures
        json_len > MAX_PAYLOAD_USIZE ==> (r matches Err(TransportError::FrameTooLarge(n)) && n == json_len),
        json_len <= MAX_PAYLOAD_USIZE ==> (r matches Ok(p) && p@ == be_u32_bytes(json_len as u32)),
{
    if json_len > MAX_PAYLOAD_USIZE {
        return Err(TransportError::FrameTooLarge(json_len));
    }
    let len = json_len as u32;
    let p: [u8; 4] = [
        #[verifier::truncate] ((len >> 24u32) as u8),
        #[verifier::truncate] ((len >> 16u32) as u8),
        #[verifier::truncate] ((len >> 8u32) as u8),
        #[verifier::truncate] (len as u8),
    ];
    assert(p@ =~= be_u32_bytes(len));
    Ok(p)
}

/// The payload length announced by a received prefix, or
/// `FrameTooLarge(len)` when it exceeds the cap.
pub fn incoming_len(prefix: &[u8; 4]) -> (r: Result<usize, TransportError>)
    ensures
        be_u32_at(prefix@, 0) > MAX_PAYLOAD_USIZE ==> (r matches Err(TransportError::FrameTooLarge(n))
            && n == be_u32_at(prefix@, 0)),
        be_u32_at(prefix@, 0) <= MAX_PAYLOAD_USIZE ==> (r matches Ok(n) && n == be_u32_at(prefix@, 0)),
{
    let len: u32 = ((prefix[0] as u32) << 24u32) | ((prefix[1] as u32) << 16u32) | ((prefix[2] as u32)
        << 8u32) | (prefix[3] as u32);
    if len as usize > MAX_PAYLOAD_USIZE {
        return Err(TransportError::FrameTooLarge(len as usize));
    }
    Ok(len as usize)
}

/// The payload cap equals the protocol's default maximum.
pub proof fn law_cap_matches_protocol()
    ensures
        MAX_PAYLOAD_USIZE == DEFAULT_MAX_PAYLOAD,
{
}

/// Law: a prefix written for a payload within the cap is read back as that
/// payload's length.
pub proof fn law_prefix_read_back(json_len: usize)
    requires
        json_len <= MAX_PAYLOAD_USIZE,
    ensures
        be_u32_at(be_u32_bytes(json_len as u32), 0) == json_len,
{
    lemma_be_u32_round_trip(json_len as u32);
}

} // verus!
