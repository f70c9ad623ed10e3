//! Length-prefixed framing for control-plane JSON messages:
//! `[u32 big-endian length][payload]`.

use vstd::prelude::*;
use vstd::slice::slice_subrange;
use crate::protocol::wire::{be_u32_at, be_u32_bytes, lemma_be_u32_round_trip};

verus! {

/// Default maximum payload size accepted by [`try_unframe`] (1 MiB).
pub const DEFAULT_MAX_PAYLOAD: u32 = 1048576u32;

/// Length prefix is 4 bytes (big-endian u32).
pub const PREFIX_LEN: usize = 4usize;

/// Errors that can happen while reading a framed payload from a buffer.
#[derive(Debug, PartialEq, Eq, Structural)]
pub enum FrameError {
    /// Declared payload length exceeds the caller's maximum.
    TooLarge { len: u32, max: u32 },
}

/// The frame of `payload`: its length as a big-endian u32, then the payload.
pub open spec fn spec_frame(payload: Seq<u8>) -> Seq<u8> {
    be_u32_bytes(payload.len() as u32) + payload
}

/// What [`try_unframe`] answers for `buf`: `Ok(None)` while the prefix or the
/// payload is incomplete, an error when the declared length exceeds `max`,
/// else the payload and the total frame length.
pub open spec fn spec_try_unframe(buf: Seq<u8>, max: u32) -> Result<Option<(Seq<u8>, int)>, FrameError> {
    if buf.len() < 4 {
        Ok(None)
    } else {
        let len = be_u32_at(buf, 0);
        if len > max {
            Err(FrameError::TooLarge { len, max })
        } else if buf.len() < 4 + len {
            Ok(None)
        } else {
            Ok(Some((buf.subrange(4, 4 + len), 4 + len)))
        }
    }
}

/// Encode a payload as `[BE u32 length][payload]`.
pub fn frame(payload: &[u8]) -> (out: Vec<u8>)
    requires
        payload@.len() <= u32::MAX,
    ensures
        out@ == spec_frame(payload@),
{
    let len = payload.len() as u32;
    let mut out: Vec<u8> = Vec::new();
    out.push(#[verifier::truncate] ((len >> 24u32) as u8));
    out.push(#[verifier::truncate] ((len >> 16u32) as u8));
    out.push(#[verifier::truncate] ((len >> 8u32) as u8));
    out.push(#[verifier::truncate] (len as u8));
    let mut i: usize = 0;
    while i < payload.len()
        invariant
            i <= payload@.len(),
            len == payload@.len(),
            out@ == be_u32_bytes(len) + payload@.subrange(0, i as int),
        decreases payload@.len() - i,
    {
        out.push(payload[i]);
        i = i + 1;
        assert(payload@.subrange(0, i as int) == payload@.subrange(0, i - 1).push(payload@[i - 1]));
    }
    assert(payload@.subrange(0, i as int) == payload@);
    out
}

/// Try to read one length-prefixed payload from the front of `buf`.
///
/// Returns `Ok(Some((payload, frame_total_len)))` when a complete frame is
/// available, `Ok(None)` when more bytes are needed, and
/// `Err(FrameError::TooLarge)` when the declared length exceeds `max_payload`.
pub fn try_unframe(buf: &[u8], max_payload: u32) -> (res: Result<Option<(&[u8], usize)>, FrameError>)
    ensures
        match (res, spec_try_unframe(buf@, max_payload)) {
            (Ok(None), Ok(None)) => true,
            (Ok(Some((p, n))), Ok(Some((sp, sn)))) => p@ == sp && n == sn,
            (Err(e), Err(se)) => e == se,
            _ => false,
        },
{
    if buf.len() < PREFIX_LEN {
        return Ok(None);
    }
    let len: u32 = ((buf[0] as u32) << 24u32) | ((buf[1] as u32) << 16u32) | ((buf[2] as u32)
        << 8u32) | (buf[3] as u32);
    if len > max_payload {
        return Err(FrameError::TooLarge { len, max: max_payload });
    }
    if buf.len() - PREFIX_LEN < len as usize {
        return Ok(None);
    }
    let total: usize = PREFIX_LEN + len as usize;
    Ok(Some((slice_subrange(buf, PREFIX_LEN, total), total)))
}

/// Unframing a frame gives back its payload and the frame's whole length,
/// whatever bytes follow it in the buffer.
pub proof fn law_unframe_frame(payload: Seq<u8>, rest: Seq<u8>, max: u32)
    requires
        payload.len() <= max,
    ensures
        spec_try_unframe(spec_frame(payload) + rest, max) == Ok::<Option<(Seq<u8>, int)>, FrameError>(
            Some((payload, (4 + payload.len()) as int))),
{
    let len = payload.len() as u32;
    lemma_be_u32_round_trip(len);
    let buf = spec_frame(payload) + rest;
    assert(be_u32_at(buf, 0) == be_u32_at(be_u32_bytes(len), 0));
    assert(buf.subrange(4, 4 + len) == payload);
}

} // verus!
