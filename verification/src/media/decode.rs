//! Passthrough decoder: synthesizes a `width×height` NV12 frame whose Y plane
//! carries the low byte of `seq`. It exercises the encoded routing path; it
//! is not a real decoder.

use vstd::prelude::*;
use bytes::Bytes;
use crate::media::buffer::{bytes_from_vec, bytes_view};
use crate::media::frame::{Frame, FrameHint};
use crate::protocol::media::Codec;

verus! {

/// The passthrough decoder.
#[derive(Debug, Clone, Copy)]
pub struct PassthroughDecoder;

/// `n` copies of `b`.
fn filled(b: u8, n: usize) -> (v: Vec<u8>)
    ensures
        v@ == Seq::new(n as nat, |i: int| b),
{
    let mut v: Vec<u8> = Vec::new();
    let mut i: usize = 0;
    while i < n
        invariant
            i <= n,
            v@ == Seq::new(i as nat, |k: int| b),
        decreases n - i,
    {
        v.push(b);
        i = i + 1;
        assert(v@ =~= Seq::new(i as nat, |k: int| b));
    }
    v
}

impl PassthroughDecoder {
    /// Decode an access unit: a config-only unit yields nothing; anything
    /// else yields a raw frame of the hinted geometry whose Y bytes are
    /// `seq % 256` and whose CbCr bytes are 128.
    pub fn decode(&self, codec: Codec, payload: Bytes, hint: FrameHint) -> (r: Option<Frame>)
        requires
            hint.width * hint.height + hint.width * hint.height / 2 <= usize::MAX,
        ensures
            hint.config ==> r is None,
            !hint.config ==> (r matches Some(f) && f.width == hint.width && f.height == hint.height && f.pts_usec
                == hint.pts_usec && f.seq == hint.seq && f.codec == Codec::Raw && f.full_range == hint.full_range
                && bytes_view(f.plane_y) == Seq::new((hint.width * hint.height) as nat, |i: int| (hint.seq % 256) as u8)
                && bytes_view(f.plane_uv) == Seq::new((hint.width * hint.height / 2) as nat, |i: int| 128u8)),
    {
        if hint.config {
            return None;
        }
        assert(0 <= hint.width * hint.height <= usize::MAX) by (nonlinear_arith)
            requires
                hint.width * hint.height + hint.width * hint.height / 2 <= usize::MAX,
                hint.width >= 0,
                hint.height >= 0,
        ;
        let w = hint.width as usize;
        let h = hint.height as usize;
        let y_size = w * h;
        let uv_size = w * h / 2;
        let y_byte: u8 = (hint.seq % 256) as u8;
        let plane_y = bytes_from_vec(filled(y_byte, y_size));
        let plane_uv = bytes_from_vec(filled(128u8, uv_size));
        Some(
            Frame {
                width: hint.width,
                height: hint.height,
                pts_usec: hint.pts_usec,
                seq: hint.seq,
                codec: Codec::Raw,
                plane_y,
                plane_uv,
                full_range: hint.full_range,
            },
        )
    }
}

} // verus!
