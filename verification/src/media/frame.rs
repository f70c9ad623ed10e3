//! The canonical in-pipeline frame, the media frame read off the socket, and
//! the rules that turn one into the other.

use vstd::prelude::*;
use bytes::Bytes;
use crate::media::buffer::{bytes_clone, bytes_is_empty, bytes_len, bytes_slice, bytes_view};
use crate::media::counter::{is_speedtest_marker, speedtest_step_index, SpeedtestArrival, SPEEDTEST_SEQ_BASE};
use crate::protocol::media::{Codec, DecodeError, Flags, MediaHeader, HEADER_LEN, spec_decode};
use crate::transport::error::TransportError;

verus! {

/// 16 MiB cap on a media payload (1080p NV12 is about 3 MiB).
pub const MAX_FRAME_BYTES: u32 = 16777216u32;

/// Errors of the media pipeline.
#[derive(Debug)]
pub enum MediaPipelineError {
    Transport(TransportError),
    Header(DecodeError),
    PayloadTooLarge(u32),
    UnsupportedCodec(Codec),
    PlaneSizeMismatch { got: usize, expected: usize },
}

/// A decoded NV12 frame with its presentation timestamp.
#[derive(Debug)]
pub struct Frame {
    pub width: u16,
    pub height: u16,
    pub pts_usec: u64,
    pub seq: u32,
    pub codec: Codec,
    /// Y plane: `width*height` bytes (stride = width).
    pub plane_y: Bytes,
    /// Interleaved CbCr plane: `width*height/2` bytes; empty for non-raw frames.
    pub plane_uv: Bytes,
    pub full_range: bool,
}

impl Frame {
    /// Whether the frame is raw NV12 with both planes present.
    pub fn is_raw_nv12(&self) -> (b: bool)
        ensures
            b == (self.codec == Codec::Raw && bytes_view(self.plane_y).len() > 0 && bytes_view(self.plane_uv).len()
                > 0),
    {
        self.codec == Codec::Raw && !bytes_is_empty(&self.plane_y) && !bytes_is_empty(&self.plane_uv)
    }

    /// Another handle on the same frame.
    pub fn duplicate(&self) -> (f: Frame)
        ensures
            f.width == self.width && f.height == self.height && f.pts_usec == self.pts_usec && f.seq == self.seq
                && f.codec == self.codec && f.full_range == self.full_range,
            bytes_view(f.plane_y) == bytes_view(self.plane_y),
            bytes_view(f.plane_uv) == bytes_view(self.plane_uv),
    {
        Frame {
            width: self.width,
            height: self.height,
            pts_usec: self.pts_usec,
            seq: self.seq,
            codec: self.codec,
            plane_y: bytes_clone(&self.plane_y),
            plane_uv: bytes_clone(&self.plane_uv),
            full_range: self.full_range,
        }
    }
}

/// Decoder hints taken from a media header.
#[derive(Debug, Clone, Copy, PartialEq, Eq, Structural)]
pub struct FrameHint {
    pub width: u16,
    pub height: u16,
    pub pts_usec: u64,
    pub seq: u32,
    pub keyframe: bool,
    pub config: bool,
    pub full_range: bool,
}

/// A header and its payload, as read off the media socket.
#[derive(Debug)]
pub struct MediaFrame {
    pub header: MediaHeader,
    pub payload: Bytes,
}

/// Sizes of the two NV12 planes of a `w×h` frame: `w*h` and `w*h/2`.
pub open spec fn nv12_sizes(w: u16, h: u16) -> (int, int) {
    (w * h, w * h / 2)
}

/// Split an NV12 payload (`w*h` Y bytes then `w*h/2` CbCr bytes) into its
/// two planes, sharing the payload's buffer; a payload of any other length
/// is a `PlaneSizeMismatch`.
pub fn split_nv12(payload: Bytes, width: u16, height: u16) -> (r: Result<(Bytes, Bytes), MediaPipelineError>)
    requires
        width * height + width * height / 2 <= usize::MAX,
    ensures
        ({
            let (y, uv) = nv12_sizes(width, height);
            let p = bytes_view(payload);
            &&& p.len() == y + uv ==> (r matches Ok((a, b)) && bytes_view(a) == p.subrange(0, y) && bytes_view(b)
                == p.subrange(y, p.len() as int))
            &&& p.len() != y + uv ==> (r matches Err(MediaPipelineError::PlaneSizeMismatch { got, expected })
                && got == p.len() && expected == y + uv)
        }),
{
    assert(0 <= width * height <= usize::MAX) by (nonlinear_arith)
        requires
            width * height + width * height / 2 <= usize::MAX,
            width >= 0,
            height >= 0,
    ;
    let w = width as usize;
    let h = height as usize;
    let y_size = w * h;
    let uv_size = w * h / 2;
    let expected = y_size + uv_size;
    let len = bytes_len(&payload);
    if len != expected {
        return Err(MediaPipelineError::PlaneSizeMismatch { got: len, expected });
    }
    let y = bytes_slice(&payload, 0, y_size);
    let uv = bytes_slice(&payload, y_size, len);
    Ok((y, uv))
}

/// Decode a header read off the media socket and check its payload length
/// against [`MAX_FRAME_BYTES`].
pub fn parse_frame_header(buf: &[u8; HEADER_LEN]) -> (r: Result<MediaHeader, MediaPipelineError>)
    ensures
        match spec_decode(buf@) {
            Err(e) => r matches Err(MediaPipelineError::Header(e2)) && e2 == e,
            Ok(h) => if h.payload_len > MAX_FRAME_BYTES {
                r matches Err(MediaPipelineError::PayloadTooLarge(n)) && n == h.payload_len
            } else {
                r == Ok::<MediaHeader, MediaPipelineError>(h)
            },
        },
{
    match MediaHeader::decode(buf.as_slice()) {
        Err(e) => Err(MediaPipelineError::Header(e)),
        Ok(h) => {
            if h.payload_len > MAX_FRAME_BYTES {
                Err(MediaPipelineError::PayloadTooLarge(h.payload_len))
            } else {
                Ok(h)
            }
        },
    }
}

/// Where a media frame goes.
#[derive(Debug)]
pub enum FrameRoute {
    /// Speedtest filler: count its bytes, never show it.
    Speedtest(SpeedtestArrival),
    /// Video for the sinks.
    Video,
}

/// Speedtest filler (a `seq` in the reserved high range) goes to the byte
/// counter with its step index and payload size; everything else is video.
pub fn route_frame(frame: &MediaFrame) -> (r: FrameRoute)
    ensures
        frame.header.seq >= SPEEDTEST_SEQ_BASE ==> (r matches FrameRoute::Speedtest(a) && a.step_index
            == frame.header.seq - SPEEDTEST_SEQ_BASE && a.payload_bytes == bytes_view(frame.payload).len()),
        frame.header.seq < SPEEDTEST_SEQ_BASE ==> r is Video,
{
    if is_speedtest_marker(frame.header.seq) {
        FrameRoute::Speedtest(
            SpeedtestArrival {
                step_index: speedtest_step_index(frame.header.seq),
                payload_bytes: bytes_len(&frame.payload) as u64,
            },
        )
    } else {
        FrameRoute::Video
    }
}

/// What to do with a video frame.
#[derive(Debug)]
pub enum IngestPlan {
    /// A raw frame, split into planes, ready for the sinks.
    Deliver(Frame),
    /// An encoded frame: hand the payload to the decoder with these hints;
    /// deliver what it returns, if anything.
    Decode { codec: Codec, hint: FrameHint },
}

/// Raw frames are split into NV12 planes and delivered as they are;
/// HEVC/H.264 frames go to the decoder with hints from the header.
pub fn plan_ingest(raw: &MediaFrame) -> (r: Result<IngestPlan, MediaPipelineError>)
    requires
        raw.header.width * raw.header.height + raw.header.width * raw.header.height / 2 <= usize::MAX,
    ensures
        ({
            let h = raw.header;
            let (y, uv) = nv12_sizes(h.width, h.height);
            let p = bytes_view(raw.payload);
            match h.codec {
                Codec::Raw => if p.len() == y + uv {
                    r matches Ok(IngestPlan::Deliver(f)) && f.width == h.width && f.height == h.height && f.pts_usec
                        == h.pts_usec && f.seq == h.seq && f.codec == Codec::Raw && f.full_range == (h.flags.bits & 4
                        == 4) && bytes_view(f.plane_y) == p.subrange(0, y) && bytes_view(f.plane_uv) == p.subrange(
                        y,
                        p.len() as int,
                    )
                } else {
                    r matches Err(MediaPipelineError::PlaneSizeMismatch { got, expected }) && got == p.len()
                        && expected == y + uv
                },
                _ => r matches Ok(IngestPlan::Decode { codec, hint }) && codec == h.codec && hint == (FrameHint {
                    width: h.width,
                    height: h.height,
                    pts_usec: h.pts_usec,
                    seq: h.seq,
                    keyframe: h.flags.bits & 1 == 1,
                    config: h.flags.bits & 8 == 8,
                    full_range: h.flags.bits & 4 == 4,
                }),
            }
        }),
{
    let h = raw.header;
    match h.codec {
        Codec::Raw => {
            let (y, uv) = match split_nv12(bytes_clone(&raw.payload), h.width, h.height) {
                Ok(p) => p,
                Err(e) => {
                    return Err(e);
                },
            };
            Ok(
                IngestPlan::Deliver(
                    Frame {
                        width: h.width,
                        height: h.height,
                        pts_usec: h.pts_usec,
                        seq: h.seq,
                        codec: Codec::Raw,
                        plane_y: y,
                        plane_uv: uv,
                        full_range: h.flags.contains(Flags::full_range()),
                    },
                ),
            )
        },
        codec => Ok(
            IngestPlan::Decode {
                codec,
                hint: FrameHint {
                    width: h.width,
                    height: h.height,
                    pts_usec: h.pts_usec,
                    seq: h.seq,
                    keyframe: h.flags.contains(Flags::keyframe()),
                    config: h.flags.contains(Flags::config()),
                    full_range: h.flags.contains(Flags::full_range()),
                },
            },
        ),
    }
}

/// Law: the two planes of a successful split, joined, are the payload.
pub proof fn law_planes_rejoin(payload: Seq<u8>, y_plane: Seq<u8>, uv_plane: Seq<u8>, y_len: int)
    requires
        0 <= y_len <= payload.len(),
        y_plane == payload.subrange(0, y_len),
        uv_plane == payload.subrange(y_len, payload.len() as int),
    ensures
        y_plane + uv_plane == payload,
{
    assert(y_plane + uv_plane =~= payload);
}

} // verus!
