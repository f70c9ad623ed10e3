//! Binary media header: 28 bytes, big-endian, carried before every media payload.

use vstd::prelude::*;
use vstd::std_specs::convert::TryFromSpecImpl;
use vstd::std_specs::ops::BitOrSpecImpl;
use crate::protocol::wire::{
    be_u16_at, be_u16_bytes, be_u32_at, be_u32_bytes, be_u64_at, be_u64_bytes, lemma_be_u16_round_trip,
    lemma_be_u32_round_trip, lemma_be_u64_round_trip,
};

verus! {

/// Magic marker (also identifies the media-format version).
pub const MAGIC: u16 = 0xCC01u16;

/// Fixed header length in bytes.
pub const HEADER_LEN: usize = 28usize;

/// The bits that name a known header flag.
pub const KNOWN_FLAG_BITS: u8 = 0x0Fu8;

/// Header flags (low byte). Only the four known bits are ever set.
#[derive(Debug, Clone, Copy, PartialEq, Eq, Hash, Structural)]
pub struct Flags {
    pub bits: u8,
}

impl Flags {
    /// Frame is a keyframe / random-access point.
    pub fn keyframe() -> (f: Flags)
        ensures
            f.spec_bits() == 1u8,
    {
        Flags { bits: 1u8 }
    }

    /// Payload is an encoded access unit (vs raw).
    pub fn encoded() -> (f: Flags)
        ensures
            f.spec_bits() == 2u8,
    {
        Flags { bits: 2u8 }
    }

    /// YUV uses full-range sampling (vs video-range).
    pub fn full_range() -> (f: Flags)
        ensures
            f.spec_bits() == 4u8,
    {
        Flags { bits: 4u8 }
    }

    /// Payload contains codec configuration (e.g. VPS/SPS/PPS).
    pub fn config() -> (f: Flags)
        ensures
            f.spec_bits() == 8u8,
    {
        Flags { bits: 8u8 }
    }

    /// The raw bits of the flag set.
    pub open spec fn spec_bits(self) -> u8 {
        self.bits
    }

    /// A flag set is well formed when it holds known bits only.
    pub open spec fn wf(self) -> bool {
        self.bits & KNOWN_FLAG_BITS == self.bits
    }

    /// The empty flag set.
    pub fn empty() -> (f: Flags)
        ensures
            f.spec_bits() == 0,
    {
        Flags { bits: 0 }
    }

    /// All known flags.
    pub fn all() -> (f: Flags)
        ensures
            f.spec_bits() == KNOWN_FLAG_BITS,
    {
        Flags { bits: KNOWN_FLAG_BITS }
    }

    /// The raw bits.
    pub fn bits(&self) -> (b: u8)
        ensures
            b == self.spec_bits(),
    {
        self.bits
    }

    /// Keep the known bits of `bits`, drop the others.
    pub fn from_bits_truncate(bits: u8) -> (f: Flags)
        ensures
            f.spec_bits() == bits & KNOWN_FLAG_BITS,
            f.wf(),
    {
        let b = bits & KNOWN_FLAG_BITS;
        assert(b & KNOWN_FLAG_BITS == b) by (bit_vector)
            requires
                b == bits & 0x0Fu8,
        ;
        Flags { bits: b }
    }

    /// The union of two flag sets.
    pub fn union(self, other: Flags) -> (f: Flags)
        ensures
            f.spec_bits() == self.spec_bits() | other.spec_bits(),
    {
        Flags { bits: self.bits | other.bits }
    }

    /// Whether every flag of `other` is set in `self`.
    pub fn contains(&self, other: Flags) -> (b: bool)
        ensures
            b == (self.spec_bits() & other.spec_bits() == other.spec_bits()),
    {
        self.bits & other.bits == other.bits
    }
}

impl core::ops::BitOr for Flags {
    type Output = Flags;

    fn bitor(self, rhs: Flags) -> (f: Flags) {
        Flags { bits: self.bits | rhs.bits }
    }
}

impl BitOrSpecImpl for Flags {
    open spec fn obeys_bitor_spec() -> bool {
        true
    }

    open spec fn bitor_req(self, rhs: Flags) -> bool {
        true
    }

    open spec fn bitor_spec(self, rhs: Flags) -> Flags {
        Flags { bits: self.bits | rhs.bits }
    }
}

/// Errors from [`MediaHeader::decode`].
#[derive(Debug, Clone, Copy, PartialEq, Eq, Structural)]
pub enum DecodeError {
    /// Buffer shorter than [`HEADER_LEN`].
    TooShort { got: usize },
    /// The first two bytes are not [`MAGIC`].
    BadMagic(u16),
    /// The media-type byte names no known media type.
    UnknownMediaType(u8),
    /// The codec byte names no known codec.
    UnknownCodec(u8),
}

/// Kind of media carried by a frame.
#[derive(Debug, Clone, Copy, PartialEq, Eq, Hash, Structural)]
pub enum MediaType {
    Video,
}

impl MediaType {
    /// The wire byte of the media type.
    pub open spec fn spec_wire(self) -> u8 {
        match self {
            MediaType::Video => 1u8,
        }
    }

    /// The wire byte of the media type.
    pub fn wire(self) -> (b: u8)
        ensures
            b == self.spec_wire(),
    {
        match self {
            MediaType::Video => 1u8,
        }
    }
}

/// The media type that a wire byte names, or the error for an unknown one.
pub open spec fn spec_media_type_from(v: u8) -> Result<MediaType, DecodeError> {
    if v == 1 {
        Ok(MediaType::Video)
    } else {
        Err(DecodeError::UnknownMediaType(v))
    }
}

impl TryFrom<u8> for MediaType {
    type Error = DecodeError;

    fn try_from(v: u8) -> (r: Result<MediaType, DecodeError>) {
        if v == 1 {
            Ok(MediaType::Video)
        } else {
            Err(DecodeError::UnknownMediaType(v))
        }
    }
}

impl TryFromSpecImpl<u8> for MediaType {
    open spec fn obeys_try_from_spec() -> bool {
        true
    }

    open spec fn try_from_spec(v: u8) -> Result<MediaType, DecodeError> {
        spec_media_type_from(v)
    }
}

/// Video codec of a frame's payload.
#[derive(Debug, Clone, Copy, PartialEq, Eq, Hash, Structural)]
pub enum Codec {
    Raw,
    Hevc,
    H264,
}

impl Codec {
    /// The wire byte of the codec.
    pub open spec fn spec_wire(self) -> u8 {
        match self {
            Codec::Raw => 0u8,
            Codec::Hevc => 1u8,
            Codec::H264 => 2u8,
        }
    }

    /// The wire byte of the codec.
    pub fn wire(self) -> (b: u8)
        ensures
            b == self.spec_wire(),
    {
        match self {
            Codec::Raw => 0u8,
            Codec::Hevc => 1u8,
            Codec::H264 => 2u8,
        }
    }
}

/// The codec that a wire byte names, or the error for an unknown one.
pub open spec fn spec_codec_from(v: u8) -> Result<Codec, DecodeError> {
    if v == 0 {
        Ok(Codec::Raw)
    } else if v == 1 {
        Ok(Codec::Hevc)
    } else if v == 2 {
        Ok(Codec::H264)
    } else {
        Err(DecodeError::UnknownCodec(v))
    }
}

impl TryFrom<u8> for Codec {
    type Error = DecodeError;

    fn try_from(v: u8) -> (r: Result<Codec, DecodeError>) {
        if v == 0 {
            Ok(Codec::Raw)
        } else if v == 1 {
            Ok(Codec::Hevc)
        } else if v == 2 {
            Ok(Codec::H264)
        } else {
            Err(DecodeError::UnknownCodec(v))
        }
    }
}

impl TryFromSpecImpl<u8> for Codec {
    open spec fn obeys_try_from_spec() -> bool {
        true
    }

    open spec fn try_from_spec(v: u8) -> Result<Codec, DecodeError> {
        spec_codec_from(v)
    }
}


/// The 28-byte fixed binary header carried before every media payload.
#[derive(Debug, Clone, Copy, PartialEq, Eq, Hash, Structural)]
pub struct MediaHeader {
    pub media_type: MediaType,
    pub flags: Flags,
    pub codec: Codec,
    pub width: u16,
    pub height: u16,
    pub seq: u32,
    pub pts_usec: u64,
    pub payload_len: u32,
}

/// The wire bytes of a header: magic, media type, flags, codec, three zero
/// reserved bytes, then width, height, seq, pts and payload length, all big-endian.
pub open spec fn spec_encode(h: MediaHeader) -> Seq<u8> {
    be_u16_bytes(MAGIC) + seq![h.media_type.spec_wire(), h.flags.bits, h.codec.spec_wire(), 0u8, 0u8, 0u8]
        + be_u16_bytes(h.width) + be_u16_bytes(h.height) + be_u32_bytes(h.seq) + be_u64_bytes(
        h.pts_usec,
    ) + be_u32_bytes(h.payload_len)
}

/// What [`MediaHeader::decode`] answers for `buf`. Checks run in order: length,
/// magic, media type, codec. Unknown flag bits are dropped and the reserved
/// bytes `buf[5..8]` are ignored.
pub open spec fn spec_decode(buf: Seq<u8>) -> Result<MediaHeader, DecodeError> {
    if buf.len() < HEADER_LEN {
        Err(DecodeError::TooShort { got: buf.len() as usize })
    } else if be_u16_at(buf, 0) != MAGIC {
        Err(DecodeError::BadMagic(be_u16_at(buf, 0)))
    } else {
        match spec_media_type_from(buf[2]) {
            Err(e) => Err(e),
            Ok(media_type) => match spec_codec_from(buf[4]) {
                Err(e) => Err(e),
                Ok(codec) => Ok(
                    MediaHeader {
                        media_type,
                        flags: Flags { bits: buf[3] & KNOWN_FLAG_BITS },
                        codec,
                        width: be_u16_at(buf, 8),
                        height: be_u16_at(buf, 10),
                        seq: be_u32_at(buf, 12),
                        pts_usec: be_u64_at(buf, 16),
                        payload_len: be_u32_at(buf, 24),
                    },
                ),
            },
        }
    }
}

impl MediaHeader {
    /// Encode the header as 28 big-endian bytes. The magic and the three
    /// reserved bytes are written automatically.
    pub fn encode(&self) -> (out: [u8; HEADER_LEN])
        ensures
            out@ == spec_encode(*self),
    {
        let mt = self.media_type.wire();
        let cd = self.codec.wire();
        let out: [u8; HEADER_LEN] = [
            #[verifier::truncate] ((MAGIC >> 8u16) as u8),
            #[verifier::truncate] (MAGIC as u8),
            mt,
            self.flags.bits,
            cd,
            0u8,
            0u8,
            0u8,
            #[verifier::truncate] ((self.width >> 8u16) as u8),
            #[verifier::truncate] (self.width as u8),
            #[verifier::truncate] ((self.height >> 8u16) as u8),
            #[verifier::truncate] (self.height as u8),
            #[verifier::truncate] ((self.seq >> 24u32) as u8),
            #[verifier::truncate] ((self.seq >> 16u32) as u8),
            #[verifier::truncate] ((self.seq >> 8u32) as u8),
            #[verifier::truncate] (self.seq as u8),
            #[verifier::truncate] ((self.pts_usec >> 56u64) as u8),
            #[verifier::truncate] ((self.pts_usec >> 48u64) as u8),
            #[verifier::truncate] ((self.pts_usec >> 40u64) as u8),
            #[verifier::truncate] ((self.pts_usec >> 32u64) as u8),
            #[verifier::truncate] ((self.pts_usec >> 24u64) as u8),
            #[verifier::truncate] ((self.pts_usec >> 16u64) as u8),
            #[verifier::truncate] ((self.pts_usec >> 8u64) as u8),
            #[verifier::truncate] (self.pts_usec as u8),
            #[verifier::truncate] ((self.payload_len >> 24u32) as u8),
            #[verifier::truncate] ((self.payload_len >> 16u32) as u8),
            #[verifier::truncate] ((self.payload_len >> 8u32) as u8),
            #[verifier::truncate] (self.payload_len as u8),
        ];
        assert(out@ =~= spec_encode(*self));
        out
    }

    /// Decode from a buffer of at least [`HEADER_LEN`] bytes. Reserved bytes
    /// are ignored (forward compatibility) and unknown flag bits are dropped.
    pub fn decode(buf: &[u8]) -> (r: Result<MediaHeader, DecodeError>)
        ensures
            r == spec_decode(buf@),
    {
        if buf.len() < HEADER_LEN {
            return Err(DecodeError::TooShort { got: buf.len() });
        }
        let magic: u16 = ((buf[0] as u16) << 8u16) | (buf[1] as u16);
        if magic != MAGIC {
            return Err(DecodeError::BadMagic(magic));
        }
        let media_type = match MediaType::try_from(buf[2]) {
            Ok(m) => m,
            Err(e) => {
                return Err(e);
            },
        };
        let flags = Flags::from_bits_truncate(buf[3]);
        let codec = match Codec::try_from(buf[4]) {
            Ok(c) => c,
            Err(e) => {
                return Err(e);
            },
        };
        let width: u16 = ((buf[8] as u16) << 8u16) | (buf[9] as u16);
        let height: u16 = ((buf[10] as u16) << 8u16) | (buf[11] as u16);
        let seq: u32 = ((buf[12] as u32) << 24u32) | ((buf[13] as u32) << 16u32) | ((buf[14] as u32)
            << 8u32) | (buf[15] as u32);
        let pts_usec: u64 = ((buf[16] as u64) << 56u64) | ((buf[17] as u64) << 48u64) | ((
        buf[18] as u64) << 40u64) | ((buf[19] as u64) << 32u64) | ((buf[20] as u64) << 24u64) | ((
        buf[21] as u64) << 16u64) | ((buf[22] as u64) << 8u64) | (buf[23] as u64);
        let payload_len: u32 = ((buf[24] as u32) << 24u32) | ((buf[25] as u32) << 16u32) | ((
        buf[26] as u32) << 8u32) | (buf[27] as u32);
        Ok(MediaHeader { media_type, flags, codec, width, height, seq, pts_usec, payload_len })
    }
}

/// Decoding the encoding of a header whose flags hold known bits only gives
/// the header back.
pub proof fn law_decode_encode(h: MediaHeader)
    requires
        h.flags.wf(),
    ensures
        spec_decode(spec_encode(h)) == Ok::<MediaHeader, DecodeError>(h),
{
    let b = spec_encode(h);
    lemma_be_u16_round_trip(MAGIC);
    lemma_be_u16_round_trip(h.width);
    lemma_be_u16_round_trip(h.height);
    lemma_be_u32_round_trip(h.seq);
    lemma_be_u64_round_trip(h.pts_usec);
    lemma_be_u32_round_trip(h.payload_len);
    assert(be_u16_at(b, 0) == be_u16_at(be_u16_bytes(MAGIC), 0));
    assert(be_u16_at(b, 8) == be_u16_at(be_u16_bytes(h.width), 0));
    assert(be_u16_at(b, 10) == be_u16_at(be_u16_bytes(h.height), 0));
    assert(be_u32_at(b, 12) == be_u32_at(be_u32_bytes(h.seq), 0));
    assert(be_u64_at(b, 16) == be_u64_at(be_u64_bytes(h.pts_usec), 0));
    assert(be_u32_at(b, 24) == be_u32_at(be_u32_bytes(h.payload_len), 0));
    match h.media_type {
        MediaType::Video => {},
    }
    match h.codec {
        Codec::Raw => {},
        Codec::Hevc => {},
        Codec::H264 => {},
    }
}

/// Decoding never depends on the three reserved bytes `buf[5..8]`.
pub proof fn law_decode_ignores_reserved(buf: Seq<u8>, r0: u8, r1: u8, r2: u8)
    requires
        buf.len() >= HEADER_LEN,
    ensures
        spec_decode(buf.update(5, r0).update(6, r1).update(7, r2)) == spec_decode(buf),
{
    let b2 = buf.update(5, r0).update(6, r1).update(7, r2);
    assert(be_u16_at(b2, 0) == be_u16_at(buf, 0));
    assert(be_u16_at(b2, 8) == be_u16_at(buf, 8));
    assert(be_u16_at(b2, 10) == be_u16_at(buf, 10));
    assert(be_u32_at(b2, 12) == be_u32_at(buf, 12));
    assert(be_u64_at(b2, 16) == be_u64_at(buf, 16));
    assert(be_u32_at(b2, 24) == be_u32_at(buf, 24));
}

} // verus!
