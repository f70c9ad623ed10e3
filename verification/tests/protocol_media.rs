use clearcam::protocol::media::{Codec, DecodeError, Flags, MediaHeader, MediaType, HEADER_LEN, MAGIC};
use clearcam::protocol::version::{Capability, PROTO_VER};

fn sample() -> MediaHeader {
    MediaHeader {
        media_type: MediaType::Video,
        flags: Flags::keyframe() | Flags::encoded() | Flags::full_range(),
        codec: Codec::Hevc,
        width: 1920,
        height: 1080,
        seq: 42,
        pts_usec: 1_234_567_890,
        payload_len: 12345,
    }
}

#[test]
fn known_bytes_encode() {
    let h = sample();
    let bytes = h.encode();
    let expected: [u8; HEADER_LEN] = [
        0xCC, 0x01, // magic
        0x01, // media type = video
        0x07, // flags = keyframe | encoded | fullRange
        0x01, // codec = HEVC
        0x00, 0x00, 0x00, // reserved[3]
        0x07, 0x80, // width 1920
        0x04, 0x38, // height 1080
        0x00, 0x00, 0x00, 0x2A, // seq 42
        0x00, 0x00, 0x00, 0x00, 0x49, 0x96, 0x02, 0xD2, // ptsUsec
        0x00, 0x00, 0x30, 0x39, // payloadLen 12345
    ];
    assert_eq!(bytes, expected);
}

#[test]
fn round_trip() {
    let h = sample();
    let back = MediaHeader::decode(&h.encode()).unwrap();
    assert_eq!(back, h);
}

#[test]
fn round_trip_zero() {
    let h = MediaHeader {
        media_type: MediaType::Video,
        flags: Flags::empty(),
        codec: Codec::Raw,
        width: 0,
        height: 0,
        seq: 0,
        pts_usec: 0,
        payload_len: 0,
    };
    let back = MediaHeader::decode(&h.encode()).unwrap();
    assert_eq!(back, h);
}

#[test]
fn too_short() {
    let err = MediaHeader::decode(&[0u8; HEADER_LEN - 1]).unwrap_err();
    assert_eq!(err, DecodeError::TooShort { got: HEADER_LEN - 1 });
}

#[test]
fn bad_magic() {
    let mut buf = sample().encode();
    buf[0] = 0;
    let err = MediaHeader::decode(&buf).unwrap_err();
    assert!(matches!(err, DecodeError::BadMagic(_)));
}

#[test]
fn unknown_codec() {
    let mut buf = sample().encode();
    buf[4] = 99;
    let err = MediaHeader::decode(&buf).unwrap_err();
    assert_eq!(err, DecodeError::UnknownCodec(99));
}

#[test]
fn unknown_media_type() {
    let mut buf = sample().encode();
    buf[2] = 99;
    let err = MediaHeader::decode(&buf).unwrap_err();
    assert_eq!(err, DecodeError::UnknownMediaType(99));
}

#[test]
fn reserved_bytes_ignored_on_decode() {
    let mut buf = sample().encode();
    buf[5] = 0xAB;
    buf[6] = 0xCD;
    buf[7] = 0xEF;
    let back = MediaHeader::decode(&buf).unwrap();
    assert_eq!(back, sample());
}

#[test]
fn flags_unknown_bits_truncated_on_decode() {
    let mut buf = sample().encode();
    buf[3] = 0xFF; // all bits set, including unknown ones
    let back = MediaHeader::decode(&buf).unwrap();
    assert_eq!(back.flags, Flags::keyframe() | Flags::encoded() | Flags::full_range() | Flags::config());
}

#[test]
fn proto_ver_is_one() {
    assert_eq!(PROTO_VER, 1);
}

#[test]
fn bad_magic_reports_the_bytes_found() {
    let mut buf = sample().encode();
    buf[0] = 0x12;
    buf[1] = 0x34;
    assert_eq!(MediaHeader::decode(&buf).unwrap_err(), DecodeError::BadMagic(0x1234));
    assert_eq!(MAGIC, 0xCC01);
}

#[test]
fn decode_reads_only_the_first_header_len_bytes() {
    let mut buf = sample().encode().to_vec();
    buf.extend_from_slice(&[1, 2, 3]);
    assert_eq!(MediaHeader::decode(&buf).unwrap(), sample());
}

#[test]
fn flag_bits_and_truncation() {
    assert_eq!(Flags::keyframe().bits(), 0x01);
    assert_eq!(Flags::encoded().bits(), 0x02);
    assert_eq!(Flags::full_range().bits(), 0x04);
    assert_eq!(Flags::config().bits(), 0x08);
    assert_eq!(Flags::all().bits(), 0x0F);
    assert_eq!(Flags::from_bits_truncate(0xF3).bits(), 0x03);
    assert!(Flags::all().contains(Flags::config()));
    assert!(!Flags::keyframe().contains(Flags::encoded()));
    assert_eq!(Flags::keyframe().union(Flags::config()).bits(), 0x09);
}

#[test]
fn codec_and_media_type_wire_values() {
    assert_eq!(Codec::Raw.wire(), 0);
    assert_eq!(Codec::Hevc.wire(), 1);
    assert_eq!(Codec::try_from(2u8), Ok(Codec::H264));
    assert_eq!(Codec::try_from(3u8), Err(DecodeError::UnknownCodec(3)));
    assert_eq!(MediaType::Video.wire(), 1);
    assert_eq!(MediaType::try_from(1u8), Ok(MediaType::Video));
    assert_eq!(MediaType::try_from(0u8), Err(DecodeError::UnknownMediaType(0)));
}

#[test]
fn capability_wire_strings() {
    assert_eq!(Capability::Hevc.as_str(), "hevc");
    assert_eq!(Capability::RawNv12.as_str(), "raw_nv12");
    assert_eq!(Capability::from_wire("h264"), Capability::H264);
    assert_eq!(Capability::from_wire("usb3"), Capability::Usb3);
    assert_eq!(Capability::from_wire("future_codec"), Capability::Other("future_codec".into()));
    assert_eq!(Capability::from_wire("future_codec").as_str(), "future_codec");
}

#[test]
fn known_capability_round_trip() {
    for cap in [Capability::Hevc, Capability::H264, Capability::RawNv12, Capability::Usb3, Capability::SpeedtestV1] {
        let s = cap.as_str().to_string();
        let back = Capability::from_wire(&s);
        assert_eq!(back, cap);
    }
}

#[test]
fn unknown_capability_parses_as_other() {
    let cap = Capability::from_wire("future_codec");
    assert_eq!(cap, Capability::Other("future_codec".into()));
    assert_eq!(cap.as_str(), "future_codec");
}

#[test]
fn capability_in_array_round_trip() {
    let caps = vec![Capability::Hevc, Capability::H264, Capability::Other("x".into())];
    let s: Vec<&str> = caps.iter().map(|c| c.as_str()).collect();
    assert_eq!(s, vec!["hevc", "h264", "x"]);
    let back: Vec<Capability> = s.iter().map(|w| Capability::from_wire(w)).collect();
    assert_eq!(back, caps);
}
