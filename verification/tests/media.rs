use bytes::Bytes;
use clearcam::media::counter::{
    is_speedtest_marker, speedtest_step_index, step_totals, SpeedTestCounter, SpeedtestArrival, SPEEDTEST_SEQ_BASE,
};
use clearcam::media::decode::PassthroughDecoder;
use clearcam::media::frame::{
    parse_frame_header, plan_ingest, route_frame, split_nv12, Frame, FrameHint, FrameRoute, IngestPlan, MediaFrame,
    MediaPipelineError, MAX_FRAME_BYTES,
};
use clearcam::protocol::media::{Codec, DecodeError, Flags, MediaHeader, MediaType};

#[test]
fn splits_evenly() {
    let buf = Bytes::from(vec![0u8; 16 * 16 + 16 * 16 / 2]);
    let (y, uv) = split_nv12(buf, 16, 16).unwrap();
    assert_eq!(y.len(), 256);
    assert_eq!(uv.len(), 128);
}

#[test]
fn splits_zero_size() {
    let buf = Bytes::new();
    let (y, uv) = split_nv12(buf, 0, 0).unwrap();
    assert!(y.is_empty());
    assert!(uv.is_empty());
}

#[test]
fn rejects_short_payload() {
    let buf = Bytes::from(vec![0u8; 100]);
    let err = split_nv12(buf, 16, 16).unwrap_err();
    assert!(matches!(err, MediaPipelineError::PlaneSizeMismatch { .. }));
}

#[test]
fn split_planes_keep_their_bytes() {
    let payload: Vec<u8> = (0..6u8).collect();
    let (y, uv) = split_nv12(Bytes::from(payload), 2, 2).unwrap();
    assert_eq!(&y[..], &[0, 1, 2, 3]);
    assert_eq!(&uv[..], &[4, 5]);
    match split_nv12(Bytes::from(vec![0u8; 7]), 2, 2) {
        Err(MediaPipelineError::PlaneSizeMismatch { got, expected }) => assert_eq!((got, expected), (7, 6)),
        other => panic!("expected mismatch, got {other:?}"),
    }
}

#[test]
fn is_raw_nv12_checks_planes_and_codec() {
    let f = Frame {
        width: 1280,
        height: 720,
        pts_usec: 0,
        seq: 0,
        codec: Codec::Raw,
        plane_y: Bytes::from(vec![0u8; 1280 * 720]),
        plane_uv: Bytes::from(vec![0u8; 1280 * 720 / 2]),
        full_range: true,
    };
    assert!(f.is_raw_nv12());
}

#[test]
fn encoded_frame_is_not_raw_nv12() {
    let f = Frame {
        width: 1280,
        height: 720,
        pts_usec: 0,
        seq: 0,
        codec: Codec::Hevc,
        plane_y: Bytes::new(),
        plane_uv: Bytes::new(),
        full_range: true,
    };
    assert!(!f.is_raw_nv12());
}

#[test]
fn passthrough_synthesizes_nv12_frame_from_hint() {
    let d = PassthroughDecoder;
    let hint = FrameHint { width: 16, height: 16, pts_usec: 100, seq: 7, keyframe: true, config: false, full_range: true };
    let frame = d.decode(Codec::Hevc, Bytes::from(vec![0xAB; 32]), hint).unwrap();
    assert_eq!(frame.width, 16);
    assert_eq!(frame.plane_y.len(), 256);
    assert_eq!(frame.plane_uv.len(), 128);
    assert_eq!(frame.seq, 7);
    assert_eq!(frame.plane_y[0], 7);
    assert_eq!(frame.plane_uv[0], 128);
    assert_eq!(frame.pts_usec, 100);
    assert!(frame.is_raw_nv12());
}

#[test]
fn config_frame_is_swallowed() {
    let d = PassthroughDecoder;
    let hint = FrameHint { width: 16, height: 16, pts_usec: 0, seq: 0, keyframe: false, config: true, full_range: true };
    assert!(d.decode(Codec::Hevc, Bytes::from(vec![1, 2, 3]), hint).is_none());
}

#[test]
fn passthrough_y_plane_carries_low_byte_of_seq() {
    let hint = FrameHint { width: 2, height: 2, pts_usec: 0, seq: 0x1_05, keyframe: false, config: false, full_range: false };
    let f = PassthroughDecoder.decode(Codec::H264, Bytes::new(), hint).unwrap();
    assert_eq!(&f.plane_y[..], &[5, 5, 5, 5]);
    assert!(!f.full_range);
}

fn header(codec: Codec, seq: u32, w: u16, h: u16, len: u32) -> MediaHeader {
    MediaHeader {
        media_type: MediaType::Video,
        flags: Flags::full_range(),
        codec,
        width: w,
        height: h,
        seq,
        pts_usec: 55,
        payload_len: len,
    }
}

#[test]
fn speedtest_markers_live_in_the_top_range() {
    assert_eq!(SPEEDTEST_SEQ_BASE, 0xFFFF_0000);
    assert!(!is_speedtest_marker(0xFFFE_FFFF));
    assert!(is_speedtest_marker(0xFFFF_0003));
    assert_eq!(speedtest_step_index(0xFFFF_0003), 3);
}

#[test]
fn speedtest_marker_frames_are_counted_not_shown() {
    let f = MediaFrame { header: header(Codec::Raw, SPEEDTEST_SEQ_BASE + 2, 0, 0, 10), payload: Bytes::from(vec![0u8; 10]) };
    match route_frame(&f) {
        FrameRoute::Speedtest(a) => assert_eq!(a, SpeedtestArrival { step_index: 2, payload_bytes: 10 }),
        other => panic!("expected speedtest, got {other:?}"),
    }
    let v = MediaFrame { header: header(Codec::Raw, 5, 0, 0, 0), payload: Bytes::new() };
    assert!(matches!(route_frame(&v), FrameRoute::Video));
}

#[test]
fn raw_frames_are_split_and_encoded_ones_decoded() {
    let raw = MediaFrame { header: header(Codec::Raw, 9, 2, 2, 6), payload: Bytes::from(vec![1u8, 2, 3, 4, 5, 6]) };
    match plan_ingest(&raw).unwrap() {
        IngestPlan::Deliver(f) => {
            assert_eq!(&f.plane_y[..], &[1, 2, 3, 4]);
            assert_eq!(&f.plane_uv[..], &[5, 6]);
            assert_eq!(f.seq, 9);
            assert!(f.full_range);
        }
        other => panic!("expected delivery, got {other:?}"),
    }
    let enc = MediaFrame { header: header(Codec::Hevc, 11, 16, 16, 3), payload: Bytes::from(vec![1u8, 2, 3]) };
    match plan_ingest(&enc).unwrap() {
        IngestPlan::Decode { codec, hint } => {
            assert_eq!(codec, Codec::Hevc);
            assert_eq!((hint.width, hint.height, hint.seq, hint.pts_usec), (16, 16, 11, 55));
            assert!(hint.full_range && !hint.keyframe && !hint.config);
        }
        other => panic!("expected decode, got {other:?}"),
    }
}

#[test]
fn oversized_or_broken_headers_are_refused() {
    let mut buf = header(Codec::Raw, 1, 0, 0, MAX_FRAME_BYTES + 1).encode();
    assert!(matches!(parse_frame_header(&buf), Err(MediaPipelineError::PayloadTooLarge(n)) if n == MAX_FRAME_BYTES + 1));
    buf[0] = 0;
    assert!(matches!(parse_frame_header(&buf), Err(MediaPipelineError::Header(DecodeError::BadMagic(_)))));
    let ok = header(Codec::Raw, 1, 0, 0, MAX_FRAME_BYTES).encode();
    assert_eq!(parse_frame_header(&ok).unwrap().payload_len, MAX_FRAME_BYTES);
}

#[test]
fn counter_sums_each_step_and_drains() {
    let mut c = SpeedTestCounter::new();
    c.record(SpeedtestArrival { step_index: 0, payload_bytes: 100 });
    c.record(SpeedtestArrival { step_index: 1, payload_bytes: 7 });
    c.record(SpeedtestArrival { step_index: 0, payload_bytes: 50 });
    assert_eq!(c.bytes_for_step(0), Some(150));
    assert_eq!(c.bytes_for_step(1), Some(7));
    assert_eq!(c.bytes_for_step(2), Some(0));
    let drained = c.drain();
    assert_eq!(drained.len(), 3);
    assert_eq!(step_totals(&drained, 3), Some(vec![150, 7, 0]));
    assert_eq!(c.bytes_for_step(0), Some(0));
    assert!(c.drain().is_empty());
}

#[test]
fn counter_reports_overflow_as_none() {
    let mut c = SpeedTestCounter::new();
    c.record(SpeedtestArrival { step_index: 0, payload_bytes: u64::MAX });
    c.record(SpeedtestArrival { step_index: 0, payload_bytes: 1 });
    assert_eq!(c.bytes_for_step(0), None);
}
