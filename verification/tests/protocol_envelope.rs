use clearcam::protocol::envelope::{frame, try_unframe, FrameError, DEFAULT_MAX_PAYLOAD, PREFIX_LEN};

#[test]
fn frame_writes_be_length_prefix() {
    let bytes = frame(b"abc");
    assert_eq!(&bytes[..PREFIX_LEN], &[0, 0, 0, 3]);
    assert_eq!(&bytes[PREFIX_LEN..], b"abc");
}

#[test]
fn frame_empty_payload() {
    let bytes = frame(b"");
    assert_eq!(bytes, vec![0, 0, 0, 0]);
}

#[test]
fn try_unframe_round_trip() {
    let payload = br#"{"t":"HELLO","seq":1}"#;
    let framed = frame(payload);
    let (got, n) = try_unframe(&framed, DEFAULT_MAX_PAYLOAD).unwrap().unwrap();
    assert_eq!(got, &payload[..]);
    assert_eq!(n, framed.len());
}

#[test]
fn try_unframe_returns_none_when_prefix_incomplete() {
    let buf = [0u8, 0, 0];
    assert_eq!(try_unframe(&buf, DEFAULT_MAX_PAYLOAD).unwrap(), None);
}

#[test]
fn try_unframe_returns_none_when_payload_partial() {
    // declared 5 bytes, only 2 available
    let buf = [0u8, 0, 0, 5, b'h', b'e'];
    assert_eq!(try_unframe(&buf, DEFAULT_MAX_PAYLOAD).unwrap(), None);
}

#[test]
fn try_unframe_consumes_only_one_frame() {
    // two concatenated frames; should return only the first
    let first = frame(b"first");
    let second = frame(b"second");
    let mut combined = first.clone();
    combined.extend_from_slice(&second);
    let (payload, n) = try_unframe(&combined, DEFAULT_MAX_PAYLOAD).unwrap().unwrap();
    assert_eq!(payload, b"first");
    assert_eq!(n, first.len());
}

#[test]
fn try_unframe_too_large() {
    let buf = [0xFFu8, 0xFF, 0xFF, 0xFF];
    let err = try_unframe(&buf, 1024).unwrap_err();
    assert_eq!(err, FrameError::TooLarge { len: u32::MAX, max: 1024 });
}

#[test]
fn try_unframe_accepts_payload_exactly_at_the_cap() {
    let framed = frame(&[7u8; 16]);
    let (got, n) = try_unframe(&framed, 16).unwrap().unwrap();
    assert_eq!(got, &[7u8; 16][..]);
    assert_eq!(n, 20);
    assert_eq!(try_unframe(&framed, 15).unwrap_err(), FrameError::TooLarge { len: 16, max: 15 });
}

#[test]
fn unframing_a_frame_gives_back_its_payload() {
    for payload in [&b""[..], &b"x"[..], &b"hello world"[..]] {
        let framed = frame(payload);
        let (got, n) = try_unframe(&framed, DEFAULT_MAX_PAYLOAD).unwrap().unwrap();
        assert_eq!(got, payload);
        assert_eq!(n, payload.len() + PREFIX_LEN);
    }
}
