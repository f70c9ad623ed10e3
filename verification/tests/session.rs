use clearcam::protocol::messages::{Auth, DeviceIdent, ErrorCode, Hello, MediaHello};
use clearcam::protocol::version::{Capability, PROTO_VER};
use clearcam::session::controlplane::{ControlPlaneCore, PlaneInbound, PlaneReaction, INITIAL_SEQ};
use clearcam::session::error::SessionError;
use clearcam::session::handshake::{
    negotiate_caps, new_session_id, session_id_from_bytes, Handshake, HandshakeEvent, HandshakeKind, HandshakePhase, HandshakeStep, Inbound,
};
use clearcam::session::keepalive::{now_usec, peer_is_dead, usec_of, DEAD_PEER_AFTER_NS, KEEPALIVE_INTERVAL_NS};
use clearcam::session::pairing::{
    binding_from_first_frame, media_hello_len, media_hello_prefix, MediaInbound, PendingMediaBindings,
};
use clearcam::session::state::{SessionStateKind, TransportTag};

#[test]
fn wifi_handshake_state_has_no_udid_and_correct_label() {
    let s = SessionStateKind::wifi_handshake();
    assert_eq!(s.label(), "handshaking");
    assert!(s.udid().is_none());
}

#[test]
fn usb_handshake_state_carries_udid_and_correct_label() {
    let s = SessionStateKind::usb_handshake("UDID-1");
    assert_eq!(s.label(), "usb_handshake");
    assert_eq!(s.udid(), Some("UDID-1"));
}

#[test]
fn every_state_has_its_label() {
    assert_eq!(SessionStateKind::Idle.label(), "idle");
    assert_eq!(SessionStateKind::Listening { control_port: 7000, media_port: 7001 }.label(), "listening");
    assert_eq!(SessionStateKind::Ready.label(), "ready");
    assert_eq!(SessionStateKind::Reconnecting.label(), "reconnecting");
    assert_eq!(SessionStateKind::Closed { reason: "bye".into() }.label(), "closed");
    assert!(SessionStateKind::Ready.udid().is_none());
}

fn hello(proto_ver: u32, caps: Vec<Capability>) -> Hello {
    Hello {
        proto_ver,
        app: "mock/0.1".into(),
        device: DeviceIdent { model: "iPhone15,3".into(), os_ver: "18.0".into() },
        session_id: "candidate".into(),
        caps,
    }
}

fn received(seq: u64, body: Inbound) -> HandshakeEvent {
    HandshakeEvent::Received { seq, body }
}

#[test]
fn happy_path_returns_session_id() {
    let mut h = Handshake::new(HandshakeKind::Wifi, "secret", &[Capability::Hevc]);
    match h.on_event(received(10, Inbound::Hello(hello(PROTO_VER, vec![Capability::Hevc, Capability::RawNv12])))) {
        HandshakeStep::SendHelloAck { ack, caps } => {
            assert_eq!(ack, 10);
            assert_eq!(caps, vec![Capability::Hevc]);
        }
        other => panic!("expected HELLO_ACK, got {other:?}"),
    }
    match h.on_event(received(11, Inbound::Auth(Auth::token("secret")))) {
        HandshakeStep::Accept { ack, session } => {
            assert_eq!(ack, 11);
            assert!(session.session_id.starts_with("sess-"));
            assert_eq!(session.token, "secret");
            assert_eq!(session.hello.app, "mock/0.1");
        }
        other => panic!("unexpected {other:?}"),
    }
    assert!(matches!(h.phase, HandshakePhase::Done));
}

fn after_hello(kind: HandshakeKind, secret: &str) -> Handshake {
    let mut h = Handshake::new(kind, secret, &[]);
    let step = h.on_event(received(1, Inbound::Hello(hello(PROTO_VER, vec![]))));
    assert!(matches!(step, HandshakeStep::SendHelloAck { ack: 1, .. }));
    h
}

#[test]
fn rejects_wrong_token() {
    let mut h = after_hello(HandshakeKind::Wifi, "secret");
    match h.on_event(received(2, Inbound::Auth(Auth::token("WRONG")))) {
        HandshakeStep::Reject { ack, code, message, error } => {
            assert_eq!(ack, 2);
            assert_eq!(code, ErrorCode::Unauthorized);
            assert_eq!(message, "bad token");
            assert!(matches!(error, SessionError::Unauthorized));
        }
        other => panic!("expected ERROR, got {other:?}"),
    }
}

#[test]
fn rejects_pairing_key_on_wifi() {
    let mut h = after_hello(HandshakeKind::Wifi, "secret");
    match h.on_event(received(2, Inbound::Auth(Auth::pairing_key("base64keydata")))) {
        HandshakeStep::Reject { code, error, .. } => {
            assert_eq!(code, ErrorCode::Unauthorized);
            assert!(matches!(error, SessionError::Unauthorized));
        }
        other => panic!("expected ERROR(Unauthorized), got {other:?}"),
    }
}

#[test]
fn accept_control_usb_happy_path() {
    let mut h = Handshake::new(HandshakeKind::Usb, "stored-key-b64", &[Capability::Hevc]);
    let step = h.on_event(received(1, Inbound::Hello(hello(PROTO_VER, vec![]))));
    match step {
        HandshakeStep::SendHelloAck { caps, .. } => assert!(caps.is_empty()),
        other => panic!("expected HELLO_ACK, got {other:?}"),
    }
    match h.on_event(received(2, Inbound::Auth(Auth::pairing_key("stored-key-b64")))) {
        HandshakeStep::Accept { session, .. } => assert_eq!(session.token, "stored-key-b64"),
        other => panic!("handshake should succeed, got {other:?}"),
    }
}

#[test]
fn accept_control_usb_rejects_wrong_pairing_key() {
    let mut h = after_hello(HandshakeKind::Usb, "stored-key-b64");
    match h.on_event(received(2, Inbound::Auth(Auth::pairing_key("wrong-key")))) {
        HandshakeStep::Reject { message, error, .. } => {
            assert_eq!(message, "pairing key mismatch");
            assert!(matches!(error, SessionError::Unauthorized));
        }
        other => panic!("expected rejection, got {other:?}"),
    }
}

#[test]
fn accept_control_usb_rejects_token_auth() {
    let mut h = after_hello(HandshakeKind::Usb, "k");
    match h.on_event(received(2, Inbound::Auth(Auth::token("plain-token")))) {
        HandshakeStep::Reject { message, error, .. } => {
            assert_eq!(message, "USB session requires pairingKey, not token");
            assert!(matches!(error, SessionError::Unauthorized));
        }
        other => panic!("expected rejection, got {other:?}"),
    }
}

#[test]
fn rejects_proto_mismatch() {
    let mut h = Handshake::new(HandshakeKind::Wifi, "secret", &[]);
    match h.on_event(received(1, Inbound::Hello(hello(999, vec![])))) {
        HandshakeStep::Reject { ack, code, message, error } => {
            assert_eq!(ack, 1);
            assert_eq!(code, ErrorCode::IncompatibleVersion);
            assert_eq!(message, "proto version mismatch");
            assert!(matches!(error, SessionError::IncompatibleProtoVer { peer: 999, local: 1 }));
        }
        other => panic!("expected ERROR, got {other:?}"),
    }
}

#[test]
fn auth_before_hello_is_a_bad_request() {
    let mut h = Handshake::new(HandshakeKind::Wifi, "secret", &[]);
    match h.on_event(received(3, Inbound::Auth(Auth::token("secret")))) {
        HandshakeStep::Reject { ack, code, message, .. } => {
            assert_eq!(ack, 3);
            assert_eq!(code, ErrorCode::BadRequest);
            assert_eq!(message, "expected HELLO");
        }
        other => panic!("expected ERROR, got {other:?}"),
    }
}

#[test]
fn second_hello_is_a_bad_request() {
    let mut h = after_hello(HandshakeKind::Wifi, "secret");
    match h.on_event(received(2, Inbound::Hello(hello(PROTO_VER, vec![])))) {
        HandshakeStep::Reject { code, message, .. } => {
            assert_eq!(code, ErrorCode::BadRequest);
            assert_eq!(message, "expected AUTH");
        }
        other => panic!("expected ERROR, got {other:?}"),
    }
}

#[test]
fn silence_times_the_handshake_out() {
    let mut h = Handshake::new(HandshakeKind::Wifi, "secret", &[]);
    assert!(matches!(h.on_event(HandshakeEvent::TimedOut), HandshakeStep::Fail(SessionError::HandshakeTimeout)));
}

#[test]
fn negotiation_keeps_server_order_and_common_caps() {
    let server = vec![Capability::Hevc, Capability::H264, Capability::RawNv12];
    let client = vec![Capability::RawNv12, Capability::Other("x".into()), Capability::Hevc];
    assert_eq!(negotiate_caps(&server, &client), vec![Capability::Hevc, Capability::RawNv12]);
    assert!(negotiate_caps(&server, &[]).is_empty());
}

#[test]
fn session_ids_are_sess_and_32_hex_digits() {
    let a = new_session_id().unwrap();
    let b = new_session_id().unwrap();
    assert_eq!(a.len(), 37);
    assert!(a.starts_with("sess-"));
    assert!(a[5..].chars().all(|c| c.is_ascii_digit() || ('a'..='f').contains(&c)));
    assert_ne!(a, b);
}

#[test]
fn ping_is_answered_with_the_next_sequence_number() {
    let mut cp = ControlPlaneCore::new(TransportTag::Wifi);
    assert_eq!(cp.seq, INITIAL_SEQ);
    assert_eq!(cp.next_seq(), 101);
    match cp.on_inbound(PlaneInbound::Ping { seq: 7, ts_usec: 123 }) {
        PlaneReaction::SendPong { seq, ack, echo_usec } => {
            assert_eq!((seq, ack, echo_usec), (102, 7, 123));
        }
        other => panic!("expected PONG, got {other:?}"),
    }
    assert!(cp.running);
}

#[test]
fn bye_closes_and_link_loss_reconnects() {
    let mut cp = ControlPlaneCore::new(TransportTag::Usb);
    match cp.on_inbound(PlaneInbound::Bye { reason: "user".into() }) {
        PlaneReaction::Close { reason } => assert_eq!(reason, "user"),
        other => panic!("expected close, got {other:?}"),
    }
    assert!(!cp.running);
    assert_eq!(ControlPlaneCore::closed_state("user"), SessionStateKind::Closed { reason: "user".into() });
    let mut cp2 = ControlPlaneCore::new(TransportTag::Usb);
    assert_eq!(cp2.on_link_lost(), SessionStateKind::Reconnecting);
    assert!(!cp2.running);
    assert_eq!(cp2.ready_state(), SessionStateKind::Ready);
}

#[test]
fn ingests_device_info_into_snapshot() {
    let mut cp = ControlPlaneCore::new(TransportTag::Wifi);
    assert!(matches!(cp.on_inbound(PlaneInbound::DeviceInfo), PlaneReaction::ApplyDeviceInfo));
    assert!(matches!(cp.on_inbound(PlaneInbound::CameraList), PlaneReaction::ApplyCameraList));
    assert!(matches!(cp.on_inbound(PlaneInbound::Telemetry), PlaneReaction::ApplyTelemetry));
    assert!(matches!(cp.on_inbound(PlaneInbound::Pong), PlaneReaction::Ignore));
    assert_eq!(cp.seq, INITIAL_SEQ);
}

#[test]
fn sequence_numbers_wrap_at_the_top() {
    let mut cp = ControlPlaneCore::new(TransportTag::Wifi);
    cp.seq = u64::MAX;
    assert_eq!(cp.next_seq(), 0);
    assert_eq!(cp.next_seq(), 1);
}

#[test]
fn dead_peer_after_six_seconds_of_silence() {
    assert_eq!(KEEPALIVE_INTERVAL_NS, 2_000_000_000);
    assert_eq!(DEAD_PEER_AFTER_NS, 6_000_000_000);
    assert!(!peer_is_dead(6_000_000_000));
    assert!(peer_is_dead(6_000_000_001));
    assert!(now_usec() > 1_600_000_000_000_000);
}

#[test]
fn media_binding_comes_from_media_hello_only() {
    let b = binding_from_first_frame(MediaInbound::MediaHello(MediaHello {
        session_id: "sess-1".into(),
        token: "tok".into(),
    }))
    .unwrap();
    assert_eq!(b.session_id, "sess-1");
    assert_eq!(b.token, "tok");
    assert!(matches!(
        binding_from_first_frame(MediaInbound::Other),
        Err(SessionError::UnexpectedMessage("expected MEDIA_HELLO"))
    ));
}

#[test]
fn media_hello_prefix_is_big_endian() {
    assert_eq!(media_hello_prefix(0x0102_0304), [1, 2, 3, 4]);
    assert_eq!(media_hello_len(&[0, 0, 1, 0]), 256);
}

#[test]
fn pending_binding_is_taken_once() {
    let mut p: PendingMediaBindings<u32> = PendingMediaBindings::new();
    p.insert("s1".into(), "t1".into(), 5);
    p.insert("s2".into(), "t2".into(), 6);
    p.insert("s1".into(), "t1".into(), 7);
    assert_eq!(p.take("s1", "t2"), None);
    assert_eq!(p.take("s1", "t1"), Some(7));
    assert_eq!(p.take("s1", "t1"), None);
    assert_eq!(p.take("s2", "t2"), Some(6));
}

#[test]
fn clock_readings_become_whole_microseconds() {
    assert_eq!(usec_of(None), 0);
    assert_eq!(usec_of(Some(0)), 0);
    assert_eq!(usec_of(Some(1_999)), 1);
    assert_eq!(usec_of(Some(1_700_000_000_123_456_789)), 1_700_000_000_123_456);
    assert_eq!(usec_of(Some(u128::MAX)), u64::MAX);
}

#[test]
fn session_ids_are_the_v4_uuid_of_their_bytes() {
    let zeros = session_id_from_bytes([0u8; 16]);
    assert_eq!(zeros, "sess-00000000000040008000000000000000");
    let ones = session_id_from_bytes([0xffu8; 16]);
    assert_eq!(ones, "sess-ffffffffffff4fffbfffffffffffffff");
    let bytes: [u8; 16] = [0x12, 0x34, 0x56, 0x78, 0x9a, 0xbc, 0xde, 0xf0, 0x01, 0x23, 0x45, 0x67, 0x89, 0xab, 0xcd, 0xef];
    assert_eq!(session_id_from_bytes(bytes), "sess-123456789abc4ef08123456789abcdef");
}
