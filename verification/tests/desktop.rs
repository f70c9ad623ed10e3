use clearcam::adaptive::types::AvailableMode;
use clearcam::desktop::b64::base64_url;
use clearcam::desktop::pairing_store::{
    pairing_timestamp, B64DecodeError, PairingBook, PairingMaterial, PairingRecord, PairingStoreError,
};
use clearcam::desktop::qr::{default_iphone_caps, speedtest_modes, AppCore, QR_PAYLOAD_VERSION};
use clearcam::desktop::token::new_qr_token;
use clearcam::desktop::usb_session::{dial_key, plan_usb_session, UsbSessionPlan};
use clearcam::protocol::messages::{CameraEntry, CameraPosition};
use clearcam::protocol::version::Capability;
use rand::RngCore;

#[test]
fn token_is_url_safe_and_long_enough() {
    let mut buf = [0u8; 24];
    rand::thread_rng().fill_bytes(&mut buf);
    let s = base64_url(&buf);
    assert!(s.len() >= 32);
    assert!(s.chars().all(|c| c.is_ascii_alphanumeric() || c == '-' || c == '_'));
}

#[test]
fn base64_url_known_values() {
    assert_eq!(base64_url(b""), "");
    assert_eq!(base64_url(b"f"), "Zg");
    assert_eq!(base64_url(b"fo"), "Zm8");
    assert_eq!(base64_url(b"foo"), "Zm9v");
    assert_eq!(base64_url(b"foobar"), "Zm9vYmFy");
    assert_eq!(base64_url(&[0xFB, 0xFF]), "-_8");
    assert_eq!(base64_url(&[0xFF, 0xFF, 0xFF]), "____");
}

#[test]
fn qr_tokens_are_32_url_safe_characters_and_fresh() {
    let a = new_qr_token().unwrap();
    let b = new_qr_token().unwrap();
    assert_eq!(a.len(), 32);
    assert!(a.chars().all(|c| c.is_ascii_alphanumeric() || c == '-' || c == '_'));
    assert_ne!(a, b);
}

#[test]
fn pairing_key_base64_is_standard_and_unpadded() {
    let m = PairingMaterial::from_b64("+/8").unwrap();
    assert_eq!(m.bytes(), &[0xFB, 0xFF]);
    assert_eq!(m.as_b64(), "+/8");
    assert_eq!(PairingMaterial::from_b64("Zm9vYmFy").unwrap().bytes(), b"foobar");
}

#[test]
fn malformed_pairing_keys_are_b64_errors() {
    assert!(matches!(PairingMaterial::from_b64("Zg=="), Err(PairingStoreError::B64(_))));
    assert!(matches!(PairingMaterial::from_b64("Z"), Err(PairingStoreError::B64(B64DecodeError::InvalidLength(_)))));
    assert!(matches!(PairingMaterial::from_b64("-_8"), Err(PairingStoreError::B64(B64DecodeError::InvalidByte(..)))));
    assert!(matches!(PairingMaterial::from_b64("Zh"), Err(PairingStoreError::B64(B64DecodeError::InvalidLastSymbol(..)))));
}

#[test]
fn fresh_pairing_keys_are_32_bytes_and_round_trip() {
    let m = PairingMaterial::new_random().unwrap();
    assert_eq!(m.bytes().len(), 32);
    let back = PairingMaterial::from_b64(&m.as_b64()).unwrap();
    assert_eq!(back.bytes(), m.bytes());
    assert!(back == m.clone());
}

#[test]
fn round_trip_save_and_load_pairing_key() {
    let mut book = PairingBook::new();
    book.put("UDID-A", PairingMaterial::new_random().unwrap());
    let key = book.get("UDID-A").unwrap();
    assert!(key.is_some());

    // Write the table out and read it back into a fresh one.
    let mut reopened = PairingBook::new();
    for r in book.records() {
        reopened.insert_record(r);
    }
    let key2 = reopened.get("UDID-A").unwrap();
    assert_eq!(key.unwrap().bytes(), key2.unwrap().bytes());
}

#[test]
fn forget_removes_pairing() {
    let mut book = PairingBook::new();
    book.put("UDID-A", PairingMaterial::new_random().unwrap());
    book.forget("UDID-A");
    assert!(book.get("UDID-A").unwrap().is_none());
}

#[test]
fn put_replaces_and_list_names_each_device_once() {
    let mut book = PairingBook::new();
    let k1 = PairingMaterial::from_b64("AAAA").unwrap();
    let k2 = PairingMaterial::from_b64("AQID").unwrap();
    book.put("UDID-A", k1);
    book.put("UDID-B", PairingMaterial::new_random().unwrap());
    book.put("UDID-A", k2);
    assert_eq!(book.get("UDID-A").unwrap().unwrap().bytes(), &[1, 2, 3]);
    let mut l = book.list();
    l.sort();
    assert_eq!(l, vec!["UDID-A".to_string(), "UDID-B".to_string()]);
    assert_eq!(book.records().len(), 2);
    assert!(book.get("UDID-C").unwrap().is_none());
}

#[test]
fn stored_garbage_is_a_b64_error() {
    let mut book = PairingBook::new();
    book.insert_record(PairingRecord {
        udid: "UDID-X".into(),
        pairing_key_b64: "not base64!".into(),
        paired_at: "2026-05-28T20:00:00Z".into(),
    });
    assert!(matches!(book.get("UDID-X"), Err(PairingStoreError::B64(_))));
    let recs = book.records();
    assert_eq!(recs[0].paired_at, "2026-05-28T20:00:00Z");
}

#[test]
fn put_stamps_an_rfc3339_time() {
    let mut book = PairingBook::new();
    book.put("UDID-A", PairingMaterial::from_b64("AAAA").unwrap());
    let recs = book.records();
    assert_eq!(recs[0].udid, "UDID-A");
    assert_eq!(recs[0].pairing_key_b64, "AAAA");
    assert!(recs[0].paired_at.contains('T'));
}

#[test]
fn qr_payload_carries_host_ports_and_token() {
    let core = AppCore { host: "192.168.1.5".into() };
    let q = core.qr_payload(7000, 7001, "tok".into());
    assert_eq!(q.v, QR_PAYLOAD_VERSION);
    assert_eq!(q.v, 1);
    assert_eq!(q.host, "192.168.1.5");
    assert_eq!((q.cport, q.mport), (7000, 7001));
    assert_eq!(q.token, "tok");
}

fn dims(v: &[AvailableMode]) -> Vec<(u16, u16, u16)> {
    v.iter().map(|m| (m.width, m.height, m.fps)).collect()
}

#[test]
fn default_iphone_modes() {
    let v = default_iphone_caps();
    assert_eq!(dims(&v), vec![(1280, 720, 30), (1280, 720, 60), (1920, 1080, 30), (1920, 1080, 60)]);
    for m in &v {
        assert_eq!(m.caps, vec![Capability::Hevc, Capability::H264, Capability::RawNv12]);
    }
}

#[test]
fn speedtest_modes_come_from_cameras_or_defaults() {
    assert_eq!(dims(&speedtest_modes(&[])), dims(&default_iphone_caps()));
    let cams = vec![CameraEntry {
        id: "back".into(),
        name: "Back".into(),
        position: CameraPosition::Back,
        max_width: 3840,
        max_height: 2160,
        max_fps: 60,
        supported_formats: vec!["hevc".into()],
    }];
    let v = speedtest_modes(&cams);
    assert_eq!(dims(&v), vec![(3840, 2160, 60)]);
    assert_eq!(v[0].caps, vec![Capability::Hevc, Capability::H264, Capability::RawNv12]);
}

#[test]
fn usb_session_plan_follows_the_stored_key() {
    let m = PairingMaterial::from_b64("AQID").unwrap();
    match plan_usb_session(Ok(Some(m.clone()))) {
        UsbSessionPlan::Handshake { pairing_key_b64 } => assert_eq!(pairing_key_b64, "AQID"),
        other => panic!("expected handshake, got {other:?}"),
    }
    assert!(matches!(plan_usb_session(Ok(None)), UsbSessionPlan::RequestTrust));
    assert!(matches!(plan_usb_session(Err(PairingStoreError::NoConfigDir)), UsbSessionPlan::Skip));
    assert_eq!(dial_key(Ok(Some(m))), Some("AQID".to_string()));
    assert_eq!(dial_key(Ok(None)), None);
    assert_eq!(dial_key(Err(PairingStoreError::NoConfigDir)), None);
}

#[test]
fn pairing_timestamps_are_rfc3339_or_empty() {
    assert_eq!(pairing_timestamp(Some(0)), "1970-01-01T00:00:00+00:00");
    assert_eq!(pairing_timestamp(Some(1_500_000_000)), "1970-01-01T00:00:01.500+00:00");
    assert_eq!(pairing_timestamp(None), "");
    assert_eq!(pairing_timestamp(Some(i64::MAX as u128 + 1)), "2262-04-11T23:47:16.854775808+00:00");
    assert_eq!(pairing_timestamp(Some(i64::MAX as u128 * 1_000_000_000)), "");
    assert_eq!(pairing_timestamp(Some(u128::MAX)), "");
}
