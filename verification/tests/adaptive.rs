use clearcam::adaptive::adaptation::{encoded_target, Action, AdaptationState};
use clearcam::adaptive::select::{safe_fallback, select_mode, FormatPref};
use clearcam::adaptive::speedtest::{expected_step_bytes, frames_per_step_for_target, SpeedtestPlan, DEFAULT_STEP_MS};
use clearcam::adaptive::tables::{h264_target_kbps, hevc_target_kbps, raw_bitrate_kbps};
use clearcam::adaptive::types::{AvailableMode, TransportClass, UserLimits};
use clearcam::protocol::messages::{CodecName, FormatKind, Mode, PixelFormat, SpeedtestPattern};
use clearcam::protocol::version::Capability;

const SEC: u64 = 1_000_000_000;
const MS: u64 = 1_000_000;

#[test]
fn raw_720p30_matches_docs() {
    // 720p30 is about 332 Mbps.
    let kbps = raw_bitrate_kbps(1280, 720, 30);
    assert_eq!(kbps, 331_776);
}

#[test]
fn raw_1080p30_matches_docs() {
    // 1080p30 is about 746 Mbps.
    let kbps = raw_bitrate_kbps(1920, 1080, 30);
    assert_eq!(kbps, 746_496);
}

#[test]
fn hevc_targets_match_table() {
    assert_eq!(hevc_target_kbps(1280, 720, 30), 12_000);
    assert_eq!(hevc_target_kbps(1280, 720, 60), 20_000);
    assert_eq!(hevc_target_kbps(1920, 1080, 30), 30_000);
    assert_eq!(hevc_target_kbps(1920, 1080, 60), 50_000);
    assert_eq!(hevc_target_kbps(3840, 2160, 30), 90_000);
}

#[test]
fn h264_costs_more_than_hevc_for_same_quality() {
    let hevc = hevc_target_kbps(1920, 1080, 30);
    let h264 = h264_target_kbps(1920, 1080, 30);
    assert!(h264 > hevc);
}

#[test]
fn h264_target_is_eight_fifths_of_hevc() {
    assert_eq!(h264_target_kbps(1920, 1080, 30), 48_000);
    assert_eq!(h264_target_kbps(1280, 720, 30), 19_200);
}

#[test]
fn expected_step_bytes_for_100mbps_500ms_is_6250000() {
    // 100 Mbit/s for 0.5 s = 50 Mbit = 6_250_000 bytes
    assert_eq!(expected_step_bytes(100_000, 500), 6_250_000);
}

#[test]
fn frames_per_step_for_720p_100mbps() {
    // 720p NV12 frame: 1280x720x12 bits = 11_059_200 bits.
    // 100 Mbps x 0.5 s = 50 Mb; 50e6 / 11.06e6 = 4.5, so 4 frames.
    let f = frames_per_step_for_target(100_000, 1280, 720, 500);
    assert_eq!(f, 4);
}

#[test]
fn frames_per_step_is_at_least_one_and_zero_for_empty_frames() {
    assert_eq!(frames_per_step_for_target(1, 1920, 1080, 500), 1);
    assert_eq!(frames_per_step_for_target(100_000, 0, 720, 500), 0);
}

#[test]
fn default_ramp_is_five_half_second_steps() {
    let p = SpeedtestPlan::default_ramp();
    assert_eq!(p.pattern, SpeedtestPattern::Ramp);
    assert_eq!(p.steps_kbps, vec![50_000, 100_000, 200_000, 400_000, 800_000]);
    assert_eq!(p.step_duration_ms, DEFAULT_STEP_MS);
    assert_eq!(p.total_duration(), 2_500);
}

fn modes_iphone_15_pro() -> Vec<AvailableMode> {
    let nv = vec![Capability::RawNv12, Capability::Hevc, Capability::H264];
    vec![
        AvailableMode { width: 1280, height: 720, fps: 30, caps: nv.clone() },
        AvailableMode { width: 1280, height: 720, fps: 60, caps: nv.clone() },
        AvailableMode { width: 1920, height: 1080, fps: 30, caps: nv.clone() },
        AvailableMode { width: 1920, height: 1080, fps: 60, caps: nv },
    ]
}

/// The usable bitrate the selector is handed for a measured goodput: 70 %
/// of it, in kbps.
fn usable(goodput_mbps: f64) -> u64 {
    (goodput_mbps * 1000.0 * 0.70) as u64
}

#[test]
fn modest_wifi_picks_encoded_1080p30() {
    // 50 Mbps Wi-Fi: 35 Mbps usable. hevc(1080p30)=30 fits; hevc(1080p60)=50 does not.
    let m = select_mode(usable(50.0), &modes_iphone_15_pro(), TransportClass::WiFi, &UserLimits::default());
    assert_eq!(m.format, FormatKind::Encoded);
    assert_eq!(m.codec, CodecName::Hevc);
    assert_eq!((m.width, m.height, m.fps), (1920, 1080, 30));
}

#[test]
fn fat_wifi_picks_hevc_1080p60_not_raw() {
    // 100 Mbps Wi-Fi: 70 usable; Wi-Fi never carries raw.
    let m = select_mode(usable(100.0), &modes_iphone_15_pro(), TransportClass::WiFi, &UserLimits::default());
    assert_eq!(m.format, FormatKind::Encoded);
    assert_eq!((m.width, m.height, m.fps), (1920, 1080, 60));
}

#[test]
fn usb3_picks_raw_1080p30_over_encoded() {
    // 800 Mbps USB3: 560 usable; no raw 1080p fits, so encoded 1080p60 wins on area and fps.
    let m = select_mode(usable(800.0), &modes_iphone_15_pro(), TransportClass::Usb3, &UserLimits::default());
    assert_eq!((m.width, m.height, m.fps), (1920, 1080, 60));
    assert_eq!(m.format, FormatKind::Encoded);
}

#[test]
fn enormous_usb3_picks_raw_at_top_resolution() {
    // 2.5 Gbps USB3: 1.75 Gbps usable; raw 1080p60 (1.49 Gbps) fits.
    let m = select_mode(usable(2_500.0), &modes_iphone_15_pro(), TransportClass::Usb3, &UserLimits::default());
    assert_eq!(m.format, FormatKind::Raw);
    assert_eq!((m.width, m.height, m.fps), (1920, 1080, 60));
}

#[test]
fn prefer_raw_filters_to_raw_only() {
    // 800 Mbps USB3 with prefer_raw: only raw modes compete.
    let m = select_mode(
        usable(800.0),
        &modes_iphone_15_pro(),
        TransportClass::Usb3,
        &UserLimits { prefer_raw: true, ..Default::default() },
    );
    assert_eq!(m.format, FormatKind::Raw);
    // raw 720p30 (332 Mbps) is the best raw fit under 560.
    assert_eq!((m.width, m.height, m.fps), (1280, 720, 30));
}

#[test]
fn max_height_limit_is_respected() {
    let m = select_mode(
        usable(100.0),
        &modes_iphone_15_pro(),
        TransportClass::WiFi,
        &UserLimits { max_height: Some(720), ..Default::default() },
    );
    assert!(m.height <= 720);
}

#[test]
fn falls_back_when_nothing_fits() {
    // Nothing fits: safe fallback 720p30 encoded H.264.
    let caps = vec![AvailableMode { width: 1920, height: 1080, fps: 60, caps: vec![Capability::H264] }];
    let m = select_mode(usable(0.5), &caps, TransportClass::WiFi, &UserLimits::default());
    assert_eq!((m.width, m.height, m.fps), (1280, 720, 30));
    assert_eq!(m.codec, CodecName::H264);
}

#[test]
fn safe_fallback_is_720p30_h264_at_its_table_rate() {
    let m = safe_fallback();
    assert_eq!(m.format, FormatKind::Encoded);
    assert_eq!(m.codec, CodecName::H264);
    assert_eq!((m.width, m.height, m.fps), (1280, 720, 30));
    assert_eq!(m.bitrate_kbps, 19_200);
}

#[test]
fn selected_encoded_mode_carries_its_table_bitrate() {
    let m = select_mode(usable(50.0), &modes_iphone_15_pro(), TransportClass::WiFi, &UserLimits::default());
    assert_eq!(m.bitrate_kbps, 30_000);
    assert_eq!(m.pixel_format, PixelFormat::Nv12);
    assert!(m.full_range);
}

#[test]
fn raw_outranks_encoded_in_weight() {
    assert!(FormatPref::Raw.weight() > FormatPref::Encoded.weight());
}

fn mode_1080p60() -> Mode {
    Mode {
        format: FormatKind::Encoded,
        codec: CodecName::Hevc,
        width: 1920,
        height: 1080,
        fps: 60,
        bitrate_kbps: 50_000,
        pixel_format: PixelFormat::Nv12,
        full_range: true,
    }
}

#[test]
fn queue_depth_triggers_step_down_to_30fps() {
    // The state started 10 s before the sample.
    let start = 10 * SEC;
    let mut s = AdaptationState::new_at(mode_1080p60(), start - 10 * SEC);
    let action = s.observe(2, 0, false, start);
    match action {
        Action::StepDown(m) => {
            assert_eq!(m.fps, 30);
            assert_eq!((m.width, m.height), (1920, 1080));
        }
        other => panic!("expected StepDown, got {other:?}"),
    }
}

#[test]
fn no_action_during_cooldown() {
    let start = 10 * SEC;
    let mut s = AdaptationState::new_at(mode_1080p60(), start - 10 * SEC);
    let first = s.observe(1, 0, false, start);
    assert!(matches!(first, Action::StepDown(_)));
    // Even with congestion, no further step in cooldown.
    let second = s.observe(5, 5, false, start + 100 * MS);
    assert_eq!(second, Action::Stay);
}

#[test]
fn stable_run_then_step_up() {
    let start = 0;
    let mut s = AdaptationState::new_at(Mode { fps: 30, ..mode_1080p60() }, start);
    for i in 0..4u64 {
        let a = s.observe(0, 0, false, start + 100 * MS * i);
        assert_eq!(a, Action::Stay, "tick {i} should not step up yet");
    }
    let action = s.observe(0, 0, false, start + 6 * SEC);
    match action {
        Action::StepUp(m) => {
            assert_eq!(m.fps, 60);
        }
        other => panic!("expected StepUp, got {other:?}"),
    }
}

#[test]
fn raw_steps_down_to_encoded_first() {
    let raw = Mode {
        format: FormatKind::Raw,
        codec: CodecName::NoCodec,
        width: 1280,
        height: 720,
        fps: 30,
        bitrate_kbps: 0,
        pixel_format: PixelFormat::Nv12,
        full_range: true,
    };
    let start = 10 * SEC;
    let mut s = AdaptationState::new_at(raw, start - 10 * SEC);
    let action = s.observe(2, 0, false, start);
    match action {
        Action::StepDown(m) => {
            assert_eq!(m.format, FormatKind::Encoded);
            assert_eq!(m.codec, CodecName::Hevc);
            assert_eq!((m.width, m.height, m.fps), (1280, 720, 30));
        }
        other => panic!("expected StepDown, got {other:?}"),
    }
}

#[test]
fn rtt_spike_alone_counts_as_congestion() {
    let mut s = AdaptationState::new_at(mode_1080p60(), 0);
    match s.observe(0, 0, true, 10 * SEC) {
        Action::StepDown(m) => assert_eq!(m.fps, 30),
        other => panic!("expected StepDown, got {other:?}"),
    }
}

#[test]
fn new_drops_count_as_congestion_but_old_drops_do_not() {
    let mut s = AdaptationState::new_at(Mode { fps: 30, ..mode_1080p60() }, 0);
    assert_eq!(s.observe(0, 0, false, SEC), Action::Stay);
    // 3 new drops: step down (bitrate reduced by a quarter).
    match s.observe(0, 3, false, 10 * SEC) {
        Action::StepDown(m) => assert_eq!(m.bitrate_kbps, 37_500),
        other => panic!("expected StepDown, got {other:?}"),
    }
    // The same drop count again is no congestion.
    assert_eq!(s.observe(0, 3, false, 20 * SEC), Action::Stay);
    assert_eq!(s.last_drop_count, 3);
}

#[test]
fn lowest_rung_stays_put() {
    let bottom = Mode { width: 1280, height: 720, fps: 30, bitrate_kbps: 1_000, ..mode_1080p60() };
    let mut s = AdaptationState::new_at(bottom, 0);
    assert_eq!(s.observe(9, 0, false, 10 * SEC), Action::Stay);
}

#[test]
fn encoded_target_follows_the_codec_table() {
    assert_eq!(encoded_target(&mode_1080p60()), 50_000);
    assert_eq!(encoded_target(&Mode { codec: CodecName::H264, fps: 30, ..mode_1080p60() }), 48_000);
    assert_eq!(encoded_target(&Mode { codec: CodecName::NoCodec, fps: 30, ..mode_1080p60() }), 30_000);
}

#[test]
fn raw_ceiling_per_transport() {
    assert_eq!(TransportClass::WiFi.raw_ceiling_kbps(), 0);
    assert_eq!(TransportClass::Usb2.raw_ceiling_kbps(), 480_000);
    assert_eq!(TransportClass::Usb3.raw_ceiling_kbps(), 5_000_000);
}

#[test]
fn a_fresh_state_starts_at_the_clock_origin() {
    let s = AdaptationState::new(mode_1080p60());
    assert_eq!(s, AdaptationState::new_at(mode_1080p60(), 0));
    assert_eq!(s.consecutive_stable, 0);
    assert_eq!(s.last_action_at_ns, None);
}
