//! Live adaptation loop. Each telemetry sample yields an [`Action`]: stay,
//! step up, or step down to a new [`Mode`]. Step-down is aggressive (one
//! congested sample is enough, with a 2 s cooldown); step-up is cautious
//! (4 consecutive stable samples and a 5 s cooldown).
//!
//! Times are nanoseconds on a monotonic clock. Whether the round-trip time
//! spiked (more than twice its smoothed baseline) is decided by the caller,
//! which owns the floating-point baseline.

use vstd::prelude::*;
use crate::adaptive::tables::{
    h264_target_kbps, hevc_target_kbps, spec_h264_target_kbps, spec_hevc_target_kbps,
};
use crate::adaptive::select::clamp_u32;
use crate::protocol::messages::{CodecName, FormatKind, Mode};

verus! {

/// Stable samples needed before a step up.
pub const STABLE_SAMPLES_BEFORE_STEPUP: u32 = 4u32;

/// Minimum time between the last action and a step up (5 s).
pub const STEPUP_COOLDOWN_NS: u64 = 5_000_000_000u64;

/// Minimum time between the last action and a step down (2 s).
pub const STEPDOWN_COOLDOWN_NS: u64 = 2_000_000_000u64;

/// What the adaptation loop asks for after a sample.
#[derive(Debug, Clone, Copy, PartialEq, Eq, Structural)]
pub enum Action {
    /// Keep the current mode.
    Stay,
    StepUp(Mode),
    StepDown(Mode),
}

/// State of the adaptation loop for one session.
#[derive(Debug, Clone, Copy, PartialEq, Eq, Structural)]
pub struct AdaptationState {
    pub current: Mode,
    pub consecutive_stable: u32,
    pub last_drop_count: u64,
    pub last_action_at_ns: Option<u64>,
    pub start_at_ns: u64,
}

/// Encoder target for a mode's geometry and codec, clamped to `u32`.
pub open spec fn spec_encoded_target(m: Mode) -> u32 {
    match m.codec {
        CodecName::H264 => clamp_u32(spec_h264_target_kbps(m.width as u32, m.height as u32, m.fps as u32)),
        _ => clamp_u32(spec_hevc_target_kbps(m.width as u32, m.height as u32, m.fps as u32)),
    }
}

proof fn lemma_u16_targets_in_range(w: u16, h: u16, fps: u16)
    ensures
        crate::adaptive::tables::hevc_target_in_range(w as u32, h as u32, fps as u32),
        spec_hevc_target_kbps(w as u32, h as u32, fps as u32) * 8 <= u64::MAX,
{
    let a = (w as int) * (h as int);
    assert(0 <= a <= 65535 * 65535) by (nonlinear_arith)
        requires
            a == (w as int) * (h as int),
            w <= 65535,
            h <= 65535,
    ;
    assert(0 <= a * (fps as int) <= 65535 * 65535 * 65535) by (nonlinear_arith)
        requires
            0 <= a <= 65535 * 65535,
            fps <= 65535,
    ;
}

/// The encoder target of a mode, clamped to `u32`.
pub fn encoded_target(m: &Mode) -> (t: u32)
    ensures
        t == spec_encoded_target(*m),
{
    proof {
        lemma_u16_targets_in_range(m.width, m.height, m.fps);
    }
    let target: u64 = match m.codec {
        CodecName::H264 => h264_target_kbps(m.width as u32, m.height as u32, m.fps as u32),
        _ => hevc_target_kbps(m.width as u32, m.height as u32, m.fps as u32),
    };
    if target <= u32::MAX as u64 {
        target as u32
    } else {
        u32::MAX
    }
}

/// A mode with a new geometry or frame rate, its bitrate re-targeted when encoded.
pub open spec fn retarget(m: Mode) -> Mode {
    if m.format == FormatKind::Encoded {
        Mode { bitrate_kbps: spec_encoded_target(m), ..m }
    } else {
        m
    }
}

/// Step-down ladder: 1) drop fps to 30 if higher; 2) cut an encoded bitrate
/// above 1 Mbps by 25%; 3) raw becomes HEVC; 4) drop resolution one
/// canonical step (2160p to 1080p to 720p); else nothing lower.
pub open spec fn spec_next_lower(m: Mode) -> Option<Mode> {
    if m.fps > 30 {
        Some(retarget(Mode { fps: 30, ..m }))
    } else if m.format == FormatKind::Encoded && m.bitrate_kbps > 1000 {
        Some(Mode { bitrate_kbps: (m.bitrate_kbps * 3 / 4) as u32, ..m })
    } else if m.format == FormatKind::Raw {
        Some(retarget(Mode { format: FormatKind::Encoded, codec: CodecName::Hevc, ..m }))
    } else if m.width == 3840 && m.height == 2160 {
        Some(retarget(Mode { width: 1920, height: 1080, ..m }))
    } else if m.width == 1920 && m.height == 1080 {
        Some(retarget(Mode { width: 1280, height: 720, ..m }))
    } else {
        None
    }
}

/// Step-up ladder: raise 30 fps to 60; else raise resolution one canonical
/// step (720p to 1080p to 2160p); else nothing higher.
pub open spec fn spec_next_higher(m: Mode) -> Option<Mode> {
    if m.fps == 30 {
        Some(retarget(Mode { fps: 60, ..m }))
    } else if m.width == 1280 && m.height == 720 {
        Some(retarget(Mode { width: 1920, height: 1080, ..m }))
    } else if m.width == 1920 && m.height == 1080 {
        Some(retarget(Mode { width: 3840, height: 2160, ..m }))
    } else {
        None
    }
}

/// The step-down ladder's bitrate cut stays in `u32` arithmetic for this mode.
pub open spec fn ladder_safe(m: Mode) -> bool {
    (m.fps <= 30 && m.format == FormatKind::Encoded && m.bitrate_kbps > 1000) ==> m.bitrate_kbps * 3
        <= u32::MAX
}

impl AdaptationState {
    /// Time the cooldowns count from: the last action, else the start.
    pub open spec fn reference_ns(self) -> u64 {
        match self.last_action_at_ns {
            Some(t) => t,
            None => self.start_at_ns,
        }
    }

    /// Whether at least `dur_ns` passed since the reference time (a clock that
    /// reads earlier than the reference counts as no time passed).
    pub open spec fn spec_cooldown_elapsed(self, now_ns: u64, dur_ns: u64) -> bool {
        (if now_ns >= self.reference_ns() { now_ns - self.reference_ns() } else { 0 }) >= dur_ns
    }

    /// Whether a sample signals congestion: a non-empty encoder queue, new
    /// drops, or a round-trip spike.
    pub open spec fn spec_is_congested(self, queue_depth: u32, drop_count: u64, rtt_spike: bool) -> bool {
        queue_depth > 0 || drop_count > self.last_drop_count || rtt_spike
    }

    /// The state and action after one sample.
    pub open spec fn spec_observe(self, queue_depth: u32, drop_count: u64, rtt_spike: bool, now_ns: u64) -> (
        AdaptationState,
        Action,
    ) {
        if self.spec_is_congested(queue_depth, drop_count, rtt_spike) {
            if !self.spec_cooldown_elapsed(now_ns, STEPDOWN_COOLDOWN_NS) {
                (self, Action::Stay)
            } else {
                let s = AdaptationState { consecutive_stable: 0, last_drop_count: drop_count, ..self };
                match spec_next_lower(self.current) {
                    Some(next) => (
                        AdaptationState { last_action_at_ns: Some(now_ns), current: next, ..s },
                        Action::StepDown(next),
                    ),
                    None => (s, Action::Stay),
                }
            }
        } else {
            let stable: u32 = if self.consecutive_stable < u32::MAX {
                (self.consecutive_stable + 1) as u32
            } else {
                u32::MAX
            };
            let s = AdaptationState { last_drop_count: drop_count, consecutive_stable: stable, ..self };
            if stable >= STABLE_SAMPLES_BEFORE_STEPUP && self.spec_cooldown_elapsed(now_ns, STEPUP_COOLDOWN_NS) {
                match spec_next_higher(self.current) {
                    Some(next) => (
                        AdaptationState {
                            consecutive_stable: 0,
                            last_action_at_ns: Some(now_ns),
                            current: next,
                            ..s
                        },
                        Action::StepUp(next),
                    ),
                    None => (s, Action::Stay),
                }
            } else {
                (s, Action::Stay)
            }
        }
    }

    /// A fresh state in `initial`, started now: the times handed to
    /// [`AdaptationState::observe`] count nanoseconds from the moment the
    /// state is made.
    pub fn new(initial: Mode) -> (s: AdaptationState)
        ensures
            s == (AdaptationState {
                current: initial,
                consecutive_stable: 0,
                last_drop_count: 0,
                last_action_at_ns: None,
                start_at_ns: 0,
            }),
    {
        Self::new_at(initial, 0)
    }

    /// A fresh state in `initial`, started at `start_at_ns`.
    pub fn new_at(initial: Mode, start_at_ns: u64) -> (s: AdaptationState)
        ensures
            s == (AdaptationState {
                current: initial,
                consecutive_stable: 0,
                last_drop_count: 0,
                last_action_at_ns: None,
                start_at_ns,
            }),
    {
        AdaptationState {
            current: initial,
            consecutive_stable: 0,
            last_drop_count: 0,
            last_action_at_ns: None,
            start_at_ns,
        }
    }

    /// Whether at least `dur_ns` passed since the last action (or the start).
    pub fn cooldown_elapsed(&self, now_ns: u64, dur_ns: u64) -> (b: bool)
        ensures
            b == self.spec_cooldown_elapsed(now_ns, dur_ns),
    {
        let reference = match self.last_action_at_ns {
            Some(t) => t,
            None => self.start_at_ns,
        };
        let elapsed = if now_ns >= reference { now_ns - reference } else { 0 };
        elapsed >= dur_ns
    }

    /// Whether a sample signals congestion.
    pub fn is_congested(&self, queue_depth: u32, drop_count: u64, rtt_spike: bool) -> (b: bool)
        ensures
            b == self.spec_is_congested(queue_depth, drop_count, rtt_spike),
    {
        if queue_depth > 0 {
            return true;
        }
        if drop_count > self.last_drop_count {
            return true;
        }
        rtt_spike
    }

    /// The next rung down the ladder from the current mode.
    pub fn next_lower(&self) -> (r: Option<Mode>)
        requires
            ladder_safe(self.current),
        ensures
            r == spec_next_lower(self.current),
    {
        let mut next = self.current;
        if next.fps > 30 {
            next.fps = 30;
            if next.format == FormatKind::Encoded {
                next.bitrate_kbps = encoded_target(&next);
            }
            return Some(next);
        }
        if next.format == FormatKind::Encoded && next.bitrate_kbps > 1_000 {
            next.bitrate_kbps = next.bitrate_kbps * 3 / 4;
            return Some(next);
        }
        if next.format == FormatKind::Raw {
            next.format = FormatKind::Encoded;
            next.codec = CodecName::Hevc;
            next.bitrate_kbps = encoded_target(&next);
            return Some(next);
        }
        if next.width == 3840 && next.height == 2160 {
            next.width = 1920;
            next.height = 1080;
        } else if next.width == 1920 && next.height == 1080 {
            next.width = 1280;
            next.height = 720;
        } else {
            return None;
        }
        if next.format == FormatKind::Encoded {
            next.bitrate_kbps = encoded_target(&next);
        }
        Some(next)
    }

    /// The next rung up the ladder from the current mode.
    pub fn next_higher(&self) -> (r: Option<Mode>)
        ensures
            r == spec_next_higher(self.current),
    {
        let mut next = self.current;
        if next.fps == 30 {
            next.fps = 60;
            if next.format == FormatKind::Encoded {
                next.bitrate_kbps = encoded_target(&next);
            }
            return Some(next);
        }
        if next.width == 1280 && next.height == 720 {
            next.width = 1920;
            next.height = 1080;
        } else if next.width == 1920 && next.height == 1080 {
            next.width = 3840;
            next.height = 2160;
        } else {
            return None;
        }
        if next.format == FormatKind::Encoded {
            next.bitrate_kbps = encoded_target(&next);
        }
        Some(next)
    }

    /// Feed one telemetry sample: the encoder queue depth, the cumulative
    /// drop count, whether the round-trip time spiked, and the time.
    pub fn observe(&mut self, queue_depth: u32, drop_count: u64, rtt_spike: bool, now_ns: u64) -> (a: Action)
        requires
            ladder_safe(old(self).current),
        ensures
            (*final(self), a) == old(self).spec_observe(queue_depth, drop_count, rtt_spike, now_ns),
    {
        let congested = self.is_congested(queue_depth, drop_count, rtt_spike);
        if congested {
            if !self.cooldown_elapsed(now_ns, STEPDOWN_COOLDOWN_NS) {
                return Action::Stay;
            }
            self.consecutive_stable = 0;
            self.last_drop_count = drop_count;
            if let Some(next) = self.next_lower() {
                self.last_action_at_ns = Some(now_ns);
                self.current = next;
                return Action::StepDown(next);
            }
            return Action::Stay;
        }
        self.last_drop_count = drop_count;
        self.consecutive_stable = if self.consecutive_stable < u32::MAX {
            self.consecutive_stable + 1
        } else {
            u32::MAX
        };
        if self.consecutive_stable >= STABLE_SAMPLES_BEFORE_STEPUP && self.cooldown_elapsed(
            now_ns,
            STEPUP_COOLDOWN_NS,
        ) {
            if let Some(next) = self.next_higher() {
                self.consecutive_stable = 0;
                self.last_action_at_ns = Some(now_ns);
                self.current = next;
                return Action::StepUp(next);
            }
        }
        Action::Stay
    }
}


/// A step down is only taken on a congested sample once the 2 s cooldown has
/// passed, and one congested sample is enough when a lower rung exists; a
/// step up is only taken on an uncongested sample that completes a run of 4
/// stable samples, once the 5 s cooldown has passed. The announced mode
/// becomes the current one, and staying never changes the mode.
pub proof fn law_step_conditions(s: AdaptationState, queue_depth: u32, drop_count: u64, rtt_spike: bool, now_ns: u64)
    ensures
        ({
            let (s2, a) = s.spec_observe(queue_depth, drop_count, rtt_spike, now_ns);
            let congested = s.spec_is_congested(queue_depth, drop_count, rtt_spike);
            &&& a matches Action::StepDown(m) ==> congested && s.spec_cooldown_elapsed(now_ns, STEPDOWN_COOLDOWN_NS)
                && spec_next_lower(s.current) == Some(m) && s2.current == m
            &&& (congested && s.spec_cooldown_elapsed(now_ns, STEPDOWN_COOLDOWN_NS) && spec_next_lower(s.current) is Some)
                ==> a is StepDown
            &&& a matches Action::StepUp(m) ==> !congested && s.consecutive_stable + 1 >= STABLE_SAMPLES_BEFORE_STEPUP
                && s.spec_cooldown_elapsed(now_ns, STEPUP_COOLDOWN_NS) && spec_next_higher(s.current) == Some(m)
                && s2.current == m
            &&& a is Stay ==> s2.current == s.current
        }),
{
}

/// Two consecutive steps are at least the 2 s step-down cooldown apart: after
/// a step at `t1`, the next sample at `t2` steps only if `t2 - t1 >= 2 s`.
pub proof fn law_steps_are_spaced(
    s: AdaptationState,
    q1: u32,
    d1: u64,
    r1: bool,
    t1: u64,
    q2: u32,
    d2: u64,
    r2: bool,
    t2: u64,
)
    requires
        s.spec_observe(q1, d1, r1, t1).1 !is Stay,
        s.spec_observe(q1, d1, r1, t1).0.spec_observe(q2, d2, r2, t2).1 !is Stay,
    ensures
        t2 >= t1 + STEPDOWN_COOLDOWN_NS,
{
}

/// Stepping down never raises the frame rate or the resolution area, and
/// stepping up never lowers them; an encoded bitrate cut keeps the geometry.
pub proof fn law_ladder_direction(m: Mode)
    ensures
        spec_next_lower(m) matches Some(n) ==> n.fps <= m.fps && n.width * n.height <= m.width * m.height,
        spec_next_higher(m) matches Some(n) ==> n.fps >= m.fps && n.width * n.height >= m.width * m.height
            && (n.fps > m.fps || n.width * n.height > m.width * m.height),
{
}

/// The step-up ladder rung by rung. At 30 fps a step up goes to 60 fps at
/// the same resolution; otherwise it raises the resolution by exactly one
/// canonical rung (1280x720 to 1920x1080, 1920x1080 to 3840x2160) at the same
/// frame rate; any other mode has nothing higher. A step keeps the format,
/// codec and pixel format, and an encoded step carries its codec's table
/// rate (H.264 at 8/5 of HEVC), clamped to `u32`.
pub proof fn law_step_up_rungs(m: Mode)
    ensures
        m.fps == 30 ==> (spec_next_higher(m) matches Some(n) && n.fps == 60 && n.width == m.width && n.height
            == m.height),
        (m.fps != 30 && m.width == 1280 && m.height == 720) ==> (spec_next_higher(m) matches Some(n) && n.width
            == 1920 && n.height == 1080 && n.fps == m.fps),
        (m.fps != 30 && m.width == 1920 && m.height == 1080) ==> (spec_next_higher(m) matches Some(n) && n.width
            == 3840 && n.height == 2160 && n.fps == m.fps),
        (m.fps != 30 && !(m.width == 1280 && m.height == 720) && !(m.width == 1920 && m.height == 1080))
            ==> spec_next_higher(m) is None,
        spec_next_higher(m) matches Some(n) ==> {
            &&& n.format == m.format && n.codec == m.codec
            &&& n.pixel_format == m.pixel_format && n.full_range == m.full_range
            &&& (m.format == FormatKind::Encoded && m.codec == CodecName::H264) ==> n.bitrate_kbps == clamp_u32(
                spec_hevc_target_kbps(n.width as u32, n.height as u32, n.fps as u32) * 8 / 5,
            )
            &&& (m.format == FormatKind::Encoded && m.codec != CodecName::H264) ==> n.bitrate_kbps == clamp_u32(
                spec_hevc_target_kbps(n.width as u32, n.height as u32, n.fps as u32),
            )
            &&& m.format == FormatKind::Raw ==> n.bitrate_kbps == m.bitrate_kbps
        },
{
}

/// The step-down ladder rung by rung. Above 30 fps a step down goes to
/// 30 fps at the same resolution; else an encoded stream above 1 Mbps keeps
/// its mode at 3/4 of its bitrate; else raw becomes HEVC at the same
/// resolution and frame rate; else the resolution drops by exactly one
/// canonical rung (3840x2160 to 1920x1080, 1920x1080 to 1280x720); any other
/// mode has nothing lower. A step keeps the pixel format, and every new
/// encoded geometry or frame rate carries its codec's table rate (H.264 at
/// 8/5 of HEVC), clamped to `u32`.
pub proof fn law_step_down_rungs(m: Mode)
    ensures
        m.fps > 30 ==> (spec_next_lower(m) matches Some(n) && n.fps == 30 && n.width == m.width && n.height
            == m.height && n.format == m.format && n.codec == m.codec),
        (m.fps <= 30 && m.format == FormatKind::Encoded && m.bitrate_kbps > 1000) ==> spec_next_lower(m)
            == Some(Mode { bitrate_kbps: (m.bitrate_kbps * 3 / 4) as u32, ..m }) && m.bitrate_kbps * 3 / 4
            < m.bitrate_kbps,
        (m.fps <= 30 && m.format == FormatKind::Raw) ==> (spec_next_lower(m) matches Some(n) && n.format
            == FormatKind::Encoded && n.codec == CodecName::Hevc && n.width == m.width && n.height == m.height
            && n.fps == m.fps),
        (m.fps <= 30 && m.format == FormatKind::Encoded && m.bitrate_kbps <= 1000 && m.width == 3840 && m.height
            == 2160) ==> (spec_next_lower(m) matches Some(n) && n.width == 1920 && n.height == 1080 && n.fps == m.fps
            && n.codec == m.codec),
        (m.fps <= 30 && m.format == FormatKind::Encoded && m.bitrate_kbps <= 1000 && m.width == 1920 && m.height
            == 1080) ==> (spec_next_lower(m) matches Some(n) && n.width == 1280 && n.height == 720 && n.fps == m.fps
            && n.codec == m.codec),
        (m.fps <= 30 && m.format == FormatKind::Encoded && m.bitrate_kbps <= 1000 && !(m.width == 3840 && m.height
            == 2160) && !(m.width == 1920 && m.height == 1080)) ==> spec_next_lower(m) is None,
        spec_next_lower(m) matches Some(n) ==> {
            &&& n.pixel_format == m.pixel_format && n.full_range == m.full_range
            &&& (n.format == FormatKind::Encoded && n.codec == CodecName::H264 && (n.fps != m.fps || n.width
                != m.width || n.height != m.height)) ==> n.bitrate_kbps == clamp_u32(
                spec_hevc_target_kbps(n.width as u32, n.height as u32, n.fps as u32) * 8 / 5,
            )
            &&& (n.format == FormatKind::Encoded && n.codec != CodecName::H264 && (n.fps != m.fps || n.width
                != m.width || n.height != m.height || m.format == FormatKind::Raw)) ==> n.bitrate_kbps == clamp_u32(
                spec_hevc_target_kbps(n.width as u32, n.height as u32, n.fps as u32),
            )
            &&& n.format == FormatKind::Raw ==> n.bitrate_kbps == m.bitrate_kbps
        },
{
}

/// One sample of the loop, spelled out. A sample is congested when the
/// encoder queue is non-empty, the drop count rose since the last sample
/// seen, or the round trip spiked; cooldowns count from the last action
/// (else the start), a clock reading before that counting as no time.
/// - Congested within 2 s of the reference: nothing changes and the loop stays.
/// - Congested after that: the stable run restarts and the drop count is
///   recorded; the loop steps down to the next lower rung and stamps the
///   action, or stays where there is none.
/// - Not congested: the drop count is recorded and the stable run grows by
///   one (saturating); on the 4th stable sample or later, once 5 s have
///   passed, the loop steps up to the next higher rung, restarts the run and
///   stamps the action; otherwise it stays in the same mode.
///
/// The start time never changes.
pub proof fn law_observe_sample(s: AdaptationState, queue_depth: u32, drop_count: u64, rtt_spike: bool, now_ns: u64)
    ensures
        ({
            let (s2, a) = s.spec_observe(queue_depth, drop_count, rtt_spike, now_ns);
            let congested = queue_depth > 0 || drop_count > s.last_drop_count || rtt_spike;
            let reference: int = match s.last_action_at_ns {
                Some(t) => t as int,
                None => s.start_at_ns as int,
            };
            let waited: int = if now_ns >= reference { now_ns - reference } else { 0 };
            let stable: int = if s.consecutive_stable == u32::MAX { u32::MAX as int } else { s.consecutive_stable + 1 };
            &&& s2.start_at_ns == s.start_at_ns
            &&& (congested && waited < 2_000_000_000) ==> s2 == s && a is Stay
            &&& (congested && waited >= 2_000_000_000) ==> {
                &&& s2.consecutive_stable == 0 && s2.last_drop_count == drop_count
                &&& match spec_next_lower(s.current) {
                    Some(n) => a == Action::StepDown(n) && s2.current == n && s2.last_action_at_ns == Some(now_ns),
                    None => a is Stay && s2.current == s.current && s2.last_action_at_ns == s.last_action_at_ns,
                }
            }
            &&& !congested ==> {
                &&& s2.last_drop_count == drop_count
                &&& if stable >= 4 && waited >= 5_000_000_000 && spec_next_higher(s.current) is Some {
                    a == Action::StepUp(spec_next_higher(s.current).unwrap()) && s2.current == spec_next_higher(
                        s.current,
                    ).unwrap() && s2.consecutive_stable == 0 && s2.last_action_at_ns == Some(now_ns)
                } else {
                    a is Stay && s2.current == s.current && s2.consecutive_stable == stable
                        && s2.last_action_at_ns == s.last_action_at_ns
                }
            }
        }),
{
}

} // verus!
