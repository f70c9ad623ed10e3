//! Mode selection: among the modes the camera offers that fit the usable
//! bitrate, the user's limits and the transport, pick the largest
//! `(resolution area, fps, format preference)`, where raw wins over encoded at
//! equal resolution and frame rate. `prefer_raw` keeps raw candidates only
//! when there is any.

use vstd::prelude::*;
use crate::adaptive::tables::{
    hevc_target_kbps, raw_bitrate_kbps, spec_hevc_target_kbps, spec_raw_bitrate_kbps,
    raw_bitrate_in_range, hevc_target_in_range,
};
use crate::adaptive::types::{caps_contain, AvailableMode, TransportClass, UserLimits};
use crate::protocol::messages::{CodecName, FormatKind, Mode, PixelFormat};
use crate::protocol::version::{Capability, CapabilityView};

verus! {

/// Format preference at equal resolution and frame rate.
#[derive(Debug, Clone, Copy, PartialEq, Eq, Structural)]
pub enum FormatPref {
    Raw,
    Encoded,
}

impl FormatPref {
    /// Ranking weight: raw outranks encoded.
    pub open spec fn spec_weight(self) -> u8 {
        match self {
            FormatPref::Raw => 1,
            FormatPref::Encoded => 0,
        }
    }

    /// Ranking weight: raw outranks encoded.
    pub fn weight(self) -> (w: u8)
        ensures
            w == self.spec_weight(),
    {
        match self {
            FormatPref::Raw => 1,
            FormatPref::Encoded => 0,
        }
    }
}

/// A mode that fits, with its ranking key.
#[derive(Debug, Clone, Copy, PartialEq, Eq, Structural)]
pub struct Candidate {
    pub mode: Mode,
    pub res_area: u64,
    pub fps: u16,
    pub pref: FormatPref,
}

/// Strict lexicographic order on the ranking key `(res_area, fps, weight)`.
pub open spec fn key_lt(a: Candidate, b: Candidate) -> bool {
    ||| a.res_area < b.res_area
    ||| (a.res_area == b.res_area && a.fps < b.fps)
    ||| (a.res_area == b.res_area && a.fps == b.fps && a.pref.spec_weight() < b.pref.spec_weight())
}

/// Whether a mode stays within the user's width, height and fps caps.
pub open spec fn within_limits(m: AvailableMode, limits: UserLimits) -> bool {
    &&& (limits.max_width matches Some(w) ==> m.width <= w)
    &&& (limits.max_height matches Some(h) ==> m.height <= h)
    &&& (limits.max_fps matches Some(f) ==> m.fps <= f)
}

/// Raw kbps of a camera mode.
pub open spec fn mode_raw_kbps(m: AvailableMode) -> int {
    spec_raw_bitrate_kbps(m.width as u32, m.height as u32, m.fps as u32)
}

/// The encoder a mode would use: HEVC when offered, else H.264, else none.
pub open spec fn encoded_codec(m: AvailableMode) -> Option<CodecName> {
    if caps_contain(m.caps@, CapabilityView::Hevc) {
        Some(CodecName::Hevc)
    } else if caps_contain(m.caps@, CapabilityView::H264) {
        Some(CodecName::H264)
    } else {
        None
    }
}

/// Encoded target of a mode for a codec: the HEVC table, times 8/5 for H.264.
pub open spec fn encoded_target_for(m: AvailableMode, codec: CodecName) -> int {
    let t = spec_hevc_target_kbps(m.width as u32, m.height as u32, m.fps as u32);
    match codec {
        CodecName::H264 => (t * 8) / 5,
        _ => t,
    }
}

/// `x` clamped to the `u32` range.
pub open spec fn clamp_u32(x: int) -> u32 {
    if x <= u32::MAX {
        x as u32
    } else {
        u32::MAX
    }
}

/// The raw candidate of a mode.
pub open spec fn raw_candidate(m: AvailableMode) -> Candidate {
    Candidate {
        mode: Mode {
            format: FormatKind::Raw,
            codec: CodecName::NoCodec,
            width: m.width,
            height: m.height,
            fps: m.fps,
            bitrate_kbps: 0,
            pixel_format: PixelFormat::Nv12,
            full_range: true,
        },
        res_area: (m.width * m.height) as u64,
        fps: m.fps,
        pref: FormatPref::Raw,
    }
}

/// The encoded candidate of a mode for a codec.
pub open spec fn encoded_candidate(m: AvailableMode, codec: CodecName) -> Candidate {
    Candidate {
        mode: Mode {
            format: FormatKind::Encoded,
            codec,
            width: m.width,
            height: m.height,
            fps: m.fps,
            bitrate_kbps: clamp_u32(encoded_target_for(m, codec)),
            pixel_format: PixelFormat::Nv12,
            full_range: true,
        },
        res_area: (m.width * m.height) as u64,
        fps: m.fps,
        pref: FormatPref::Encoded,
    }
}

/// The candidates one camera mode contributes: its raw form when raw is
/// offered and fits both the usable bitrate and the transport ceiling, then
/// its encoded form when an encoder is offered and its target fits.
pub open spec fn mode_candidates(
    usable_kbps: u64,
    m: AvailableMode,
    transport: TransportClass,
    limits: UserLimits,
) -> Seq<Candidate> {
    if !within_limits(m, limits) {
        Seq::empty()
    } else {
        let raw = if caps_contain(m.caps@, CapabilityView::RawNv12) && mode_raw_kbps(m)
            <= usable_kbps && mode_raw_kbps(m) <= transport.spec_raw_ceiling_kbps() {
            seq![raw_candidate(m)]
        } else {
            Seq::empty()
        };
        let enc = match encoded_codec(m) {
            Some(codec) => if encoded_target_for(m, codec) <= usable_kbps {
                seq![encoded_candidate(m, codec)]
            } else {
                Seq::empty()
            },
            None => Seq::empty(),
        };
        raw + enc
    }
}

/// All candidates, in the order of the camera modes.
pub open spec fn all_candidates(
    usable_kbps: u64,
    caps: Seq<AvailableMode>,
    transport: TransportClass,
    limits: UserLimits,
) -> Seq<Candidate>
    decreases caps.len(),
{
    if caps.len() == 0 {
        Seq::empty()
    } else {
        all_candidates(usable_kbps, caps.drop_last(), transport, limits) + mode_candidates(
            usable_kbps,
            caps.last(),
            transport,
            limits,
        )
    }
}

/// The raw candidates of a list, in order.
pub open spec fn raw_only(cs: Seq<Candidate>) -> Seq<Candidate>
    decreases cs.len(),
{
    if cs.len() == 0 {
        Seq::empty()
    } else if cs.last().pref == FormatPref::Raw {
        raw_only(cs.drop_last()).push(cs.last())
    } else {
        raw_only(cs.drop_last())
    }
}

/// The candidate with the largest key; among equal keys, the last one.
pub open spec fn best_of(cs: Seq<Candidate>) -> Option<Candidate>
    decreases cs.len(),
{
    if cs.len() == 0 {
        None
    } else {
        match best_of(cs.drop_last()) {
            None => Some(cs.last()),
            Some(b) => if key_lt(cs.last(), b) {
                Some(b)
            } else {
                Some(cs.last())
            },
        }
    }
}

/// The mode used when nothing fits: 720p30 H.264 at 19.2 Mbps.
pub open spec fn spec_safe_fallback() -> Mode {
    Mode {
        format: FormatKind::Encoded,
        codec: CodecName::H264,
        width: 1280,
        height: 720,
        fps: 30,
        bitrate_kbps: 19200,
        pixel_format: PixelFormat::Nv12,
        full_range: true,
    }
}

/// The mode [`select_mode`] picks.
pub open spec fn spec_select_mode(
    usable_kbps: u64,
    caps: Seq<AvailableMode>,
    transport: TransportClass,
    limits: UserLimits,
) -> Mode {
    let cs = all_candidates(usable_kbps, caps, transport, limits);
    let pool = if limits.prefer_raw && raw_only(cs).len() > 0 {
        raw_only(cs)
    } else {
        cs
    };
    match best_of(pool) {
        Some(c) => c.mode,
        None => spec_safe_fallback(),
    }
}

/// The mode used when nothing fits: 720p30 H.264.
pub fn safe_fallback() -> (m: Mode)
    ensures
        m == spec_safe_fallback(),
{
    Mode {
        format: FormatKind::Encoded,
        codec: CodecName::H264,
        width: 1280,
        height: 720,
        fps: 30,
        bitrate_kbps: 12_000 * 8 / 5,
        pixel_format: PixelFormat::Nv12,
        full_range: true,
    }
}

/// Every table input drawn from `u16` dimensions stays in range.
proof fn lemma_u16_mode_in_range(w: u16, h: u16, fps: u16)
    ensures
        raw_bitrate_in_range(w as u32, h as u32, fps as u32),
        hevc_target_in_range(w as u32, h as u32, fps as u32),
        spec_hevc_target_kbps(w as u32, h as u32, fps as u32) * 8 <= u64::MAX,
        spec_hevc_target_kbps(w as u32, h as u32, fps as u32) >= 0,
        (w as int) * (h as int) <= u64::MAX,
        (w as int) * (h as int) >= 0,
{
    let a = (w as int) * (h as int);
    assert(0 <= a <= 65535 * 65535) by (nonlinear_arith)
        requires
            a == (w as int) * (h as int),
            w <= 65535,
            h <= 65535,
    ;
    assert(0 <= a * (fps as int) <= 65535 * 65535 * 65535) by (nonlinear_arith)
        requires
            0 <= a <= 65535 * 65535,
            fps <= 65535,
    ;
    assert(0 <= (a * 3 / 2 * 8) * (fps as int) <= 65535 * 65535 * 12 * 65535) by (nonlinear_arith)
        requires
            0 <= a <= 65535 * 65535,
            fps <= 65535,
    ;
}

/// The candidates of one camera mode, computed.
fn candidates_of(
    usable_kbps: u64,
    m: &AvailableMode,
    transport: TransportClass,
    limits: &UserLimits,
    out: &mut Vec<Candidate>,
)
    ensures
        final(out)@ == old(out)@ + mode_candidates(usable_kbps, *m, transport, *limits),
{
    if let Some(max_w) = limits.max_width {
        if m.width > max_w {
            assert(mode_candidates(usable_kbps, *m, transport, *limits) =~= Seq::empty());
            return ;
        }
    }
    if let Some(max_h) = limits.max_height {
        if m.height > max_h {
            assert(mode_candidates(usable_kbps, *m, transport, *limits) =~= Seq::empty());
            return ;
        }
    }
    if let Some(max_fps) = limits.max_fps {
        if m.fps > max_fps {
            assert(mode_candidates(usable_kbps, *m, transport, *limits) =~= Seq::empty());
            return ;
        }
    }
    proof {
        lemma_u16_mode_in_range(m.width, m.height, m.fps);
    }
    let ghost before = out@;
    let area: u64 = (m.width as u64) * (m.height as u64);
    if m.supports(&Capability::RawNv12) {
        let raw_kbps = raw_bitrate_kbps(m.width as u32, m.height as u32, m.fps as u32);
        if raw_kbps <= usable_kbps && raw_kbps <= transport.raw_ceiling_kbps() {
            out.push(
                Candidate {
                    mode: Mode {
                        format: FormatKind::Raw,
                        codec: CodecName::NoCodec,
                        width: m.width,
                        height: m.height,
                        fps: m.fps,
                        bitrate_kbps: 0,
                        pixel_format: PixelFormat::Nv12,
                        full_range: true,
                    },
                    res_area: area,
                    fps: m.fps,
                    pref: FormatPref::Raw,
                },
            );
        }
    }
    let ghost mid = out@;
    let encoded: Option<CodecName> = if m.supports(&Capability::Hevc) {
        Some(CodecName::Hevc)
    } else if m.supports(&Capability::H264) {
        Some(CodecName::H264)
    } else {
        None
    };
    if let Some(codec) = encoded {
        let hevc = hevc_target_kbps(m.width as u32, m.height as u32, m.fps as u32);
        let target: u64 = match codec {
            CodecName::Hevc => hevc,
            CodecName::H264 => (hevc * 8) / 5,
            CodecName::NoCodec => hevc,
        };
        if target <= usable_kbps {
            let bitrate: u32 = if target <= u32::MAX as u64 {
                target as u32
            } else {
                u32::MAX
            };
            out.push(
                Candidate {
                    mode: Mode {
                        format: FormatKind::Encoded,
                        codec,
                        width: m.width,
                        height: m.height,
                        fps: m.fps,
                        bitrate_kbps: bitrate,
                        pixel_format: PixelFormat::Nv12,
                        full_range: true,
                    },
                    res_area: area,
                    fps: m.fps,
                    pref: FormatPref::Encoded,
                },
            );
        }
    }
    assert(out@ =~= before + mode_candidates(usable_kbps, *m, transport, *limits));
}

/// Whether `a`'s ranking key is below `b`'s.
fn key_below(a: &Candidate, b: &Candidate) -> (r: bool)
    ensures
        r == key_lt(*a, *b),
{
    if a.res_area != b.res_area {
        return a.res_area < b.res_area;
    }
    if a.fps != b.fps {
        return a.fps < b.fps;
    }
    a.pref.weight() < b.pref.weight()
}

/// The best candidate of a list (largest key, the last among equals).
fn pick_best(cs: &Vec<Candidate>) -> (r: Option<Candidate>)
    ensures
        r == best_of(cs@),
{
    let mut best: Option<Candidate> = None;
    let mut k: usize = 0;
    while k < cs.len()
        invariant
            k <= cs@.len(),
            best == best_of(cs@.subrange(0, k as int)),
        decreases cs@.len() - k,
    {
        let c = cs[k];
        assert(cs@.subrange(0, k + 1).drop_last() =~= cs@.subrange(0, k as int));
        best = match best {
            None => Some(c),
            Some(b) => if key_below(&c, &b) {
                Some(b)
            } else {
                Some(c)
            },
        };
        k = k + 1;
    }
    assert(cs@.subrange(0, k as int) =~= cs@);
    best
}

/// Pick a streaming mode. `usable_kbps` is the bitrate the link can carry
/// after headroom; `caps` the camera's modes, `transport` the link and
/// `limits` the user's caps. When no mode fits, [`safe_fallback`] answers.
pub fn select_mode(
    usable_kbps: u64,
    caps: &[AvailableMode],
    transport: TransportClass,
    limits: &UserLimits,
) -> (m: Mode)
    ensures
        m == spec_select_mode(usable_kbps, caps@, transport, *limits),
{
    let mut candidates: Vec<Candidate> = Vec::new();
    let mut i: usize = 0;
    while i < caps.len()
        invariant
            i <= caps@.len(),
            candidates@ == all_candidates(usable_kbps, caps@.subrange(0, i as int), transport, *limits),
        decreases caps@.len() - i,
    {
        candidates_of(usable_kbps, &caps[i], transport, limits, &mut candidates);
        assert(caps@.subrange(0, i + 1).drop_last() =~= caps@.subrange(0, i as int));
        i = i + 1;
    }
    assert(caps@.subrange(0, i as int) =~= caps@);
    let mut raws: Vec<Candidate> = Vec::new();
    let mut j: usize = 0;
    while j < candidates.len()
        invariant
            j <= candidates@.len(),
            raws@ == raw_only(candidates@.subrange(0, j as int)),
        decreases candidates@.len() - j,
    {
        let c = candidates[j];
        assert(candidates@.subrange(0, j + 1).drop_last() =~= candidates@.subrange(0, j as int));
        if c.pref == FormatPref::Raw {
            raws.push(c);
        }
        j = j + 1;
    }
    assert(candidates@.subrange(0, j as int) =~= candidates@);
    let best = if limits.prefer_raw && raws.len() > 0 {
        pick_best(&raws)
    } else {
        pick_best(&candidates)
    };
    match best {
        Some(c) => c.mode,
        None => safe_fallback(),
    }
}


/// A mode fits when it respects the user's caps, and its bitrate fits the
/// usable bitrate: the raw rate (also under the transport's raw ceiling) for
/// raw, the chosen bitrate for encoded.
pub open spec fn mode_fits(m: Mode, usable_kbps: u64, transport: TransportClass, limits: UserLimits) -> bool {
    &&& (limits.max_width matches Some(w) ==> m.width <= w)
    &&& (limits.max_height matches Some(h) ==> m.height <= h)
    &&& (limits.max_fps matches Some(f) ==> m.fps <= f)
    &&& (m.format == FormatKind::Raw ==> {
        &&& spec_raw_bitrate_kbps(m.width as u32, m.height as u32, m.fps as u32) <= usable_kbps
        &&& spec_raw_bitrate_kbps(m.width as u32, m.height as u32, m.fps as u32)
            <= transport.spec_raw_ceiling_kbps()
    })
    &&& (m.format == FormatKind::Encoded ==> m.bitrate_kbps <= usable_kbps)
}

/// The ranking of modes: resolution area, then fps, then raw over encoded.
pub open spec fn mode_key_lt(a: Mode, b: Mode) -> bool {
    let wa: int = if a.format == FormatKind::Raw { 1 } else { 0 };
    let wb: int = if b.format == FormatKind::Raw { 1 } else { 0 };
    ||| a.width * a.height < b.width * b.height
    ||| (a.width * a.height == b.width * b.height && a.fps < b.fps)
    ||| (a.width * a.height == b.width * b.height && a.fps == b.fps && wa < wb)
}

/// A candidate's key is its mode's key.
pub open spec fn candidate_consistent(c: Candidate) -> bool {
    &&& c.res_area == c.mode.width * c.mode.height
    &&& c.fps == c.mode.fps
    &&& (c.pref == FormatPref::Raw <==> c.mode.format == FormatKind::Raw)
}

proof fn lemma_mode_candidates_fit(usable_kbps: u64, m: AvailableMode, transport: TransportClass, limits: UserLimits)
    ensures
        forall|i: int|
            0 <= i < mode_candidates(usable_kbps, m, transport, limits).len() ==> {
                let c = #[trigger] mode_candidates(usable_kbps, m, transport, limits)[i];
                mode_fits(c.mode, usable_kbps, transport, limits) && candidate_consistent(c)
            },
{
    lemma_u16_mode_in_range(m.width, m.height, m.fps);
}

proof fn lemma_all_candidates_fit(usable_kbps: u64, caps: Seq<AvailableMode>, transport: TransportClass, limits: UserLimits)
    ensures
        forall|i: int|
            0 <= i < all_candidates(usable_kbps, caps, transport, limits).len() ==> {
                let c = #[trigger] all_candidates(usable_kbps, caps, transport, limits)[i];
                mode_fits(c.mode, usable_kbps, transport, limits) && candidate_consistent(c)
            },
    decreases caps.len(),
{
    if caps.len() > 0 {
        lemma_all_candidates_fit(usable_kbps, caps.drop_last(), transport, limits);
        lemma_mode_candidates_fit(usable_kbps, caps.last(), transport, limits);
        let a = all_candidates(usable_kbps, caps.drop_last(), transport, limits);
        let b = mode_candidates(usable_kbps, caps.last(), transport, limits);
        assert forall|i: int| 0 <= i < (a + b).len() implies {
            let c = #[trigger] (a + b)[i];
            mode_fits(c.mode, usable_kbps, transport, limits) && candidate_consistent(c)
        } by {
            if i < a.len() {
                assert((a + b)[i] == a[i]);
            } else {
                assert((a + b)[i] == b[i - a.len()]);
            }
        }
    }
}

proof fn lemma_raw_only(cs: Seq<Candidate>)
    ensures
        forall|i: int| 0 <= i < raw_only(cs).len() ==> (#[trigger] raw_only(cs)[i]).pref == FormatPref::Raw,
        forall|i: int| 0 <= i < raw_only(cs).len() ==> cs.contains(#[trigger] raw_only(cs)[i]),
        forall|i: int| 0 <= i < cs.len() && (#[trigger] cs[i]).pref == FormatPref::Raw ==> raw_only(cs).contains(cs[i]),
    decreases cs.len(),
{
    if cs.len() > 0 {
        let d = cs.drop_last();
        lemma_raw_only(d);
        assert forall|i: int| 0 <= i < raw_only(cs).len() implies cs.contains(#[trigger] raw_only(cs)[i]) by {
            if cs.last().pref == FormatPref::Raw && i == raw_only(cs).len() - 1 {
                assert(cs[cs.len() - 1] == raw_only(cs)[i]);
            } else {
                assert(raw_only(cs)[i] == raw_only(d)[i]);
                let k = choose|k: int| 0 <= k < d.len() && d[k] == raw_only(d)[i];
                assert(cs[k] == d[k]);
            }
        }
        assert forall|i: int| 0 <= i < cs.len() && (#[trigger] cs[i]).pref == FormatPref::Raw implies raw_only(cs).contains(cs[i]) by {
            if i == cs.len() - 1 {
                assert(raw_only(cs)[raw_only(cs).len() - 1] == cs[i]);
            } else {
                assert(cs[i] == d[i]);
                let k = choose|k: int| 0 <= k < raw_only(d).len() && raw_only(d)[k] == d[i];
                assert(raw_only(cs)[k] == raw_only(d)[k]);
            }
        }
    }
}

proof fn lemma_best_of(cs: Seq<Candidate>)
    ensures
        cs.len() == 0 <==> best_of(cs) is None,
        best_of(cs) matches Some(b) ==> cs.contains(b) && forall|i: int| 0 <= i < cs.len() ==> !key_lt(b, #[trigger] cs[i]),
    decreases cs.len(),
{
    if cs.len() > 0 {
        let d = cs.drop_last();
        lemma_best_of(d);
        match best_of(d) {
            None => {
                assert(cs[cs.len() - 1] == cs.last());
            },
            Some(b) => {
                let k = choose|k: int| 0 <= k < d.len() && d[k] == b;
                assert(cs[k] == d[k]);
                assert(cs[cs.len() - 1] == cs.last());
                assert forall|i: int| 0 <= i < cs.len() implies !key_lt(best_of(cs).unwrap(), #[trigger] cs[i]) by {
                    if i < cs.len() - 1 {
                        assert(cs[i] == d[i]);
                    }
                }
            },
        }
    }
}

/// When some camera mode fits, the selected mode fits: within the user's
/// caps, its bitrate within the usable bitrate, and raw only under the
/// transport's ceiling. When none fits, the safe fallback is selected.
pub proof fn law_selected_mode_fits(
    usable_kbps: u64,
    caps: Seq<AvailableMode>,
    transport: TransportClass,
    limits: UserLimits,
)
    ensures
        all_candidates(usable_kbps, caps, transport, limits).len() > 0 ==> mode_fits(
            spec_select_mode(usable_kbps, caps, transport, limits),
            usable_kbps,
            transport,
            limits,
        ),
        all_candidates(usable_kbps, caps, transport, limits).len() == 0 ==> spec_select_mode(
            usable_kbps,
            caps,
            transport,
            limits,
        ) == spec_safe_fallback(),
{
    let cs = all_candidates(usable_kbps, caps, transport, limits);
    lemma_all_candidates_fit(usable_kbps, caps, transport, limits);
    lemma_raw_only(cs);
    lemma_best_of(cs);
    lemma_best_of(raw_only(cs));
    if limits.prefer_raw && raw_only(cs).len() > 0 {
        let b = best_of(raw_only(cs)).unwrap();
        let k = choose|k: int| 0 <= k < cs.len() && cs[k] == b;
        assert(mode_fits(cs[k].mode, usable_kbps, transport, limits));
    } else if cs.len() > 0 {
        let b = best_of(cs).unwrap();
        let k = choose|k: int| 0 <= k < cs.len() && cs[k] == b;
        assert(mode_fits(cs[k].mode, usable_kbps, transport, limits));
    }
}

/// No fitting candidate outranks the selected mode; with `prefer_raw` and
/// some raw candidate, the selection is raw and no raw candidate outranks it.
pub proof fn law_selected_mode_is_best(
    usable_kbps: u64,
    caps: Seq<AvailableMode>,
    transport: TransportClass,
    limits: UserLimits,
)
    ensures
        ({
            let cs = all_candidates(usable_kbps, caps, transport, limits);
            let m = spec_select_mode(usable_kbps, caps, transport, limits);
            &&& (limits.prefer_raw && raw_only(cs).len() > 0) ==> m.format == FormatKind::Raw
                && forall|i: int|
                0 <= i < cs.len() && (#[trigger] cs[i]).mode.format == FormatKind::Raw
                    ==> !mode_key_lt(m, cs[i].mode)
            &&& !(limits.prefer_raw && raw_only(cs).len() > 0) ==> forall|i: int|
                0 <= i < cs.len() ==> !mode_key_lt(m, (#[trigger] cs[i]).mode)
        }),
{
    let cs = all_candidates(usable_kbps, caps, transport, limits);
    lemma_all_candidates_fit(usable_kbps, caps, transport, limits);
    lemma_raw_only(cs);
    lemma_best_of(cs);
    lemma_best_of(raw_only(cs));
    let r = raw_only(cs);
    if limits.prefer_raw && r.len() > 0 {
        let b = best_of(r).unwrap();
        let k = choose|k: int| 0 <= k < r.len() && r[k] == b;
        let k2 = choose|k2: int| 0 <= k2 < cs.len() && cs[k2] == r[k];
        assert(candidate_consistent(cs[k2]));
        assert forall|i: int| 0 <= i < cs.len() && (#[trigger] cs[i]).mode.format == FormatKind::Raw
            implies !mode_key_lt(b.mode, cs[i].mode) by {
            assert(candidate_consistent(cs[i]));
            let j = choose|j: int| 0 <= j < r.len() && r[j] == cs[i];
            assert(!key_lt(b, r[j]));
        }
    } else if cs.len() > 0 {
        let b = best_of(cs).unwrap();
        let k = choose|k: int| 0 <= k < cs.len() && cs[k] == b;
        assert(candidate_consistent(cs[k]));
        assert forall|i: int| 0 <= i < cs.len() implies !mode_key_lt(b.mode, (#[trigger] cs[i]).mode) by {
            assert(candidate_consistent(cs[i]));
            assert(!key_lt(b, cs[i]));
        }
    }
}

/// Wi-Fi never carries raw video: a raw mode is selected over Wi-Fi only
/// when its raw bitrate is zero (an empty frame or zero fps).
pub proof fn law_wifi_never_raw(usable_kbps: u64, caps: Seq<AvailableMode>, limits: UserLimits)
    ensures
        ({
            let m = spec_select_mode(usable_kbps, caps, TransportClass::WiFi, limits);
            m.format == FormatKind::Raw ==> spec_raw_bitrate_kbps(m.width as u32, m.height as u32, m.fps as u32) == 0
        }),
{
    law_selected_mode_fits(usable_kbps, caps, TransportClass::WiFi, limits);
    assert(spec_raw_bitrate_kbps(1280, 720, 30) >= 0);
}

/// Whether `m` is a stream that camera mode `a` offers: the same geometry
/// and frame rate, NV12 in full range; raw only when `a` offers raw NV12,
/// at no encoder bitrate; encoded in HEVC when `a` offers it, at the HEVC
/// table rate, else in H.264 when `a` offers that, at 8/5 of the HEVC table
/// rate (each clamped to `u32`).
pub open spec fn offered_by(m: Mode, a: AvailableMode) -> bool {
    &&& m.width == a.width && m.height == a.height && m.fps == a.fps
    &&& m.pixel_format == PixelFormat::Nv12 && m.full_range
    &&& m.format == FormatKind::Raw ==> m.codec == CodecName::NoCodec && m.bitrate_kbps == 0 && caps_contain(
        a.caps@,
        CapabilityView::RawNv12,
    )
    &&& m.format == FormatKind::Encoded ==> {
        ||| m.codec == CodecName::Hevc && caps_contain(a.caps@, CapabilityView::Hevc) && m.bitrate_kbps
            == clamp_u32(spec_hevc_target_kbps(a.width as u32, a.height as u32, a.fps as u32))
        ||| m.codec == CodecName::H264 && !caps_contain(a.caps@, CapabilityView::Hevc) && caps_contain(
            a.caps@,
            CapabilityView::H264,
        ) && m.bitrate_kbps == clamp_u32(spec_hevc_target_kbps(a.width as u32, a.height as u32, a.fps as u32) * 8 / 5)
    }
}

/// `m` is a fitting stream of camera mode `a`.
spec fn fitting_stream_of(m: Mode, a: AvailableMode, usable_kbps: u64, transport: TransportClass, limits: UserLimits) -> bool {
    &&& offered_by(m, a)
    &&& within_limits(a, limits)
    &&& m.format == FormatKind::Raw ==> raw_stream_fits(a, usable_kbps, transport)
    &&& m.format == FormatKind::Encoded ==> encoded_stream_fits(a, usable_kbps)
}

proof fn lemma_candidates_offered(usable_kbps: u64, caps: Seq<AvailableMode>, transport: TransportClass, limits: UserLimits)
    ensures
        forall|k: int|
            0 <= k < all_candidates(usable_kbps, caps, transport, limits).len() ==> exists|i: int|
                0 <= i < caps.len() && fitting_stream_of(
                    (#[trigger] all_candidates(usable_kbps, caps, transport, limits)[k]).mode,
                    caps[i],
                    usable_kbps,
                    transport,
                    limits,
                ),
    decreases caps.len(),
{
    if caps.len() > 0 {
        let d = caps.drop_last();
        lemma_candidates_offered(usable_kbps, d, transport, limits);
        let a = all_candidates(usable_kbps, d, transport, limits);
        let b = mode_candidates(usable_kbps, caps.last(), transport, limits);
        let n = caps.len() - 1;
        assert(caps[n] == caps.last());
        assert forall|k: int| 0 <= k < (a + b).len() implies exists|i: int|
            0 <= i < caps.len() && fitting_stream_of((#[trigger] (a + b)[k]).mode, caps[i], usable_kbps, transport, limits) by {
            if k < a.len() {
                assert((a + b)[k] == a[k]);
                let i = choose|i: int| 0 <= i < d.len() && fitting_stream_of(a[k].mode, d[i], usable_kbps, transport, limits);
                assert(caps[i] == d[i]);
            } else {
                assert((a + b)[k] == b[k - a.len()]);
                assert(fitting_stream_of(b[k - a.len()].mode, caps[n], usable_kbps, transport, limits));
            }
        }
    }
}

/// Every selected mode is NV12 in full range. A raw selection carries no
/// codec and no bitrate; an encoded one is HEVC at the HEVC table rate or
/// H.264 at 8/5 of it. When some camera mode fits, the selection is a
/// stream one of the offered camera modes provides (its geometry, frame
/// rate and codecs, HEVC preferred over H.264); otherwise it is the
/// 1280x720 at 30 fps H.264 fallback at 19.2 Mbps.
pub proof fn law_selected_mode_shape(
    usable_kbps: u64,
    caps: Seq<AvailableMode>,
    transport: TransportClass,
    limits: UserLimits,
)
    ensures
        ({
            let m = spec_select_mode(usable_kbps, caps, transport, limits);
            &&& m.pixel_format == PixelFormat::Nv12 && m.full_range
            &&& m.format == FormatKind::Raw ==> m.codec == CodecName::NoCodec && m.bitrate_kbps == 0
            &&& (m.format == FormatKind::Encoded && m.codec == CodecName::H264) ==> m.bitrate_kbps == clamp_u32(
                spec_hevc_target_kbps(m.width as u32, m.height as u32, m.fps as u32) * 8 / 5,
            )
            &&& (m.format == FormatKind::Encoded && m.codec != CodecName::H264) ==> m.codec == CodecName::Hevc
                && m.bitrate_kbps == clamp_u32(spec_hevc_target_kbps(m.width as u32, m.height as u32, m.fps as u32))
            &&& all_candidates(usable_kbps, caps, transport, limits).len() > 0 ==> exists|i: int|
                0 <= i < caps.len() && offered_by(m, caps[i])
            &&& all_candidates(usable_kbps, caps, transport, limits).len() == 0 ==> m.format == FormatKind::Encoded
                && m.codec == CodecName::H264 && m.width == 1280 && m.height == 720 && m.fps == 30
                && m.bitrate_kbps == 19200
        }),
{
    let cs = all_candidates(usable_kbps, caps, transport, limits);
    let m = spec_select_mode(usable_kbps, caps, transport, limits);
    lemma_candidates_offered(usable_kbps, caps, transport, limits);
    lemma_raw_only(cs);
    lemma_best_of(cs);
    lemma_best_of(raw_only(cs));
    if limits.prefer_raw && raw_only(cs).len() > 0 {
        let b = best_of(raw_only(cs)).unwrap();
        let j = choose|j: int| 0 <= j < raw_only(cs).len() && raw_only(cs)[j] == b;
        let k = choose|k: int| 0 <= k < cs.len() && cs[k] == raw_only(cs)[j];
        let i = choose|i: int| 0 <= i < caps.len() && fitting_stream_of(cs[k].mode, caps[i], usable_kbps, transport, limits);
        assert(offered_by(m, caps[i]));
    } else if cs.len() > 0 {
        let b = best_of(cs).unwrap();
        let k = choose|k: int| 0 <= k < cs.len() && cs[k] == b;
        let i = choose|i: int| 0 <= i < caps.len() && fitting_stream_of(cs[k].mode, caps[i], usable_kbps, transport, limits);
        assert(offered_by(m, caps[i]));
    } else {
        assert(spec_hevc_target_kbps(1280, 720, 30) == 12000);
    }
}

/// Camera mode `a` can be streamed raw: it offers raw NV12, and its raw
/// rate fits both the usable bitrate and the transport's raw ceiling.
pub open spec fn raw_stream_fits(a: AvailableMode, usable_kbps: u64, transport: TransportClass) -> bool {
    &&& caps_contain(a.caps@, CapabilityView::RawNv12)
    &&& spec_raw_bitrate_kbps(a.width as u32, a.height as u32, a.fps as u32) <= usable_kbps
    &&& spec_raw_bitrate_kbps(a.width as u32, a.height as u32, a.fps as u32) <= transport.spec_raw_ceiling_kbps()
}

/// Camera mode `a` can be streamed encoded: in HEVC when offered, at its
/// table rate, else in H.264 when offered, at 8/5 of that rate, the rate
/// fitting the usable bitrate.
pub open spec fn encoded_stream_fits(a: AvailableMode, usable_kbps: u64) -> bool {
    let t = spec_hevc_target_kbps(a.width as u32, a.height as u32, a.fps as u32);
    ||| caps_contain(a.caps@, CapabilityView::Hevc) && t <= usable_kbps
    ||| !caps_contain(a.caps@, CapabilityView::Hevc) && caps_contain(a.caps@, CapabilityView::H264) && t * 8 / 5
        <= usable_kbps
}

/// `m` ranks at least as high as a `w`x`h` stream at `fps` (raw or not):
/// larger area, else higher fps, else raw over encoded.
pub open spec fn ranks_at_least(m: Mode, w: u16, h: u16, fps: u16, raw: bool) -> bool {
    ||| m.width * m.height > w * h
    ||| m.width * m.height == w * h && m.fps > fps
    ||| m.width * m.height == w * h && m.fps == fps && (m.format == FormatKind::Raw || !raw)
}

proof fn lemma_candidates_complete(usable_kbps: u64, caps: Seq<AvailableMode>, transport: TransportClass, limits: UserLimits)
    ensures
        forall|i: int, k: int|
            0 <= i < caps.len() && 0 <= k < mode_candidates(usable_kbps, caps[i], transport, limits).len()
                ==> all_candidates(usable_kbps, caps, transport, limits).contains(
                #[trigger] mode_candidates(usable_kbps, #[trigger] caps[i], transport, limits)[k],
            ),
    decreases caps.len(),
{
    if caps.len() > 0 {
        let d = caps.drop_last();
        lemma_candidates_complete(usable_kbps, d, transport, limits);
        let a = all_candidates(usable_kbps, d, transport, limits);
        let b = mode_candidates(usable_kbps, caps.last(), transport, limits);
        assert forall|i: int, k: int|
            0 <= i < caps.len() && 0 <= k < mode_candidates(usable_kbps, caps[i], transport, limits).len()
                implies (a + b).contains(#[trigger] mode_candidates(usable_kbps, #[trigger] caps[i], transport, limits)[k]) by {
            if i < d.len() {
                assert(caps[i] == d[i]);
                let c = mode_candidates(usable_kbps, d[i], transport, limits)[k];
                let j = choose|j: int| 0 <= j < a.len() && a[j] == c;
                assert((a + b)[j] == a[j]);
            } else {
                assert(caps[i] == caps.last());
                assert((a + b)[a.len() + k] == b[k]);
            }
        }
    }
}

/// Selection looks at every stream the cameras offer. Write `fits(a)` for a
/// camera mode within the user's caps that can be streamed raw or encoded.
/// - When no camera mode fits, the fallback (1280x720 at 30 fps H.264) is
///   selected; when one does, the selection is a stream of a fitting camera
///   mode, NV12 in full range at its codec's table rate.
/// - With `prefer_raw` and some camera mode that can be streamed raw, the
///   selection is raw and ranks at least as high as every raw stream.
/// - Otherwise it ranks at least as high as every fitting stream, raw or
///   encoded.
pub proof fn law_selection_considers_every_fitting_mode(
    usable_kbps: u64,
    caps: Seq<AvailableMode>,
    transport: TransportClass,
    limits: UserLimits,
)
    ensures
        ({
            let m = spec_select_mode(usable_kbps, caps, transport, limits);
            let any_raw = exists|j: int|
                0 <= j < caps.len() && within_limits(#[trigger] caps[j], limits) && raw_stream_fits(
                    caps[j],
                    usable_kbps,
                    transport,
                );
            let any_fit = exists|j: int|
                0 <= j < caps.len() && within_limits(#[trigger] caps[j], limits) && (raw_stream_fits(
                    caps[j],
                    usable_kbps,
                    transport,
                ) || encoded_stream_fits(caps[j], usable_kbps));
            &&& !any_fit ==> m == spec_safe_fallback()
            &&& any_fit ==> exists|j: int|
                0 <= j < caps.len() && within_limits(caps[j], limits) && offered_by(m, #[trigger] caps[j]) && (
                m.format == FormatKind::Raw ==> raw_stream_fits(caps[j], usable_kbps, transport)) && (m.format
                == FormatKind::Encoded ==> encoded_stream_fits(caps[j], usable_kbps))
            &&& (limits.prefer_raw && any_raw) ==> m.format == FormatKind::Raw && forall|i: int|
                0 <= i < caps.len() && within_limits(#[trigger] caps[i], limits) && raw_stream_fits(
                    caps[i],
                    usable_kbps,
                    transport,
                ) ==> ranks_at_least(m, caps[i].width, caps[i].height, caps[i].fps, true)
            &&& !(limits.prefer_raw && any_raw) ==> forall|i: int|
                0 <= i < caps.len() && within_limits(#[trigger] caps[i], limits) ==> (raw_stream_fits(
                    caps[i],
                    usable_kbps,
                    transport,
                ) ==> ranks_at_least(m, caps[i].width, caps[i].height, caps[i].fps, true)) && (encoded_stream_fits(
                    caps[i],
                    usable_kbps,
                ) ==> ranks_at_least(m, caps[i].width, caps[i].height, caps[i].fps, false))
        }),
{
    let cs = all_candidates(usable_kbps, caps, transport, limits);
    let m = spec_select_mode(usable_kbps, caps, transport, limits);
    let r = raw_only(cs);
    lemma_all_candidates_fit(usable_kbps, caps, transport, limits);
    lemma_candidates_offered(usable_kbps, caps, transport, limits);
    lemma_candidates_complete(usable_kbps, caps, transport, limits);
    lemma_raw_only(cs);
    lemma_best_of(cs);
    lemma_best_of(r);
    let any_raw = exists|j: int|
        0 <= j < caps.len() && within_limits(#[trigger] caps[j], limits) && raw_stream_fits(caps[j], usable_kbps, transport);
    let any_fit = exists|j: int|
        0 <= j < caps.len() && within_limits(#[trigger] caps[j], limits) && (raw_stream_fits(caps[j], usable_kbps, transport)
            || encoded_stream_fits(caps[j], usable_kbps));
    // Each fitting stream of a camera mode is a candidate.
    assert forall|i: int|
        0 <= i < caps.len() && within_limits(#[trigger] caps[i], limits) && raw_stream_fits(caps[i], usable_kbps, transport)
            implies cs.contains(raw_candidate(caps[i])) by {
        assert(mode_candidates(usable_kbps, caps[i], transport, limits)[0] == raw_candidate(caps[i]));
    }
    assert forall|i: int|
        0 <= i < caps.len() && within_limits(#[trigger] caps[i], limits) && encoded_stream_fits(caps[i], usable_kbps)
            implies cs.contains(encoded_candidate(caps[i], encoded_codec(caps[i]).unwrap())) by {
        let mc = mode_candidates(usable_kbps, caps[i], transport, limits);
        let c = encoded_candidate(caps[i], encoded_codec(caps[i]).unwrap());
        if raw_stream_fits(caps[i], usable_kbps, transport) {
            assert(mc[1] == c);
        } else {
            assert(mc[0] == c);
        }
    }
    // A raw candidate comes from a camera mode that can be streamed raw.
    assert(r.len() > 0 ==> any_raw) by {
        if r.len() > 0 {
            let c = r[0];
            let k = choose|k: int| 0 <= k < cs.len() && cs[k] == c;
            let j = choose|j: int| 0 <= j < caps.len() && fitting_stream_of(cs[k].mode, caps[j], usable_kbps, transport, limits);
            assert(mode_fits(cs[k].mode, usable_kbps, transport, limits) && candidate_consistent(cs[k]));
            assert(within_limits(caps[j], limits) && raw_stream_fits(caps[j], usable_kbps, transport));
        }
    }
    assert(any_raw ==> r.len() > 0) by {
        if any_raw {
            let j = choose|j: int|
                0 <= j < caps.len() && within_limits(#[trigger] caps[j], limits) && raw_stream_fits(
                    caps[j],
                    usable_kbps,
                    transport,
                );
            assert(cs.contains(raw_candidate(caps[j])));
            let k = choose|k: int| 0 <= k < cs.len() && cs[k] == raw_candidate(caps[j]);
            assert(r.contains(cs[k]));
        }
    }
    assert(any_fit <==> cs.len() > 0) by {
        if any_fit {
            let j = choose|j: int|
                0 <= j < caps.len() && within_limits(#[trigger] caps[j], limits) && (raw_stream_fits(
                    caps[j],
                    usable_kbps,
                    transport,
                ) || encoded_stream_fits(caps[j], usable_kbps));
            if raw_stream_fits(caps[j], usable_kbps, transport) {
                assert(cs.contains(raw_candidate(caps[j])));
            } else {
                assert(cs.contains(encoded_candidate(caps[j], encoded_codec(caps[j]).unwrap())));
            }
        }
        if cs.len() > 0 {
            let j = choose|j: int| 0 <= j < caps.len() && fitting_stream_of(cs[0].mode, caps[j], usable_kbps, transport, limits);
            assert(mode_fits(cs[0].mode, usable_kbps, transport, limits) && candidate_consistent(cs[0]));
            assert(within_limits(caps[j], limits));
            if cs[0].mode.format == FormatKind::Raw {
                assert(raw_stream_fits(caps[j], usable_kbps, transport));
            } else {
                assert(encoded_stream_fits(caps[j], usable_kbps));
            }
        }
    }
    if cs.len() > 0 {
        let pool = if limits.prefer_raw && r.len() > 0 { r } else { cs };
        let b = best_of(pool).unwrap();
        let kp = choose|kp: int| 0 <= kp < pool.len() && pool[kp] == b;
        let k = choose|k: int| 0 <= k < cs.len() && cs[k] == pool[kp];
        assert(m == cs[k].mode);
        assert(mode_fits(cs[k].mode, usable_kbps, transport, limits) && candidate_consistent(cs[k]));
        let j = choose|j: int| 0 <= j < caps.len() && fitting_stream_of(cs[k].mode, caps[j], usable_kbps, transport, limits);
        assert(within_limits(caps[j], limits));
        assert(m.format == FormatKind::Raw ==> raw_stream_fits(caps[j], usable_kbps, transport));
        assert(m.format == FormatKind::Encoded ==> encoded_stream_fits(caps[j], usable_kbps));
        if limits.prefer_raw && r.len() > 0 {
            assert(r.contains(b));
            assert(b.pref == FormatPref::Raw);
            assert forall|i: int|
                0 <= i < caps.len() && within_limits(#[trigger] caps[i], limits) && raw_stream_fits(
                    caps[i],
                    usable_kbps,
                    transport,
                ) implies ranks_at_least(m, caps[i].width, caps[i].height, caps[i].fps, true) by {
                let c = raw_candidate(caps[i]);
                let q = choose|q: int| 0 <= q < cs.len() && cs[q] == c;
                assert(r.contains(cs[q]));
                let t = choose|t: int| 0 <= t < r.len() && r[t] == cs[q];
                assert(!key_lt(b, r[t]));
            }
        } else {
            assert forall|i: int| 0 <= i < caps.len() && within_limits(#[trigger] caps[i], limits) implies (
            raw_stream_fits(caps[i], usable_kbps, transport) ==> ranks_at_least(
                m,
                caps[i].width,
                caps[i].height,
                caps[i].fps,
                true,
            )) && (encoded_stream_fits(caps[i], usable_kbps) ==> ranks_at_least(
                m,
                caps[i].width,
                caps[i].height,
                caps[i].fps,
                false,
            )) by {
                if raw_stream_fits(caps[i], usable_kbps, transport) {
                    let q = choose|q: int| 0 <= q < cs.len() && cs[q] == raw_candidate(caps[i]);
                    assert(!key_lt(b, cs[q]));
                }
                if encoded_stream_fits(caps[i], usable_kbps) {
                    let q = choose|q: int|
                        0 <= q < cs.len() && cs[q] == encoded_candidate(caps[i], encoded_codec(caps[i]).unwrap());
                    assert(!key_lt(b, cs[q]));
                }
            }
        }
    }
}

} // verus!
