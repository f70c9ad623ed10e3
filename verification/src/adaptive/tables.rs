//! Bitrate tables: raw NV12 rates and visually-lossless encoder targets.

use vstd::prelude::*;

verus! {

/// `u32 * u32` always fits in a `u64`.
pub proof fn lemma_u32_product_fits(a: u32, b: u32)
    ensures
        (a as int) * (b as int) <= u64::MAX,
        (a as int) * (b as int) >= 0,
{
    assert((a as int) * (b as int) <= (u32::MAX as int) * (u32::MAX as int)) by (nonlinear_arith)
        requires
            a <= u32::MAX,
            b <= u32::MAX,
    ;
    assert((a as int) * (b as int) >= 0) by (nonlinear_arith);
}

/// Raw NV12 bytes per pixel are 3/2; the rate in kbps of `w×h` at `fps`, as
/// the table computes it: `w*h*3/2*8*fps / 1000`, each step truncating.
pub open spec fn spec_raw_bitrate_kbps(w: u32, h: u32, fps: u32) -> int {
    (w * h * 3 / 2 * 8 * fps) / 1000
}

/// The intermediate products of [`raw_bitrate_kbps`] fit in a `u64`.
pub open spec fn raw_bitrate_in_range(w: u32, h: u32, fps: u32) -> bool {
    &&& w * h * 3 <= u64::MAX
    &&& w * h * 3 / 2 * 8 <= u64::MAX
    &&& w * h * 3 / 2 * 8 * fps <= u64::MAX
}

/// Raw NV12 bitrate in kilobits per second.
pub fn raw_bitrate_kbps(width: u32, height: u32, fps: u32) -> (k: u64)
    requires
        raw_bitrate_in_range(width, height, fps),
    ensures
        k == spec_raw_bitrate_kbps(width, height, fps),
{
    proof {
        lemma_u32_product_fits(width, height);
    }
    let area: u64 = (width as u64) * (height as u64);
    let a3: u64 = area * 3;
    let bits: u64 = a3 / 2 * 8;
    let total: u64 = bits * (fps as u64);
    total / 1000
}

/// Visually-lossless HEVC target in kbps: the table for the five canonical
/// modes, else `w*h*fps / 2560`.
pub open spec fn spec_hevc_target_kbps(w: u32, h: u32, fps: u32) -> int {
    if w == 1280 && h == 720 && fps == 30 {
        12000
    } else if w == 1280 && h == 720 && fps == 60 {
        20000
    } else if w == 1920 && h == 1080 && fps == 30 {
        30000
    } else if w == 1920 && h == 1080 && fps == 60 {
        50000
    } else if w == 3840 && h == 2160 && fps == 30 {
        90000
    } else {
        (w * h * fps) / 2560
    }
}

/// The fallback product of [`hevc_target_kbps`] fits in a `u64` (or the
/// mode is one of the table's).
pub open spec fn hevc_target_in_range(w: u32, h: u32, fps: u32) -> bool {
    ||| (w == 1280 && h == 720 && (fps == 30 || fps == 60))
    ||| (w == 1920 && h == 1080 && (fps == 30 || fps == 60))
    ||| (w == 3840 && h == 2160 && fps == 30)
    ||| w * h * fps <= u64::MAX
}

/// Visually-lossless HEVC target bitrate in kilobits per second.
pub fn hevc_target_kbps(width: u32, height: u32, fps: u32) -> (k: u64)
    requires
        hevc_target_in_range(width, height, fps),
    ensures
        k == spec_hevc_target_kbps(width, height, fps),
{
    if width == 1280 && height == 720 && fps == 30 {
        12_000
    } else if width == 1280 && height == 720 && fps == 60 {
        20_000
    } else if width == 1920 && height == 1080 && fps == 30 {
        30_000
    } else if width == 1920 && height == 1080 && fps == 60 {
        50_000
    } else if width == 3840 && height == 2160 && fps == 30 {
        90_000
    } else {
        proof {
            lemma_u32_product_fits(width, height);
        }
        let area: u64 = (width as u64) * (height as u64);
        (area * (fps as u64)) / 2_560
    }
}

/// H.264 targets are 8/5 of HEVC's at the same perceived quality.
pub open spec fn spec_h264_target_kbps(w: u32, h: u32, fps: u32) -> int {
    (spec_hevc_target_kbps(w, h, fps) * 8) / 5
}

/// H.264 baseline target bitrate in kilobits per second.
pub fn h264_target_kbps(width: u32, height: u32, fps: u32) -> (k: u64)
    requires
        hevc_target_in_range(width, height, fps),
        spec_hevc_target_kbps(width, height, fps) * 8 <= u64::MAX,
    ensures
        k == spec_h264_target_kbps(width, height, fps),
{
    (hevc_target_kbps(width, height, fps) * 8) / 5
}

/// For every mode, H.264 costs at least as much as HEVC, and strictly more
/// once the HEVC target reaches 2 kbps.
pub proof fn law_h264_costs_more(w: u32, h: u32, fps: u32)
    ensures
        spec_h264_target_kbps(w, h, fps) >= spec_hevc_target_kbps(w, h, fps),
        spec_hevc_target_kbps(w, h, fps) >= 2 ==> spec_h264_target_kbps(w, h, fps)
            > spec_hevc_target_kbps(w, h, fps),
{
    let t = spec_hevc_target_kbps(w, h, fps);
    assert(t >= 0) by {
        assert((w * h * fps) >= 0) by (nonlinear_arith);
    }
}

/// Wherever both targets can be computed, the H.264 target is exactly the
/// HEVC target times 8/5 (rounded down), so it is never below the HEVC
/// target and is above it once the HEVC target reaches 2 kbps.
pub proof fn law_h264_is_eight_fifths_of_hevc(w: u32, h: u32, fps: u32)
    requires
        hevc_target_in_range(w, h, fps),
        spec_hevc_target_kbps(w, h, fps) * 8 <= u64::MAX,
    ensures
        spec_h264_target_kbps(w, h, fps) == spec_hevc_target_kbps(w, h, fps) * 8 / 5,
        spec_h264_target_kbps(w, h, fps) >= spec_hevc_target_kbps(w, h, fps),
        spec_hevc_target_kbps(w, h, fps) >= 2 ==> spec_h264_target_kbps(w, h, fps)
            > spec_hevc_target_kbps(w, h, fps),
{
    law_h264_costs_more(w, h, fps);
}

} // verus!
