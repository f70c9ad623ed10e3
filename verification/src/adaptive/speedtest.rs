//! Speedtest planning: the default bitrate ramp and per-step byte budgets.

use vstd::prelude::*;
use crate::protocol::messages::SpeedtestPattern;

verus! {

/// Default step duration of the ramp, in milliseconds.
pub const DEFAULT_STEP_MS: u64 = 500u64;

/// The default ramp, in kbps: 50, 100, 200, 400 and 800 Mbps.
pub open spec fn spec_default_ramp_kbps() -> Seq<u64> {
    seq![50_000u64, 100_000u64, 200_000u64, 400_000u64, 800_000u64]
}

/// A speedtest plan: the bitrate of each step and how long each step lasts.
#[derive(Debug, Clone)]
pub struct SpeedtestPlan {
    pub pattern: SpeedtestPattern,
    pub steps_kbps: Vec<u64>,
    /// Duration of every step, in milliseconds.
    pub step_duration_ms: u64,
}

impl SpeedtestPlan {
    /// The default ramp: five steps from 50 to 800 Mbps, 500 ms each.
    pub fn default_ramp() -> (p: SpeedtestPlan)
        ensures
            p.pattern == SpeedtestPattern::Ramp,
            p.steps_kbps@ == spec_default_ramp_kbps(),
            p.step_duration_ms == DEFAULT_STEP_MS,
    {
        let mut steps: Vec<u64> = Vec::new();
        steps.push(50_000);
        steps.push(100_000);
        steps.push(200_000);
        steps.push(400_000);
        steps.push(800_000);
        assert(steps@ =~= spec_default_ramp_kbps());
        SpeedtestPlan { pattern: SpeedtestPattern::Ramp, steps_kbps: steps, step_duration_ms: DEFAULT_STEP_MS }
    }

    /// The number of steps, capped at `u32::MAX`.
    pub open spec fn spec_step_count(&self) -> int {
        if self.steps_kbps@.len() <= u32::MAX {
            self.steps_kbps@.len() as int
        } else {
            u32::MAX as int
        }
    }

    /// Whole duration of the plan, in milliseconds: the step duration times
    /// the number of steps (capped at `u32::MAX` steps).
    pub fn total_duration(&self) -> (t: u128)
        requires
            (self.step_duration_ms * self.spec_step_count()) / 1000 <= u64::MAX,
        ensures
            t == self.step_duration_ms * self.spec_step_count(),
    {
        let n: u32 = if self.steps_kbps.len() <= u32::MAX as usize {
            self.steps_kbps.len() as u32
        } else {
            u32::MAX
        };
        assert((self.step_duration_ms as int) * (n as int) <= (u64::MAX as int) * (u32::MAX as int))
            by (nonlinear_arith)
            requires
                self.step_duration_ms <= u64::MAX,
                n <= u32::MAX,
        ;
        (self.step_duration_ms as u128) * (n as u128)
    }
}

/// Bytes a perfect generator produces in one step: `target_kbps * 1000 *
/// duration_ms / 8 / 1000`, each division truncating.
pub open spec fn spec_expected_step_bytes(target_kbps: u64, duration_ms: u64) -> int {
    target_kbps * 1000 * duration_ms / 8 / 1000
}

/// How many bytes per step a perfect generator would produce.
pub fn expected_step_bytes(target_kbps: u64, duration_ms: u64) -> (b: u64)
    requires
        target_kbps * 1000 <= u64::MAX,
        target_kbps * 1000 * duration_ms <= u64::MAX,
    ensures
        b == spec_expected_step_bytes(target_kbps, duration_ms),
{
    (target_kbps * 1000 * duration_ms) / 8 / 1000
}

/// The frame budget of one step: whole NV12 frames of `width×height`
/// (12 bits per pixel) that carry `target_kbps` over `step_ms`, at least one
/// when the frame is not empty, at most `u32::MAX`; 0 for an empty frame.
pub open spec fn spec_frames_per_step(target_kbps: u64, width: u32, height: u32, step_ms: u64) -> int {
    let frame_bits = width * height * 12;
    if frame_bits == 0 {
        0
    } else {
        let total_bits = target_kbps * 1000 * step_ms / 1000;
        let f = if total_bits / frame_bits >= 1 { total_bits / frame_bits } else { 1 };
        if f <= u32::MAX { f } else { u32::MAX as int }
    }
}

/// Convert a ramp step into a frame budget at `width×height` NV12.
pub fn frames_per_step_for_target(target_kbps: u64, width: u32, height: u32, step_ms: u64) -> (f: u32)
    requires
        width * height * 12 <= u64::MAX,
        width * height * 12 == 0 || (target_kbps * 1000 <= u64::MAX && target_kbps * 1000 * step_ms
            <= u64::MAX),
    ensures
        f == spec_frames_per_step(target_kbps, width, height, step_ms),
{
    assert(width * height <= u64::MAX && width * height >= 0) by (nonlinear_arith)
        requires
            width * height * 12 <= u64::MAX,
            width >= 0,
            height >= 0,
    ;
    let frame_bits: u64 = (width as u64) * (height as u64) * 12;
    if frame_bits == 0 {
        return 0;
    }
    let total_bits: u64 = target_kbps * 1000 * step_ms / 1000;
    let q = total_bits / frame_bits;
    let f: u64 = if q >= 1 { q } else { 1 };
    if f <= u32::MAX as u64 {
        f as u32
    } else {
        u32::MAX
    }
}

} // verus!
