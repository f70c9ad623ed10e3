//! Speedtest filler frames carry a `seq` in a reserved high range, so the
//! pipeline can divert them from the video sinks into a per-step byte count.

use vstd::prelude::*;

verus! {

/// Media frames whose `seq` is at least this are speedtest filler, not video;
/// the lower 16 bits give the ramp step index.
pub const SPEEDTEST_SEQ_BASE: u32 = 0xFFFF_0000u32;

/// Whether a frame's `seq` marks speedtest filler.
pub fn is_speedtest_marker(seq: u32) -> (b: bool)
    ensures
        b == (seq >= SPEEDTEST_SEQ_BASE),
{
    seq >= SPEEDTEST_SEQ_BASE
}

/// The ramp step of a speedtest filler frame.
pub fn speedtest_step_index(seq: u32) -> (i: u32)
    requires
        seq >= SPEEDTEST_SEQ_BASE,
    ensures
        i == seq - SPEEDTEST_SEQ_BASE,
{
    seq - SPEEDTEST_SEQ_BASE
}

/// One observed speedtest filler frame: its step and payload size.
#[derive(Debug, Clone, Copy, PartialEq, Eq, Structural)]
pub struct SpeedtestArrival {
    pub step_index: u32,
    pub payload_bytes: u64,
}

/// Total payload bytes of the arrivals for step `step`.
pub open spec fn step_total(arrivals: Seq<SpeedtestArrival>, step: u32) -> nat
    decreases arrivals.len(),
{
    if arrivals.len() == 0 {
        0
    } else {
        step_total(arrivals.drop_last(), step) + if arrivals.last().step_index == step {
            arrivals.last().payload_bytes as nat
        } else {
            0
        }
    }
}

/// Whether every prefix sum of step `step` fits in a `u64` (the running sum
/// never overflows).
pub open spec fn step_sum_fits(arrivals: Seq<SpeedtestArrival>, step: u32) -> bool {
    forall|k: int| 0 <= k <= arrivals.len() ==> #[trigger] step_total(arrivals.subrange(0, k), step) <= u64::MAX
}

/// The sum of step `step`'s payload bytes, or `None` when a running sum
/// overflows `u64`.
pub fn total_for_step(arrivals: &[SpeedtestArrival], step: u32) -> (r: Option<u64>)
    ensures
        step_sum_fits(arrivals@, step) ==> r == Some(step_total(arrivals@, step) as u64),
        !step_sum_fits(arrivals@, step) ==> r is None,
{
    let mut sum: u64 = 0;
    let mut i: usize = 0;
    while i < arrivals.len()
        invariant
            i <= arrivals@.len(),
            sum == step_total(arrivals@.subrange(0, i as int), step),
            forall|k: int| 0 <= k <= i ==> #[trigger] step_total(arrivals@.subrange(0, k), step) <= u64::MAX,
        decreases arrivals@.len() - i,
    {
        assert(arrivals@.subrange(0, i + 1).drop_last() =~= arrivals@.subrange(0, i as int));
        let a = arrivals[i];
        if a.step_index == step {
            if sum > u64::MAX - a.payload_bytes {
                assert(step_total(arrivals@.subrange(0, i + 1), step) > u64::MAX);
                return None;
            }
            sum = sum + a.payload_bytes;
        }
        i = i + 1;
    }
    assert(arrivals@.subrange(0, i as int) =~= arrivals@);
    Some(sum)
}

/// The per-step byte totals of a ramp of `n_steps` steps, or `None` when a
/// step's sum overflows `u64`.
pub fn step_totals(arrivals: &[SpeedtestArrival], n_steps: usize) -> (r: Option<Vec<u64>>)
    requires
        n_steps <= u32::MAX + 1,
    ensures
        (forall|s: int| 0 <= s < n_steps ==> #[trigger] step_sum_fits(arrivals@, s as u32)) ==> (r matches Some(v) && v@.len()
            == n_steps && forall|s: int| 0 <= s < n_steps ==> v@[s] == step_total(arrivals@, s as u32)),
        !(forall|s: int| 0 <= s < n_steps ==> #[trigger] step_sum_fits(arrivals@, s as u32)) ==> r is None,
{
    let mut out: Vec<u64> = Vec::new();
    let mut s: usize = 0;
    while s < n_steps
        invariant
            s <= n_steps <= u32::MAX + 1,
            out@.len() == s,
            forall|t: int| 0 <= t < s ==> #[trigger] step_sum_fits(arrivals@, t as u32),
            forall|t: int| 0 <= t < s ==> #[trigger] out@[t] == step_total(arrivals@, t as u32),
        decreases n_steps - s,
    {
        match total_for_step(arrivals, s as u32) {
            Some(t) => {
                let ghost before = out@;
                proof {
                    assert(step_sum_fits(arrivals@, s as u32));
                    assert(arrivals@.subrange(0, arrivals@.len() as int) =~= arrivals@);
                    assert(step_total(arrivals@.subrange(0, arrivals@.len() as int), s as u32) <= u64::MAX);
                }
                out.push(t);
                assert(forall|u: int| 0 <= u < s ==> out@[u] == before[u]);
                assert(out@[s as int] == step_total(arrivals@, s as u32));
            },
            None => {
                return None;
            },
        }
        s = s + 1;
    }
    Some(out)
}

/// Accumulator of speedtest arrivals: the pipeline records, the runner reads.
pub struct SpeedTestCounter {
    arrivals: Vec<SpeedtestArrival>,
}

impl SpeedTestCounter {
    /// The arrivals recorded so far, in order.
    pub closed spec fn recorded(&self) -> Seq<SpeedtestArrival> {
        self.arrivals@
    }

    /// An empty counter.
    pub fn new() -> (c: SpeedTestCounter)
        ensures
            c.recorded() == Seq::<SpeedtestArrival>::empty(),
    {
        SpeedTestCounter { arrivals: Vec::new() }
    }

    /// Record one arrival.
    pub fn record(&mut self, arrival: SpeedtestArrival)
        ensures
            final(self).recorded() == old(self).recorded().push(arrival),
    {
        self.arrivals.push(arrival);
    }

    /// Total payload bytes recorded for `step_index`, or `None` when the sum
    /// overflows `u64`.
    pub fn bytes_for_step(&self, step_index: u32) -> (r: Option<u64>)
        ensures
            step_sum_fits(self.recorded(), step_index) ==> r == Some(step_total(self.recorded(), step_index) as u64),
            !step_sum_fits(self.recorded(), step_index) ==> r is None,
    {
        total_for_step(self.arrivals.as_slice(), step_index)
    }

    /// Take every arrival recorded so far, leaving the counter empty.
    pub fn drain(&mut self) -> (r: Vec<SpeedtestArrival>)
        ensures
            r@ == old(self).recorded(),
            final(self).recorded() == Seq::<SpeedtestArrival>::empty(),
    {
        let mut taken: Vec<SpeedtestArrival> = Vec::new();
        std::mem::swap(&mut taken, &mut self.arrivals);
        taken
    }
}

/// Recording an arrival adds its bytes to its own step's total and leaves
/// every other step's total unchanged.
pub proof fn law_record_adds_to_its_step(arrivals: Seq<SpeedtestArrival>, a: SpeedtestArrival, step: u32)
    ensures
        step_total(arrivals.push(a), step) == step_total(arrivals, step) + if a.step_index == step {
            a.payload_bytes as int
        } else {
            0
        },
{
    assert(arrivals.push(a).drop_last() =~= arrivals);
}

} // verus!
