//! Control-plane reactions of one running session: sequence numbering of
//! outgoing envelopes, answers to incoming messages, and what a broken link
//! or a `BYE` turns the session into.

use vstd::prelude::*;
use crate::session::state::{SessionStateKind, TransportTag};

verus! {

/// First sequence number the control plane hands out is one above this.
pub const INITIAL_SEQ: u64 = 100u64;

/// The body of a received envelope, as far as the control plane cares.
#[derive(Debug)]
pub enum PlaneInbound {
    Ping { seq: u64, ts_usec: u64 },
    Pong,
    DeviceInfo,
    CameraList,
    Telemetry,
    Bye { reason: String },
    Other,
}

/// What the caller must do with a received message.
#[derive(Debug)]
pub enum PlaneReaction {
    /// Answer `PONG { ts_usec: now, echo_usec }` with sequence `seq`, acking `ack`.
    SendPong { seq: u64, ack: u64, echo_usec: u64 },
    /// Store the device snapshot, report it, and announce `Ready`.
    ApplyDeviceInfo,
    /// Attach the camera list to the stored device and report the device.
    ApplyCameraList,
    /// Store the telemetry sample and report it.
    ApplyTelemetry,
    /// Announce `Closed { reason }`, report the close, and stop.
    Close { reason: String },
    /// Nothing to do.
    Ignore,
}

/// Sequence numbering and liveness of one running session.
pub struct ControlPlaneCore {
    /// Last sequence number handed out.
    pub seq: u64,
    pub transport: TransportTag,
    pub running: bool,
}

/// The sequence number after `s`, wrapping at `u64::MAX`.
pub open spec fn spec_next_seq(s: u64) -> u64 {
    if s == u64::MAX {
        0
    } else {
        (s + 1) as u64
    }
}

impl ControlPlaneCore {
    /// A running control plane over `transport`, numbering from 101.
    pub fn new(transport: TransportTag) -> (c: ControlPlaneCore)
        ensures
            c.seq == INITIAL_SEQ,
            c.transport == transport,
            c.running,
    {
        ControlPlaneCore { seq: INITIAL_SEQ, transport, running: true }
    }

    /// The state a running session is announced in.
    pub fn ready_state(&self) -> (s: SessionStateKind)
        ensures
            s == SessionStateKind::Ready,
    {
        SessionStateKind::Ready
    }

    /// Hand out the sequence number of the next outgoing envelope.
    pub fn next_seq(&mut self) -> (s: u64)
        ensures
            s == spec_next_seq(old(self).seq),
            final(self).seq == s,
            final(self).transport == old(self).transport,
            final(self).running == old(self).running,
    {
        self.seq = if self.seq == u64::MAX {
            0
        } else {
            self.seq + 1
        };
        self.seq
    }

    /// The link failed (send, receive, or a dead peer): the session is
    /// reconnecting and the loop stops.
    pub fn on_link_lost(&mut self) -> (s: SessionStateKind)
        ensures
            s == SessionStateKind::Reconnecting,
            !final(self).running,
            final(self).seq == old(self).seq,
            final(self).transport == old(self).transport,
    {
        self.running = false;
        SessionStateKind::Reconnecting
    }

    /// React to a received message. A `PING` is answered with the next
    /// sequence number, acking its own and echoing its timestamp; a `BYE`
    /// stops the loop; other messages update the snapshot or are ignored.
    pub fn on_inbound(&mut self, msg: PlaneInbound) -> (r: PlaneReaction)
        ensures
            final(self).transport == old(self).transport,
            match msg {
                PlaneInbound::Ping { seq, ts_usec } => r matches PlaneReaction::SendPong { seq: s, ack, echo_usec }
                    && s == spec_next_seq(old(self).seq) && final(self).seq == s && ack == seq && echo_usec
                    == ts_usec && final(self).running == old(self).running,
                PlaneInbound::Bye { reason } => r matches PlaneReaction::Close { reason: r2 } && r2 == reason
                    && !final(self).running && final(self).seq == old(self).seq,
                PlaneInbound::DeviceInfo => r is ApplyDeviceInfo && final(self).seq == old(self).seq
                    && final(self).running == old(self).running,
                PlaneInbound::CameraList => r is ApplyCameraList && final(self).seq == old(self).seq
                    && final(self).running == old(self).running,
                PlaneInbound::Telemetry => r is ApplyTelemetry && final(self).seq == old(self).seq
                    && final(self).running == old(self).running,
                _ => r is Ignore && final(self).seq == old(self).seq && final(self).running == old(self).running,
            },
    {
        match msg {
            PlaneInbound::Ping { seq, ts_usec } => {
                let s = self.next_seq();
                PlaneReaction::SendPong { seq: s, ack: seq, echo_usec: ts_usec }
            },
            PlaneInbound::Pong => PlaneReaction::Ignore,
            PlaneInbound::DeviceInfo => PlaneReaction::ApplyDeviceInfo,
            PlaneInbound::CameraList => PlaneReaction::ApplyCameraList,
            PlaneInbound::Telemetry => PlaneReaction::ApplyTelemetry,
            PlaneInbound::Bye { reason } => {
                self.running = false;
                PlaneReaction::Close { reason }
            },
            PlaneInbound::Other => PlaneReaction::Ignore,
        }
    }

    /// The state a `BYE` with `reason` turns the session into.
    pub fn closed_state(reason: &str) -> (s: SessionStateKind)
        ensures
            s matches SessionStateKind::Closed { reason: r } && r@ == reason@,
    {
        SessionStateKind::Closed { reason: reason.to_owned() }
    }
}

/// The `n`-th sequence number handed out after `s`.
pub open spec fn seq_after(s: u64, n: nat) -> u64
    decreases n,
{
    if n == 0 {
        s
    } else {
        spec_next_seq(seq_after(s, (n - 1) as nat))
    }
}

/// Numbering is counting modulo `2^64`: after `n` envelopes the number is
/// `(s + n) mod 2^64`, so two envelopes fewer than `2^64` apart never share
/// a number.
pub proof fn law_seq_counts_modulo(s: u64, n: nat)
    ensures
        seq_after(s, n) == (s + n) % 0x1_0000_0000_0000_0000,
    decreases n,
{
    if n > 0 {
        law_seq_counts_modulo(s, (n - 1) as nat);
        let p = (s + n - 1) % 0x1_0000_0000_0000_0000;
        assert(seq_after(s, (n - 1) as nat) == p);
        assert((s + n) % 0x1_0000_0000_0000_0000 == if p == u64::MAX { 0 } else { p + 1 }) by (nonlinear_arith)
            requires
                p == (s + n - 1) % 0x1_0000_0000_0000_0000,
                n > 0,
                s >= 0,
        ;
    }
}

} // verus!
