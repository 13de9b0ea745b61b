//! The capture engine's verified bookkeeping: per-interface lifecycle and
//! statistics. The raw socket, the read loop and the promiscuous-mode
//! ioctl live outside; this module decides what each event does to the
//! session and guarantees the resource discipline.

use vstd::prelude::*;

use crate::counters::{sat_add, sat_add64};
use crate::ethernet::{frame_decoded, frame_ok, parse_frame};
use crate::frame::CapturedFrame;

verus! {

/// Capture statistics.
#[derive(Clone, Copy, Debug)]
pub struct CaptureStats {
    /// Total packets captured.
    pub packets_captured: u64,
    /// Total bytes captured.
    pub bytes_captured: u64,
    /// Packets dropped on a full channel.
    pub packets_dropped: u64,
    /// Frames the decoder rejected.
    pub parse_errors: u64,
}

impl CaptureStats {
    /// Create zeroed statistics.
    pub fn new() -> (r: Self)
        ensures
            r.packets_captured == 0 && r.bytes_captured == 0 && r.packets_dropped == 0
                && r.parse_errors == 0,
    {
        Self { packets_captured: 0, bytes_captured: 0, packets_dropped: 0, parse_errors: 0 }
    }

    /// Copy out the current values.
    pub fn snapshot(&self) -> (r: CaptureStatsSnapshot)
        ensures
            r.packets_captured == self.packets_captured,
            r.bytes_captured == self.bytes_captured,
            r.packets_dropped == self.packets_dropped,
            r.parse_errors == self.parse_errors,
    {
        CaptureStatsSnapshot {
            packets_captured: self.packets_captured,
            bytes_captured: self.bytes_captured,
            packets_dropped: self.packets_dropped,
            parse_errors: self.parse_errors,
        }
    }
}

/// Snapshot of capture statistics.
#[derive(Clone, Copy, Debug)]
pub struct CaptureStatsSnapshot {
    pub packets_captured: u64,
    pub bytes_captured: u64,
    pub packets_dropped: u64,
    pub parse_errors: u64,
}

/// The lifecycle of one capture interface.
#[derive(Clone, Copy, Debug, PartialEq, Eq, Structural)]
pub enum CapturePhase {
    /// Created, nothing opened.
    Configured,
    /// The capture socket is bound.
    Opened,
    /// Reading frames; promiscuous mode held if configured.
    Running,
    /// Shutdown requested; the loop finishes its current read.
    Stopping,
    /// Socket and promiscuous mode released.
    Closed,
}

/// Per-interface capture session: the lifecycle state machine
/// `Configured -> Opened -> Running <-> Stopping -> Closed`, with its
/// counters. The caller performs the reads and sends; the session decides
/// and counts.
pub struct CaptureSession {
    /// Interface name.
    pub interface: String,
    /// Whether promiscuous mode is wanted.
    pub promiscuous: bool,
    /// Whether promiscuous mode is currently held.
    pub promiscuous_on: bool,
    /// Lifecycle phase.
    pub phase: CapturePhase,
    /// Counters.
    pub stats: CaptureStats,
}

impl CaptureSession {
    /// The resource discipline: promiscuous mode is held only while
    /// running or stopping, and never once closed.
    pub open spec fn wf(&self) -> bool {
        self.promiscuous_on ==> (self.phase == CapturePhase::Running
            || self.phase == CapturePhase::Stopping)
    }

    /// Create a session for an interface.
    pub fn new(interface: &str, promiscuous: bool) -> (r: Self)
        ensures
            r.interface@ == interface@,
            r.promiscuous == promiscuous,
            !r.promiscuous_on,
            r.phase == CapturePhase::Configured,
            r.stats.packets_captured == 0 && r.stats.bytes_captured == 0
                && r.stats.packets_dropped == 0 && r.stats.parse_errors == 0,
            r.wf(),
    {
        Self {
            interface: interface.to_owned(),
            promiscuous,
            promiscuous_on: false,
            phase: CapturePhase::Configured,
            stats: CaptureStats::new(),
        }
    }

    /// The socket has been bound.
    pub fn open(&mut self)
        requires
            old(self).phase == CapturePhase::Configured,
            old(self).wf(),
        ensures
            *final(self) == (CaptureSession { phase: CapturePhase::Opened, ..*old(self) }),
            final(self).wf(),
    {
        self.phase = CapturePhase::Opened;
    }

    /// The read loop starts; promiscuous mode is acquired iff configured.
    pub fn start(&mut self)
        requires
            old(self).phase == CapturePhase::Opened,
            old(self).wf(),
        ensures
            final(self).phase == CapturePhase::Running,
            final(self).promiscuous_on == final(self).promiscuous,
            final(self).interface == old(self).interface,
            final(self).promiscuous == old(self).promiscuous,
            final(self).stats == old(self).stats,
            final(self).wf(),
    {
        self.phase = CapturePhase::Running;
        self.promiscuous_on = self.promiscuous;
    }

    /// One frame was read: count it and decode it. A decode failure is
    /// counted and the frame dropped; the loop never dies on one.
    pub fn on_frame(&mut self, data: &[u8]) -> (r: Option<CapturedFrame>)
        requires
            old(self).phase == CapturePhase::Running,
            old(self).wf(),
            data@.len() <= 0xFFFF_FFFF,
        ensures
            final(self).phase == old(self).phase,
            final(self).interface == old(self).interface,
            final(self).promiscuous == old(self).promiscuous,
            final(self).promiscuous_on == old(self).promiscuous_on,
            final(self).wf(),
            final(self).stats.packets_captured
                == sat_add64(old(self).stats.packets_captured, 1),
            final(self).stats.bytes_captured
                == sat_add64(old(self).stats.bytes_captured, data@.len() as u64),
            final(self).stats.packets_dropped == old(self).stats.packets_dropped,
            frame_ok(data@) ==> (r matches Some(f)
                && frame_decoded(old(self).interface@, data@, f) && f.wf()
                && final(self).stats.parse_errors == old(self).stats.parse_errors),
            !frame_ok(data@) ==> (r is None
                && final(self).stats.parse_errors
                    == sat_add64(old(self).stats.parse_errors, 1)),
    {
        self.stats.packets_captured = sat_add(self.stats.packets_captured, 1);
        self.stats.bytes_captured = sat_add(self.stats.bytes_captured, data.len() as u64);
        match parse_frame(self.interface.as_str(), data) {
            Ok(frame) => Some(frame),
            Err(_) => {
                self.stats.parse_errors = sat_add(self.stats.parse_errors, 1);
                None
            },
        }
    }

    /// The channel to the sink was full: the frame is dropped and counted,
    /// never blocking the capture thread.
    pub fn on_channel_full(&mut self)
        requires
            old(self).wf(),
        ensures
            final(self).stats.packets_dropped
                == sat_add64(old(self).stats.packets_dropped, 1),
            final(self).stats.packets_captured == old(self).stats.packets_captured,
            final(self).stats.bytes_captured == old(self).stats.bytes_captured,
            final(self).stats.parse_errors == old(self).stats.parse_errors,
            final(self).phase == old(self).phase,
            final(self).interface == old(self).interface,
            final(self).promiscuous == old(self).promiscuous,
            final(self).promiscuous_on == old(self).promiscuous_on,
            final(self).wf(),
    {
        self.stats.packets_dropped = sat_add(self.stats.packets_dropped, 1);
    }

    /// A shutdown signal or fatal read error: enter Stopping.
    pub fn stop(&mut self)
        requires
            old(self).phase == CapturePhase::Running
                || old(self).phase == CapturePhase::Stopping,
            old(self).wf(),
        ensures
            *final(self) == (CaptureSession { phase: CapturePhase::Stopping, ..*old(self) }),
            final(self).wf(),
    {
        self.phase = CapturePhase::Stopping;
    }

    /// Whether the read loop should continue.
    pub fn is_running(&self) -> (r: bool)
        ensures
            r == (self.phase == CapturePhase::Running),
    {
        match self.phase {
            CapturePhase::Running => true,
            _ => false,
        }
    }

    /// Release the socket and promiscuous mode, unconditionally, from any
    /// phase: every exit path ends here.
    pub fn close(&mut self)
        ensures
            final(self).phase == CapturePhase::Closed,
            !final(self).promiscuous_on,
            final(self).interface == old(self).interface,
            final(self).promiscuous == old(self).promiscuous,
            final(self).stats == old(self).stats,
            final(self).wf(),
    {
        self.phase = CapturePhase::Closed;
        self.promiscuous_on = false;
    }
}

/// A closed session never holds promiscuous mode: the resource discipline
/// of the capture engine, as guaranteed by every transition above.
pub proof fn lemma_closed_releases_promisc(s: &CaptureSession)
    requires
        s.wf(),
        s.phase == CapturePhase::Closed,
    ensures
        !s.promiscuous_on,
{
}

/// Sum statistics over several interfaces' snapshots, saturating.
pub fn combined_stats(snapshots: &Vec<CaptureStatsSnapshot>) -> (r: CaptureStatsSnapshot)
    ensures
        r.packets_captured == spec_sum_captured(snapshots@),
        r.bytes_captured == spec_sum_bytes(snapshots@),
        r.packets_dropped == spec_sum_dropped(snapshots@),
        r.parse_errors == spec_sum_errors(snapshots@),
{
    let mut combined = CaptureStatsSnapshot {
        packets_captured: 0,
        bytes_captured: 0,
        packets_dropped: 0,
        parse_errors: 0,
    };
    let mut i: usize = 0;
    while i < snapshots.len()
        invariant
            i <= snapshots@.len(),
            combined.packets_captured == spec_sum_captured(snapshots@.take(i as int)),
            combined.bytes_captured == spec_sum_bytes(snapshots@.take(i as int)),
            combined.packets_dropped == spec_sum_dropped(snapshots@.take(i as int)),
            combined.parse_errors == spec_sum_errors(snapshots@.take(i as int)),
        decreases snapshots@.len() - i,
    {
        let s = snapshots[i];
        combined.packets_captured = sat_add(combined.packets_captured, s.packets_captured);
        combined.bytes_captured = sat_add(combined.bytes_captured, s.bytes_captured);
        combined.packets_dropped = sat_add(combined.packets_dropped, s.packets_dropped);
        combined.parse_errors = sat_add(combined.parse_errors, s.parse_errors);
        i = i + 1;
        proof {
            assert(snapshots@.take(i as int).drop_last() =~= snapshots@.take(i as int - 1));
            assert(snapshots@.take(i as int).last() == snapshots@[i as int - 1]);
        }
    }
    proof {
        assert(snapshots@.take(snapshots@.len() as int) =~= snapshots@);
    }
    combined
}

/// The saturating sum of captured-packet counters.
pub open spec fn spec_sum_captured(s: Seq<CaptureStatsSnapshot>) -> u64
    decreases s.len(),
{
    if s.len() == 0 {
        0u64
    } else {
        sat_add64(spec_sum_captured(s.drop_last()), s.last().packets_captured)
    }
}

/// The saturating sum of captured-byte counters.
pub open spec fn spec_sum_bytes(s: Seq<CaptureStatsSnapshot>) -> u64
    decreases s.len(),
{
    if s.len() == 0 {
        0u64
    } else {
        sat_add64(spec_sum_bytes(s.drop_last()), s.last().bytes_captured)
    }
}

/// The saturating sum of dropped-packet counters.
pub open spec fn spec_sum_dropped(s: Seq<CaptureStatsSnapshot>) -> u64
    decreases s.len(),
{
    if s.len() == 0 {
        0u64
    } else {
        sat_add64(spec_sum_dropped(s.drop_last()), s.last().packets_dropped)
    }
}

/// The saturating sum of parse-error counters.
pub open spec fn spec_sum_errors(s: Seq<CaptureStatsSnapshot>) -> u64
    decreases s.len(),
{
    if s.len() == 0 {
        0u64
    } else {
        sat_add64(spec_sum_errors(s.drop_last()), s.last().parse_errors)
    }
}

} // verus!
