//! The broker sink: batches records and accounts for what was sent,
//! dropped, or lost to broker errors. The broker connection itself lives
//! outside; this module decides when a batch is handed over and how every
//! send outcome is counted, so a broker outage can never do more than drop
//! the one batch in flight.

use vstd::prelude::*;

use crate::capture_config::RedisConfig;
use crate::counters::{sat_add, sat_add64};
use crate::frame::CapturedFrame;

verus! {

/// Output statistics.
#[derive(Clone, Copy, Debug)]
pub struct OutputStats {
    /// Frames sent successfully.
    pub frames_sent: u64,
    /// Frames dropped (channel full).
    pub frames_dropped: u64,
    /// Send errors.
    pub send_errors: u64,
    /// Total bytes sent.
    pub bytes_sent: u64,
}

/// The broker stream publisher: accumulates records until a batch is full
/// or the flush interval has elapsed.
pub struct RedisOutput {
    config: RedisConfig,
    stats: OutputStats,
    batch: Vec<CapturedFrame>,
}

impl RedisOutput {
    /// The records waiting in the current batch.
    pub closed spec fn pending(&self) -> Seq<CapturedFrame> {
        self.batch@
    }

    /// The statistics so far.
    pub closed spec fn spec_stats(&self) -> OutputStats {
        self.stats
    }

    /// The stream configuration.
    pub closed spec fn spec_config(&self) -> RedisConfig {
        self.config
    }

    /// Create a new publisher.
    pub fn new(config: RedisConfig) -> (r: Self)
        ensures
            r.spec_config() == config,
            r.pending().len() == 0,
            r.spec_stats().frames_sent == 0 && r.spec_stats().frames_dropped == 0
                && r.spec_stats().send_errors == 0 && r.spec_stats().bytes_sent == 0,
    {
        Self {
            config,
            stats: OutputStats { frames_sent: 0, frames_dropped: 0, send_errors: 0,
                bytes_sent: 0 },
            batch: Vec::new(),
        }
    }

    /// Get the output statistics.
    pub fn stats(&self) -> (r: OutputStats)
        ensures
            r == self.spec_stats(),
    {
        self.stats
    }

    /// The stream name to publish to.
    pub fn stream_name(&self) -> (r: &String)
        ensures
            r == self.spec_config().stream_name,
    {
        &self.config.stream_name
    }

    /// The approximate maximum stream length for trim-on-append.
    pub fn max_stream_length(&self) -> (r: usize)
        ensures
            r == self.spec_config().max_stream_length,
    {
        self.config.max_stream_length
    }

    /// Accept one record. When the batch reaches `batch_size` it is handed
    /// back, ready to publish, and the buffer starts empty again.
    pub fn push_frame(&mut self, frame: CapturedFrame, batch_size: usize)
        -> (flush: Option<Vec<CapturedFrame>>)
        ensures
            final(self).spec_stats() == old(self).spec_stats(),
            final(self).spec_config() == old(self).spec_config(),
            old(self).pending().len() + 1 >= batch_size ==> (flush matches Some(b)
                && b@ == old(self).pending().push(frame) && final(self).pending().len() == 0),
            old(self).pending().len() + 1 < batch_size ==> (flush is None
                && final(self).pending() == old(self).pending().push(frame)),
    {
        self.batch.push(frame);
        if self.batch.len() >= batch_size {
            let mut out: Vec<CapturedFrame> = Vec::new();
            core::mem::swap(&mut out, &mut self.batch);
            Some(out)
        } else {
            None
        }
    }

    /// Take whatever is pending, for a timer flush or final drain.
    pub fn take_batch(&mut self) -> (b: Vec<CapturedFrame>)
        ensures
            b@ == old(self).pending(),
            final(self).pending().len() == 0,
            final(self).spec_stats() == old(self).spec_stats(),
            final(self).spec_config() == old(self).spec_config(),
    {
        let mut out: Vec<CapturedFrame> = Vec::new();
        core::mem::swap(&mut out, &mut self.batch);
        out
    }

    /// Account for one publish attempt of a batch of `count` records and
    /// `bytes` payload bytes. On success the sent counters grow; on a
    /// broker error the batch is counted as one send error and otherwise
    /// forgotten — the loop continues.
    pub fn on_send_result(&mut self, count: u64, bytes: u64, ok: bool)
        ensures
            final(self).pending() == old(self).pending(),
            final(self).spec_config() == old(self).spec_config(),
            ok ==> final(self).spec_stats() == (OutputStats {
                frames_sent: sat_add64(old(self).spec_stats().frames_sent, count),
                bytes_sent: sat_add64(old(self).spec_stats().bytes_sent, bytes),
                ..old(self).spec_stats()
            }),
            !ok ==> final(self).spec_stats() == (OutputStats {
                send_errors: sat_add64(old(self).spec_stats().send_errors, 1),
                ..old(self).spec_stats()
            }),
    {
        if ok {
            self.stats.frames_sent = sat_add(self.stats.frames_sent, count);
            self.stats.bytes_sent = sat_add(self.stats.bytes_sent, bytes);
        } else {
            self.stats.send_errors = sat_add(self.stats.send_errors, 1);
        }
    }

    /// Account for a record dropped before it reached the batch (the
    /// channel from the capture threads was full).
    pub fn on_frame_dropped(&mut self)
        ensures
            final(self).pending() == old(self).pending(),
            final(self).spec_config() == old(self).spec_config(),
            final(self).spec_stats() == (OutputStats {
                frames_dropped: sat_add64(old(self).spec_stats().frames_dropped, 1),
                ..old(self).spec_stats()
            }),
    {
        self.stats.frames_dropped = sat_add(self.stats.frames_dropped, 1);
    }
}

/// Stream information.
#[derive(Clone, Debug)]
pub struct StreamInfo {
    pub length: u64,
    pub first_entry: Option<String>,
    pub last_entry: Option<String>,
}

} // verus!
