//! Bookkeeping of a stream of market events: how many were processed, how
//! many failed, and when progress is due to be reported.
use vstd::prelude::*;

verus! {

/// Number of events between two progress reports.
pub const REPORT_INTERVAL: u64 = 1000;

/// Counts of the events taken from a stream.
#[derive(Clone, Copy, Debug, PartialEq, Eq, Structural)]
pub struct IngestionCounts {
    /// Events taken so far.
    pub total_events: u64,
    /// Events that were processed.
    pub successful_events: u64,
    /// Events whose processing failed.
    pub failed_events: u64,
}

impl IngestionCounts {
    /// No events yet.
    pub fn new() -> (c: IngestionCounts)
        ensures
            c.total_events == 0,
            c.successful_events == 0,
            c.failed_events == 0,
    {
        IngestionCounts { total_events: 0, successful_events: 0, failed_events: 0 }
    }

    /// True when every event is counted once, as a success or a failure.
    pub open spec fn balanced(&self) -> bool {
        self.total_events == self.successful_events + self.failed_events
    }

    /// Counts one more event, processed or failed.
    pub fn record_event(&mut self, success: bool)
        requires
            old(self).total_events < u64::MAX,
            success ==> old(self).successful_events < u64::MAX,
            !success ==> old(self).failed_events < u64::MAX,
        ensures
            final(self).total_events == old(self).total_events + 1,
            final(self).successful_events == old(self).successful_events + (if success { 1int } else { 0int }),
            final(self).failed_events == old(self).failed_events + (if success { 0int } else { 1int }),
            old(self).balanced() ==> final(self).balanced(),
    {
        self.total_events = self.total_events + 1;
        if success {
            self.successful_events = self.successful_events + 1;
        } else {
            self.failed_events = self.failed_events + 1;
        }
    }

    /// True when a progress report is due: every `interval` events.
    pub fn report_due(&self, interval: u64) -> (b: bool)
        requires
            interval > 0,
        ensures
            b == (self.total_events % interval == 0),
    {
        self.total_events % interval == 0
    }
}

impl Default for IngestionCounts {
    fn default() -> (c: IngestionCounts)
        ensures
            c.total_events == 0,
            c.successful_events == 0,
            c.failed_events == 0,
    {
        IngestionCounts::new()
    }
}

} // verus!
