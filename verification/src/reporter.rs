//! The reporter's decisions.
//!
//! The reporter wakes at a short polling period, so that a stop request is
//! noticed quickly, and reports at a coarser interval. What it does on each
//! wake-up is decided here from plain values: the run flag as it was read, and
//! the reading of a monotonic clock in nanoseconds. Whoever drives it reads
//! the flag and the clock, sleeps, and writes the line.

use vstd::prelude::*;

verus! {

/// The polling period, in milliseconds.
pub const POLL_INTERVAL_MILLIS: u64 = 100;

/// The reporting interval, in milliseconds.
pub const REPORT_INTERVAL_MILLIS: u64 = 1000;

/// The file that holds the latest statistics line.
pub const LOG_FILE_PATH: &'static str = "stats.log";

/// What the reporter does on one wake-up.
#[derive(Clone, Copy, Debug, PartialEq, Eq, Structural)]
pub enum ReporterAction {
    /// The run flag is down: leave the loop.
    Stop,
    /// A report is due: render the line, write it, record the tick.
    Report,
    /// Nothing is due: sleep for one polling period.
    Wait,
}

/// The reporter's state: its interval, and the time of its last tick.
#[derive(Clone, Copy, Debug)]
pub struct Reporter {
    pub interval_nanos: u128,
    pub last_tick_nanos: u128,
}

impl Reporter {
    /// The time that has passed since the last tick: zero where the clock
    /// reads earlier than the tick.
    pub open spec fn since_last_tick(&self, now_nanos: u128) -> nat {
        if now_nanos >= self.last_tick_nanos {
            (now_nanos - self.last_tick_nanos) as nat
        } else {
            0
        }
    }

    /// A report is due once a full interval has passed since the last tick.
    pub open spec fn due(&self, now_nanos: u128) -> bool {
        self.since_last_tick(now_nanos) >= self.interval_nanos
    }

    /// The action for one wake-up: a lowered run flag stops the reporter
    /// whatever the time; otherwise it reports where a report is due, and
    /// waits where none is.
    pub open spec fn decide(&self, running: bool, now_nanos: u128) -> ReporterAction {
        if !running {
            ReporterAction::Stop
        } else if self.due(now_nanos) {
            ReporterAction::Report
        } else {
            ReporterAction::Wait
        }
    }

    /// A reporter that starts at `now_nanos` and reports every
    /// `interval_nanos`.
    pub fn new(interval_nanos: u128, now_nanos: u128) -> (reporter: Self)
        ensures
            reporter.interval_nanos == interval_nanos,
            reporter.last_tick_nanos == now_nanos,
    {
        Reporter { interval_nanos, last_tick_nanos: now_nanos }
    }

    /// Decides what to do on a wake-up at `now_nanos`, with the run flag read
    /// as `running`.
    pub fn poll(&self, running: bool, now_nanos: u128) -> (action: ReporterAction)
        ensures
            action == self.decide(running, now_nanos),
    {
        if !running {
            ReporterAction::Stop
        } else {
            let passed: u128 = if now_nanos >= self.last_tick_nanos {
                now_nanos - self.last_tick_nanos
            } else {
                0
            };
            if passed >= self.interval_nanos {
                ReporterAction::Report
            } else {
                ReporterAction::Wait
            }
        }
    }

    /// Records a tick at `now_nanos`.
    pub fn record_tick(&mut self, now_nanos: u128)
        ensures
            final(self).last_tick_nanos == now_nanos,
            final(self).interval_nanos == old(self).interval_nanos,
    {
        self.last_tick_nanos = now_nanos;
    }
}

/// After a tick, the reporter waits until a full interval has passed and
/// reports from then on, as long as the run flag is up.
pub proof fn lemma_reports_once_per_interval(reporter: Reporter, now_nanos: u128)
    requires
        now_nanos >= reporter.last_tick_nanos,
    ensures
        reporter.decide(true, now_nanos) == ReporterAction::Report <==> now_nanos
            >= reporter.last_tick_nanos + reporter.interval_nanos,
        reporter.decide(true, now_nanos) == ReporterAction::Wait <==> now_nanos
            < reporter.last_tick_nanos + reporter.interval_nanos,
{
}

} // verus!
