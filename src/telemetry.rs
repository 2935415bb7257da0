//! Timing of the periodic sensor poll and of camera captures.

use vstd::prelude::*;

verus! {

/// Poll interval after a failure, and before the first poll, in seconds.
pub const SHORT_INTERVAL_SECS: u64 = 10;

/// Poll interval after a reading was stored, in seconds.
pub const STEADY_INTERVAL_SECS: u64 = 1800;

/// Delay before the next camera capture after a failed one, in seconds.
pub const CAPTURE_RETRY_SECS: u64 = 60;

/// Delay before the next camera capture after a saved one, in seconds.
pub const CAPTURE_PERIOD_SECS: u64 = 10800;

/// What one telemetry cycle came to.
#[derive(Clone, Copy, Debug, PartialEq, Eq, Structural)]
pub enum PollOutcome {
    /// The board answered and the reading was stored.
    Stored,
    /// The board answered but storing the reading failed; the poll still
    /// counts as successful.
    StoreFailed,
    /// The link failed or the answer could not be decoded.
    PollFailed,
    /// The lock on the board was poisoned by a panic while held: the
    /// board's state can no longer be trusted.
    LockPoisoned,
}

/// What the telemetry loop does next.
#[derive(Clone, Copy, Debug, PartialEq, Eq, Structural)]
pub enum SchedulerAction {
    /// Sleep this many seconds, then poll again.
    Sleep { secs: u64 },
    /// Stop the process.
    Terminate,
}

/// Whether the board answered the poll, whatever became of the reading.
pub open spec fn polled(o: PollOutcome) -> bool {
    o is Stored || o is StoreFailed
}

/// The interval that follows a cycle with outcome `o`: it depends on the
/// outcome alone, and is the steady one after every answered poll.
pub open spec fn next_interval(o: PollOutcome) -> u64 {
    if polled(o) {
        STEADY_INTERVAL_SECS
    } else {
        SHORT_INTERVAL_SECS
    }
}

/// The periodic poller's timing state.
pub struct TelemetryScheduler {
    interval: u64,
}

impl TelemetryScheduler {
    pub closed spec fn interval_secs(&self) -> u64 {
        self.interval
    }

    /// A scheduler whose first sleep is the short interval.
    pub fn new() -> (r: TelemetryScheduler)
        ensures
            r.interval_secs() == SHORT_INTERVAL_SECS,
    {
        TelemetryScheduler { interval: SHORT_INTERVAL_SECS }
    }

    /// Seconds to sleep before the next poll.
    pub fn interval(&self) -> (r: u64)
        ensures
            r == self.interval_secs(),
    {
        self.interval
    }

    /// Takes in the outcome of a cycle and says what to do next.
    pub fn record(&mut self, outcome: PollOutcome) -> (r: SchedulerAction)
        ensures
            final(self).interval_secs() == next_interval(outcome),
            outcome is LockPoisoned ==> r == SchedulerAction::Terminate,
            !(outcome is LockPoisoned) ==> r == (SchedulerAction::Sleep {
                secs: next_interval(outcome),
            }),
    {
        self.interval = match outcome {
            PollOutcome::Stored | PollOutcome::StoreFailed => STEADY_INTERVAL_SECS,
            _ => SHORT_INTERVAL_SECS,
        };
        match outcome {
            PollOutcome::LockPoisoned => SchedulerAction::Terminate,
            _ => SchedulerAction::Sleep { secs: self.interval },
        }
    }
}

/// After a successful poll the next interval is the long steady one, even
/// when storing the reading failed; after a failed poll (lock, link or
/// protocol) it is the short one. `record` sets it from the outcome alone,
/// so the interval before the cycle plays no part.
pub proof fn lemma_interval_after_outcome(o: PollOutcome)
    ensures
        (o is Stored || o is StoreFailed) ==> next_interval(o) == STEADY_INTERVAL_SECS,
        (o is PollFailed || o is LockPoisoned) ==> next_interval(o) == SHORT_INTERVAL_SECS,
        SHORT_INTERVAL_SECS < STEADY_INTERVAL_SECS,
{
}

/// Delay before the next camera capture.
pub fn capture_delay(saved: bool) -> (r: u64)
    ensures
        r == (if saved {
            CAPTURE_PERIOD_SECS
        } else {
            CAPTURE_RETRY_SECS
        }),
{
    if saved {
        CAPTURE_PERIOD_SECS
    } else {
        CAPTURE_RETRY_SECS
    }
}

} // verus!
