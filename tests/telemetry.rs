use cultiva::telemetry::{
    capture_delay, PollOutcome, SchedulerAction, TelemetryScheduler, SHORT_INTERVAL_SECS,
    STEADY_INTERVAL_SECS,
};

#[test]
fn first_interval_is_short() {
    assert_eq!(TelemetryScheduler::new().interval(), 10);
}

#[test]
fn success_relaxes_and_failure_resets() {
    let mut s = TelemetryScheduler::new();
    assert_eq!(s.record(PollOutcome::Stored), SchedulerAction::Sleep { secs: 1800 });
    assert_eq!(s.interval(), STEADY_INTERVAL_SECS);
    assert_eq!(s.record(PollOutcome::Stored), SchedulerAction::Sleep { secs: 1800 });
    assert_eq!(s.record(PollOutcome::PollFailed), SchedulerAction::Sleep { secs: 10 });
    assert_eq!(s.interval(), SHORT_INTERVAL_SECS);
    assert_eq!(s.record(PollOutcome::PollFailed), SchedulerAction::Sleep { secs: 10 });
    assert_eq!(s.record(PollOutcome::Stored), SchedulerAction::Sleep { secs: 1800 });
    assert_eq!(s.record(PollOutcome::PollFailed), SchedulerAction::Sleep { secs: 10 });
    // The board answered: the interval relaxes even though storing failed.
    assert_eq!(s.record(PollOutcome::StoreFailed), SchedulerAction::Sleep { secs: 1800 });
    assert_eq!(s.interval(), STEADY_INTERVAL_SECS);
}

#[test]
fn poisoned_lock_terminates() {
    let mut s = TelemetryScheduler::new();
    s.record(PollOutcome::Stored);
    assert_eq!(s.record(PollOutcome::LockPoisoned), SchedulerAction::Terminate);
}

#[test]
fn capture_delays() {
    assert_eq!(capture_delay(true), 3 * 60 * 60);
    assert_eq!(capture_delay(false), 60);
}
