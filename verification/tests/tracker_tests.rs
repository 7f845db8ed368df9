use ledger_core::tracker::{
    await_commitment, await_threshold, PollDirective, ThresholdOutcome, Tracker, TrackerError,
    TrackerPhase, TransactionStatus,
};

fn committed_after(n: usize, total: usize) -> Vec<TransactionStatus> {
    // Pending on the first n - 1 polls, committed on poll n, pending
    // filler afterwards.
    let mut v = Vec::new();
    for i in 0..total {
        if i + 1 == n {
            v.push(TransactionStatus::Committed);
        } else {
            v.push(TransactionStatus::Pending);
        }
    }
    v
}

#[test]
fn tracker_succeeds_after_exactly_n_polls() {
    let obs = committed_after(4, 10);
    assert_eq!(await_commitment(&obs, 9), Ok(4));
    // One more than needed changes nothing: still exactly four polls.
    assert_eq!(await_commitment(&obs, 5), Ok(4));
    assert_eq!(await_commitment(&obs, 4), Ok(4));
}

#[test]
fn tracker_times_out_below_n_polls() {
    let obs = committed_after(4, 10);
    assert_eq!(await_commitment(&obs, 3), Err(TrackerError::Timeout));
    assert_eq!(await_commitment(&obs, 0), Err(TrackerError::Timeout));
}

#[test]
fn tracker_status_unavailable_when_observations_run_out() {
    let obs = vec![TransactionStatus::Pending, TransactionStatus::Pending];
    assert_eq!(await_commitment(&obs, 5), Err(TrackerError::StatusUnavailable));
}

#[test]
fn tracker_never_committed_times_out() {
    let obs = vec![TransactionStatus::Pending; 6];
    assert_eq!(await_commitment(&obs, 6), Err(TrackerError::Timeout));
}

#[test]
fn tracker_state_machine_transitions() {
    let mut t = Tracker::new(Some(3));
    assert_eq!(t.phase, TrackerPhase::Submitted);
    assert_eq!(t.record_poll(TransactionStatus::Pending), PollDirective::Wait);
    assert_eq!(t.phase, TrackerPhase::Polling);
    assert_eq!(t.attempts, 1);
    assert_eq!(t.record_poll(TransactionStatus::Committed), PollDirective::Finished);
    assert_eq!(t.phase, TrackerPhase::Committed);
    assert!(!t.is_active());
}

#[test]
fn tracker_state_machine_exhausts_bound() {
    let mut t = Tracker::new(Some(2));
    assert_eq!(t.record_poll(TransactionStatus::Pending), PollDirective::Wait);
    assert!(t.is_active());
    assert_eq!(t.record_poll(TransactionStatus::Pending), PollDirective::Abort);
    assert_eq!(t.phase, TrackerPhase::TimedOut);
    assert!(!t.is_active());
}

#[test]
fn tracker_unbounded_keeps_waiting() {
    let mut t = Tracker::new(None);
    for _ in 0..100 {
        assert_eq!(t.record_poll(TransactionStatus::Pending), PollDirective::Wait);
    }
    assert_eq!(t.attempts, 100);
    assert!(t.is_active());
}

#[test]
fn threshold_reached_within_bound() {
    let obs = vec![0u64, 0, 1, 2];
    assert_eq!(
        await_threshold(&obs, 2, 10),
        ThresholdOutcome::Reached { polls: 4 },
    );
}

#[test]
fn threshold_exhausted_reports_last_value() {
    let obs = vec![0u64, 1, 1, 1];
    // Only three polls allowed, threshold never reached: the last
    // observation comes back.
    assert_eq!(
        await_threshold(&obs, 2, 3),
        ThresholdOutcome::Exhausted { last: Some(1) },
    );
}

#[test]
fn threshold_no_polls_reports_nothing() {
    let obs: Vec<u64> = vec![];
    assert_eq!(
        await_threshold(&obs, 2, 5),
        ThresholdOutcome::Exhausted { last: None },
    );
}

#[test]
fn threshold_reached_on_first_poll() {
    let obs = vec![7u64];
    assert_eq!(
        await_threshold(&obs, 2, 1),
        ThresholdOutcome::Reached { polls: 1 },
    );
}
