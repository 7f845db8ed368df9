//! Commitment tracking.
//!
//! After a transaction is submitted, the client repeatedly
//! resynchronizes its state and queries the transaction's status until
//! it observes the committed state. The tracker is the decision core of
//! that loop: a state machine fed one observed status per poll, with an
//! optional bound on the number of polls. The caller performs the
//! resynchronization, the status query and the sleep between polls, and
//! feeds each observation back in.
//!
//! The same shape serves polls of a derived on-chain value waiting to
//! reach a threshold; that variant is bounded and reports the
//! last-observed value on exhaustion rather than failing hard.

use vstd::prelude::*;

verus! {

/// The status of a submitted transaction as the synced view reports
/// it: not yet observed, or observed and terminal.
#[derive(Clone, Copy, PartialEq, Eq, Structural, Debug)]
pub enum TransactionStatus {
    Pending,
    Committed,
}

/// Why a bounded wait ended without success.
#[derive(Clone, Copy, PartialEq, Eq, Structural, Debug)]
pub enum TrackerError {
    /// The poll bound was exhausted; the caller may retry or accept
    /// the last observation.
    Timeout,
    /// No status observation could be made; a transient condition, to
    /// be retried with backoff rather than treated as a verdict.
    StatusUnavailable,
}

/// Where the tracker stands.
#[derive(Clone, Copy, PartialEq, Eq, Structural, Debug)]
pub enum TrackerPhase {
    /// Submitted, no poll made yet.
    Submitted,
    /// At least one poll made, none has observed the committed state.
    Polling,
    /// The committed state was observed; terminal success.
    Committed,
    /// The poll bound was exhausted; terminal failure.
    TimedOut,
}

/// What the driving loop should do after a poll.
#[derive(Clone, Copy, PartialEq, Eq, Structural, Debug)]
pub enum PollDirective {
    /// The transaction is committed; stop.
    Finished,
    /// Sleep one poll interval, then poll again.
    Wait,
    /// The bound is exhausted; stop and report a timeout.
    Abort,
}

/// The polling state machine for one submitted transaction.
#[derive(Clone, Copy, Debug)]
pub struct Tracker {
    pub phase: TrackerPhase,
    /// Polls made so far.
    pub attempts: u64,
    /// The poll bound; an unbounded wait has none.
    pub max_attempts: Option<u64>,
}

/// The tracker's invariant: polls never pass the bound, and a tracker
/// that has used its whole bound is terminal.
pub open spec fn tracker_wf(t: Tracker) -> bool {
    match t.max_attempts {
        Some(m) => t.attempts <= m && (t.attempts == m && m > 0 ==> t.phase is Committed
            || t.phase is TimedOut),
        None => true,
    }
}

/// The tracker may take another poll.
pub open spec fn can_poll(t: Tracker) -> bool {
    &&& !(t.phase is Committed)
    &&& !(t.phase is TimedOut)
    &&& match t.max_attempts {
        Some(m) => t.attempts < m,
        None => t.attempts < u64::MAX,
    }
}

impl Tracker {
    /// A tracker for a freshly submitted transaction.
    pub fn new(max_attempts: Option<u64>) -> (t: Tracker)
        ensures
            t.phase is Submitted,
            t.attempts == 0,
            t.max_attempts == max_attempts,
            tracker_wf(t),
    {
        Tracker { phase: TrackerPhase::Submitted, attempts: 0, max_attempts }
    }

    /// Whether another poll may be taken.
    pub fn is_active(&self) -> (r: bool)
        ensures
            r == can_poll(*self),
    {
        let terminal = match self.phase {
            TrackerPhase::Committed => true,
            TrackerPhase::TimedOut => true,
            _ => false,
        };
        if terminal {
            return false;
        }
        match self.max_attempts {
            Some(m) => self.attempts < m,
            None => self.attempts < u64::MAX,
        }
    }

    /// Record one poll's observation. A committed observation ends the
    /// wait with success; otherwise the tracker keeps polling until
    /// its bound, if any, is exhausted.
    pub fn record_poll(&mut self, status: TransactionStatus) -> (d: PollDirective)
        requires
            tracker_wf(*old(self)),
            can_poll(*old(self)),
        ensures
            tracker_wf(*final(self)),
            final(self).max_attempts == old(self).max_attempts,
            final(self).attempts == old(self).attempts + 1,
            status is Committed ==> final(self).phase is Committed && d is Finished,
            status is Pending ==> match old(self).max_attempts {
                Some(m) => if old(self).attempts + 1 == m {
                    final(self).phase is TimedOut && d is Abort
                } else {
                    final(self).phase is Polling && d is Wait
                },
                None => final(self).phase is Polling && d is Wait,
            },
    {
        self.attempts = self.attempts + 1;
        match status {
            TransactionStatus::Committed => {
                self.phase = TrackerPhase::Committed;
                PollDirective::Finished
            },
            TransactionStatus::Pending => {
                let exhausted = match self.max_attempts {
                    Some(m) => self.attempts == m,
                    None => false,
                };
                if exhausted {
                    self.phase = TrackerPhase::TimedOut;
                    PollDirective::Abort
                } else {
                    self.phase = TrackerPhase::Polling;
                    PollDirective::Wait
                }
            },
        }
    }
}

/// The first index at which the committed state is observed, or the
/// length when it never is.
pub open spec fn first_committed(obs: Seq<TransactionStatus>) -> int
    decreases obs.len(),
{
    if obs.len() == 0 {
        0
    } else if obs[0] is Committed {
        0
    } else {
        1 + first_committed(obs.skip(1))
    }
}

pub proof fn lemma_first_committed(obs: Seq<TransactionStatus>)
    ensures
        0 <= first_committed(obs) <= obs.len(),
        first_committed(obs) < obs.len() ==> obs[first_committed(obs)] is Committed,
        forall|k: int| 0 <= k < first_committed(obs) ==> !((#[trigger] obs[k]) is Committed),
    decreases obs.len(),
{
    if obs.len() == 0 {
    } else if obs[0] is Committed {
    } else {
        let rest = obs.skip(1);
        lemma_first_committed(rest);
        let fi = first_committed(obs);
        assert forall|k: int| 0 <= k < fi implies !((#[trigger] obs[k]) is Committed) by {
            if k > 0 {
                assert(rest[k - 1] == obs[k]);
            }
        }
        if fi < obs.len() {
            assert(rest[fi - 1] == obs[fi]);
        }
    }
}

/// What a bounded wait returns, given the statuses each poll would
/// observe in order: success with the number of polls used when the
/// committed state appears within the bound; a timeout when the bound
/// is exhausted first; and, when the observations run out before the
/// bound, the transient unavailability.
pub open spec fn commitment_outcome(obs: Seq<TransactionStatus>, max_attempts: u64)
    -> Result<u64, TrackerError> {
    let f = first_committed(obs);
    if f < max_attempts && f < obs.len() {
        Ok((f + 1) as u64)
    } else if max_attempts <= obs.len() {
        Err(TrackerError::Timeout)
    } else {
        Err(TrackerError::StatusUnavailable)
    }
}

/// Drive a bounded wait over the statuses each poll observes in
/// order. Success reports how many polls were used.
pub fn await_commitment(observed: &Vec<TransactionStatus>, max_attempts: u64) -> (r: Result<
    u64,
    TrackerError,
>)
    ensures
        r == commitment_outcome(observed@, max_attempts),
{
    proof {
        lemma_first_committed(observed@);
    }
    let mut tracker = Tracker::new(Some(max_attempts));
    let mut i: usize = 0;
    while i < observed.len() && (i as u64) < max_attempts
        invariant
            0 <= i,
            i <= observed@.len(),
            i as u64 <= max_attempts,
            tracker.max_attempts == Some(max_attempts),
            tracker.attempts == i,
            i < max_attempts ==> can_poll(tracker),
            tracker_wf(tracker),
            forall|k: int| 0 <= k < i ==> !((#[trigger] observed@[k]) is Committed),
            first_committed(observed@) >= i,
        decreases observed@.len() - i,
    {
        let d = tracker.record_poll(observed[i]);
        match d {
            PollDirective::Finished => {
                proof {
                    lemma_first_committed(observed@);
                    assert(first_committed(observed@) == i);
                }
                return Ok((i + 1) as u64);
            },
            PollDirective::Abort => {
                proof {
                    lemma_first_committed(observed@);
                }
                return Err(TrackerError::Timeout);
            },
            PollDirective::Wait => {
                proof {
                    lemma_first_committed(observed@);
                }
                i += 1;
            },
        }
    }
    proof {
        lemma_first_committed(observed@);
    }
    if (i as u64) >= max_attempts {
        return Err(TrackerError::Timeout);
    }
    Err(TrackerError::StatusUnavailable)
}

/// Tracker termination: when the committed state is first observed on
/// poll `n`, a wait allowed `n` or more polls succeeds after exactly
/// `n` polls, and one allowed fewer times out.
pub proof fn lemma_tracker_termination(obs: Seq<TransactionStatus>, max_attempts: u64, n: int)
    requires
        1 <= n <= obs.len(),
        obs[n - 1] is Committed,
        forall|k: int| 0 <= k < n - 1 ==> (#[trigger] obs[k]) is Pending,
    ensures
        max_attempts >= n ==> commitment_outcome(obs, max_attempts) == Ok::<u64, TrackerError>(
            n as u64,
        ),
        max_attempts < n ==> commitment_outcome(obs, max_attempts) == Err::<u64, TrackerError>(
            TrackerError::Timeout,
        ),
{
    lemma_first_committed(obs);
    assert(first_committed(obs) == n - 1) by {
        if first_committed(obs) < n - 1 {
            assert(obs[first_committed(obs)] is Pending);
        }
        if first_committed(obs) > n - 1 {
            assert(!(obs[n - 1] is Committed));
        }
    }
}

/// The first index at which an observed value reaches the threshold,
/// or the length when none does.
pub open spec fn first_reaching(obs: Seq<u64>, threshold: u64) -> int
    decreases obs.len(),
{
    if obs.len() == 0 {
        0
    } else if obs[0] >= threshold {
        0
    } else {
        1 + first_reaching(obs.skip(1), threshold)
    }
}

pub proof fn lemma_first_reaching(obs: Seq<u64>, threshold: u64)
    ensures
        0 <= first_reaching(obs, threshold) <= obs.len(),
        first_reaching(obs, threshold) < obs.len() ==> obs[first_reaching(obs, threshold)]
            >= threshold,
        forall|k: int| 0 <= k < first_reaching(obs, threshold) ==> (#[trigger] obs[k]) < threshold,
    decreases obs.len(),
{
    if obs.len() == 0 {
    } else if obs[0] >= threshold {
    } else {
        let rest = obs.skip(1);
        lemma_first_reaching(rest, threshold);
        let fi = first_reaching(obs, threshold);
        assert forall|k: int| 0 <= k < fi implies (#[trigger] obs[k]) < threshold by {
            if k > 0 {
                assert(rest[k - 1] == obs[k]);
            }
        }
        if fi < obs.len() {
            assert(rest[fi - 1] == obs[fi]);
        }
    }
}

/// How a bounded threshold wait ends.
#[derive(Clone, Copy, PartialEq, Eq, Structural, Debug)]
pub enum ThresholdOutcome {
    /// The value reached the threshold, after this many polls.
    Reached { polls: u64 },
    /// The polls ran out; the last value observed, if any poll was
    /// made — a best-effort observation, not a failure.
    Exhausted { last: Option<u64> },
}

/// What a bounded threshold wait returns, given the values each poll
/// would observe in order.
pub open spec fn threshold_outcome(obs: Seq<u64>, threshold: u64, max_attempts: u64)
    -> ThresholdOutcome {
    let f = first_reaching(obs, threshold);
    let lim = if max_attempts <= obs.len() {
        max_attempts as int
    } else {
        obs.len() as int
    };
    if f < lim {
        ThresholdOutcome::Reached { polls: (f + 1) as u64 }
    } else if lim == 0 {
        ThresholdOutcome::Exhausted { last: None }
    } else {
        ThresholdOutcome::Exhausted { last: Some(obs[lim - 1]) }
    }
}

/// Poll a derived on-chain value until it reaches a threshold, with a
/// bounded number of polls; on exhaustion the last observation is
/// reported rather than an error.
pub fn await_threshold(observed: &Vec<u64>, threshold: u64, max_attempts: u64) -> (r:
    ThresholdOutcome)
    ensures
        r == threshold_outcome(observed@, threshold, max_attempts),
{
    proof {
        lemma_first_reaching(observed@, threshold);
    }
    let mut last: Option<u64> = None;
    let mut i: usize = 0;
    while i < observed.len() && (i as u64) < max_attempts
        invariant
            0 <= i,
            i <= observed@.len(),
            i as u64 <= max_attempts,
            forall|k: int| 0 <= k < i ==> (#[trigger] observed@[k]) < threshold,
            first_reaching(observed@, threshold) >= i,
            i == 0 ==> last is None,
            i > 0 ==> last == Some(observed@[i - 1]),
        decreases observed@.len() - i,
    {
        let v = observed[i];
        if v >= threshold {
            proof {
                lemma_first_reaching(observed@, threshold);
                assert(first_reaching(observed@, threshold) == i);
            }
            return ThresholdOutcome::Reached { polls: (i + 1) as u64 };
        }
        proof {
            lemma_first_reaching(observed@, threshold);
        }
        last = Some(v);
        i += 1;
    }
    proof {
        lemma_first_reaching(observed@, threshold);
    }
    ThresholdOutcome::Exhausted { last }
}

} // verus!
