//! Retry policy for establishing a request: which failures are worth another
//! attempt, how many attempts are made, and how long to wait between them.

use vstd::prelude::*;

verus! {

/// Attempts made, at most, to establish one request.
pub const MAX_RETRIES: u32 = 3;

/// Seconds waited before the second attempt; each later wait is twice as long.
pub const RETRY_DELAY_SECS: u64 = 2;

/// What the transport reported about a request that failed before any byte of
/// the body arrived.
#[derive(Clone, Copy, Debug, PartialEq, Eq, Structural)]
pub struct TransportFailure {
    /// The request ran into its time limit.
    pub timeout: bool,
    /// No connection could be made: refused, unreachable, or the name did not
    /// resolve.
    pub connect: bool,
    /// The request could not be sent for some other reason of the transport.
    pub request: bool,
}

/// What to do after a failed attempt.
#[derive(Clone, Copy, Debug, PartialEq, Eq, Structural)]
pub enum RetryDecision {
    /// Sleep this many seconds, then make the request again.
    RetryAfter { delay_secs: u64 },
    /// Report the failure; no further attempt is made.
    GiveUp,
}

/// Whether a failure may go away by itself, so that the request is worth
/// repeating.
pub open spec fn recoverable(failure: TransportFailure) -> bool {
    failure.timeout || failure.connect || failure.request
}

/// Classifies a failure as recoverable or terminal.
pub fn is_recoverable_error(failure: &TransportFailure) -> (yes: bool)
    ensures
        yes == recoverable(*failure),
{
    failure.timeout || failure.connect || failure.request
}

/// Two to the power `exponent`.
pub open spec fn two_to(exponent: nat) -> nat
    decreases exponent,
{
    if exponent == 0 {
        1
    } else {
        2 * two_to((exponent - 1) as nat)
    }
}

/// The wait after failed attempt number `attempt`, counted from zero: the
/// base delay doubled `attempt` times, or the largest `u64` if that is less.
pub open spec fn backoff_secs(delay_secs: u64, attempt: u32) -> u64 {
    if delay_secs * two_to(attempt as nat) <= u64::MAX {
        (delay_secs * two_to(attempt as nat)) as u64
    } else {
        u64::MAX
    }
}

proof fn lemma_two_to_grows(a: nat, b: nat)
    requires
        a <= b,
    ensures
        1 <= two_to(a) <= two_to(b),
    decreases b,
{
    if a < b {
        lemma_two_to_grows(a, (b - 1) as nat);
    } else if a > 0 {
        lemma_two_to_grows((a - 1) as nat, (b - 1) as nat);
    }
}

/// Computes the exponential backoff without overflow.
pub fn retry_delay(delay_secs: u64, attempt: u32) -> (secs: u64)
    ensures
        secs == backoff_secs(delay_secs, attempt),
{
    let mut secs: u64 = delay_secs;
    let mut done: u32 = 0;
    assert(delay_secs * two_to(0) == delay_secs) by (nonlinear_arith)
        requires
            two_to(0) == 1,
    ;
    while done < attempt
        invariant
            done <= attempt,
            secs == backoff_secs(delay_secs, done),
        decreases attempt - done,
    {
        proof {
            assert(two_to(done as nat + 1) == 2 * two_to(done as nat));
            assert(delay_secs * two_to(done as nat + 1) == 2 * (delay_secs * two_to(done as nat)))
                by (nonlinear_arith)
                requires
                    two_to(done as nat + 1) == 2 * two_to(done as nat),
            ;
            lemma_two_to_grows(done as nat, attempt as nat);
        }
        if secs > u64::MAX / 2 {
            proof {
                if delay_secs * two_to(done as nat) <= u64::MAX {
                } else {
                    lemma_two_to_grows(done as nat, done as nat + 1);
                    assert(delay_secs * two_to(done as nat + 1) > u64::MAX);
                }
                lemma_backoff_saturates(delay_secs, done as nat + 1, attempt);
            }
            return u64::MAX;
        }
        secs = secs * 2;
        done = done + 1;
    }
    secs
}

/// Once the backoff has reached the ceiling it stays there.
proof fn lemma_backoff_saturates(delay_secs: u64, from: nat, to: u32)
    requires
        from <= to,
        delay_secs * two_to(from) > u64::MAX,
    ensures
        backoff_secs(delay_secs, to) == u64::MAX,
{
    lemma_two_to_grows(from, to as nat);
    assert(delay_secs * two_to(from) <= delay_secs * two_to(to as nat)) by (nonlinear_arith)
        requires
            two_to(from) <= two_to(to as nat),
    ;
}

/// Progress of the attempts to establish one request.
#[derive(Clone, Copy, Debug, PartialEq, Eq, Structural)]
pub struct RetryState {
    /// Attempts allowed in all; with zero, one attempt is still made.
    pub max_retries: u32,
    /// Seconds waited after the first failure.
    pub delay_secs: u64,
    /// Failed attempts that were followed by a retry.
    pub failed: u32,
}

/// The decision that the policy prescribes in `state` for `failure`: retry
/// while the failure is recoverable and attempts are left, with a wait that
/// doubles from one retry to the next.
pub open spec fn decision_for(state: RetryState, failure: TransportFailure) -> RetryDecision {
    if recoverable(failure) && state.failed + 1 < state.max_retries {
        RetryDecision::RetryAfter { delay_secs: backoff_secs(state.delay_secs, state.failed) }
    } else {
        RetryDecision::GiveUp
    }
}

impl RetryState {
    /// A fresh run with the given number of attempts and base delay.
    pub fn new(max_retries: u32, delay_secs: u64) -> (state: RetryState)
        ensures
            state == (RetryState { max_retries, delay_secs, failed: 0 }),
    {
        RetryState { max_retries, delay_secs, failed: 0 }
    }

    /// A fresh run with `MAX_RETRIES` attempts and `RETRY_DELAY_SECS` base
    /// delay.
    pub fn standard() -> (state: RetryState)
        ensures
            state == (RetryState { max_retries: MAX_RETRIES, delay_secs: RETRY_DELAY_SECS, failed: 0 }),
    {
        RetryState { max_retries: MAX_RETRIES, delay_secs: RETRY_DELAY_SECS, failed: 0 }
    }

    /// Takes note of a failed attempt and says what to do next. A terminal
    /// failure, or a recoverable one on the last attempt, ends the run and
    /// leaves the state as it was; otherwise the failure is counted.
    pub fn on_failure(&mut self, failure: &TransportFailure) -> (decision: RetryDecision)
        ensures
            decision == decision_for(*old(self), *failure),
            final(self).max_retries == old(self).max_retries,
            final(self).delay_secs == old(self).delay_secs,
            decision is GiveUp ==> final(self).failed == old(self).failed,
            decision is RetryAfter ==> final(self).failed == old(self).failed + 1 && final(self).failed
                < final(self).max_retries,
    {
        if is_recoverable_error(failure) && self.failed < self.max_retries && self.failed + 1
            < self.max_retries {
            let delay: u64 = retry_delay(self.delay_secs, self.failed);
            self.failed = self.failed + 1;
            RetryDecision::RetryAfter { delay_secs: delay }
        } else {
            RetryDecision::GiveUp
        }
    }
}

/// The waits of the standard policy are two and four seconds; the third
/// failure ends the run.
pub proof fn lemma_standard_schedule()
    ensures
        backoff_secs(RETRY_DELAY_SECS, 0) == 2,
        backoff_secs(RETRY_DELAY_SECS, 1) == 4,
        backoff_secs(RETRY_DELAY_SECS, 2) == 8,
        forall|failure: TransportFailure|
            decision_for(
                RetryState { max_retries: MAX_RETRIES, delay_secs: RETRY_DELAY_SECS, failed: 2 },
                failure,
            ) == RetryDecision::GiveUp,
{
    reveal_with_fuel(two_to, 4);
}

} // verus!
