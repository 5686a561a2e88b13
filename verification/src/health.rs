//! Health monitoring of the brain service: a circuit breaker that trips after
//! too many consecutive failed health checks.

use vstd::prelude::*;
use crate::text::{is_infix, str_contains};
use crate::tools::{lossy_text, utf8_lossy};

verus! {

/// Consecutive failed health checks after which the breaker trips.
pub const MAX_CONSECUTIVE_FAILURES: u32 = 5;

/// Seconds between health checks.
pub const HEALTH_CHECK_INTERVAL_SECS: u64 = 30;

/// Seconds a health check may take.
pub const PING_TIMEOUT_SECS: u64 = 5;

/// What the monitor does after a check.
#[derive(Debug, Clone, Copy, PartialEq, Eq, Structural)]
pub enum HealthAction {
    /// Wait for the next check.
    Wait,
    /// Trip the breaker: shut the runtime down.
    Trip,
}

/// A reply reports a healthy brain when it mentions `ok` or `healthy`.
pub open spec fn healthy_text(body: Seq<char>) -> bool {
    is_infix("ok"@, body) || is_infix("healthy"@, body)
}

/// Whether the payload of a health reply reports a healthy brain.
pub fn reply_is_healthy(payload: &[u8]) -> (b: bool)
    ensures
        b == healthy_text(utf8_lossy(payload@)),
{
    let body = lossy_text(payload);
    str_contains(body.as_str(), "ok") || str_contains(body.as_str(), "healthy")
}

/// The count of failed checks since the last good one.
pub open spec fn failure_count(checks: Seq<bool>) -> nat
    decreases checks.len(),
{
    if checks.len() == 0 {
        0
    } else if checks.last() {
        0
    } else {
        failure_count(checks.drop_last()) + 1
    }
}

/// Counts consecutive failed health checks.
pub struct CircuitBreaker {
    consecutive_failures: u32,
}

impl CircuitBreaker {
    #[verifier::type_invariant]
    spec fn inv(self) -> bool {
        self.consecutive_failures <= MAX_CONSECUTIVE_FAILURES
    }

    pub closed spec fn failures(&self) -> nat {
        self.consecutive_failures as nat
    }

    pub fn new() -> (b: Self)
        ensures
            b.failures() == 0,
    {
        CircuitBreaker { consecutive_failures: 0 }
    }

    /// Whether the breaker has tripped.
    pub fn tripped(&self) -> (t: bool)
        ensures
            t == (self.failures() >= MAX_CONSECUTIVE_FAILURES),
    {
        self.consecutive_failures >= MAX_CONSECUTIVE_FAILURES
    }

    /// Counts the outcome of a check (`false` for a check that failed or could
    /// not be made): a good check resets the count, a failed one adds to it,
    /// and the breaker trips when the count reaches the limit.
    pub fn on_check(&mut self, healthy: bool) -> (a: HealthAction)
        requires
            old(self).failures() < MAX_CONSECUTIVE_FAILURES,
        ensures
            final(self).failures() == if healthy { 0 } else { old(self).failures() + 1 },
            (a == HealthAction::Trip) <==> final(self).failures() >= MAX_CONSECUTIVE_FAILURES,
    {
        if healthy {
            self.consecutive_failures = 0;
        } else {
            self.consecutive_failures = self.consecutive_failures + 1;
        }
        if self.consecutive_failures >= MAX_CONSECUTIVE_FAILURES {
            HealthAction::Trip
        } else {
            HealthAction::Wait
        }
    }
}

/// The breaker counts exactly the failed checks since the last good one: after
/// a run of checks that did not trip it, its count is `failure_count` of them,
/// which is `k` exactly when the last `k` checks failed and the one before (if
/// any) was good.
pub proof fn lemma_failure_count_trailing(checks: Seq<bool>, k: nat)
    requires
        failure_count(checks) == k,
    ensures
        k <= checks.len(),
        forall|i: int| checks.len() - k <= i < checks.len() ==> !checks[i],
        k < checks.len() ==> checks[checks.len() - k - 1],
    decreases checks.len(),
{
    if checks.len() > 0 && !checks.last() {
        lemma_failure_count_trailing(checks.drop_last(), (k - 1) as nat);
        assert forall|i: int| checks.len() - k <= i < checks.len() implies !checks[i] by {
            if i < checks.len() - 1 {
                assert(checks.drop_last()[i] == checks[i]);
            }
        }
    }
}

/// Feeding a breaker one check more moves its count as `failure_count` does.
pub proof fn lemma_failure_count_step(checks: Seq<bool>, healthy: bool)
    ensures
        failure_count(checks.push(healthy)) == if healthy { 0 } else { failure_count(checks) + 1 },
{
    assert(checks.push(healthy).drop_last() =~= checks);
}

} // verus!
