//! Reconnection policy: a pure value that decides whether another
//! connection attempt may be made and how long to wait before it.
//!
//! The backoff is exponential with a hard ceiling: the delay before retry
//! number `n` (counting recorded attempts) is `min(base * 2^n, cap)`
//! seconds, and at most `max_attempts` attempts are made before the engine
//! gives up permanently.

use vstd::prelude::*;

verus! {

use vstd::arithmetic::power2::pow2;
use vstd::arithmetic::power2::lemma2_to64;
use vstd::arithmetic::power2::lemma_pow2_strictly_increases;
use vstd::math::min;

/// How many reconnection attempts are made before giving up.
pub const MAX_RECONNECT_ATTEMPTS: u32 = 5;

/// Backoff delay before the first retry, in seconds.
pub const BASE_DELAY_SECS: u64 = 2;

/// Ceiling on the backoff delay, in seconds.
pub const MAX_DELAY_SECS: u64 = 32;

/// Retry bookkeeping between connection attempts.
pub struct ReconnectionPolicy {
    pub max_attempts: u32,
    pub base_delay_secs: u64,
    pub max_delay_secs: u64,
    pub current_attempt: u32,
}

impl ReconnectionPolicy {
    /// The configuration this engine always runs with, and an attempt
    /// counter that never leaves `0 ..= max_attempts`.
    pub open spec fn wf(self) -> bool {
        &&& self.max_attempts == MAX_RECONNECT_ATTEMPTS
        &&& self.base_delay_secs == BASE_DELAY_SECS
        &&& self.max_delay_secs == MAX_DELAY_SECS
        &&& self.current_attempt <= self.max_attempts
    }

    /// The backoff delay in seconds after `attempt` recorded attempts:
    /// exponential in the attempt count, capped at `MAX_DELAY_SECS`.
    pub open spec fn spec_delay(attempt: nat) -> int {
        min(BASE_DELAY_SECS * pow2(attempt), MAX_DELAY_SECS as int)
    }

    /// Whether another attempt is allowed.
    pub open spec fn spec_should_retry(self) -> bool {
        self.current_attempt < self.max_attempts
    }

    pub fn new() -> (r: Self)
        ensures
            r.wf(),
            r.current_attempt == 0,
    {
        ReconnectionPolicy {
            max_attempts: MAX_RECONNECT_ATTEMPTS,
            base_delay_secs: BASE_DELAY_SECS,
            max_delay_secs: MAX_DELAY_SECS,
            current_attempt: 0,
        }
    }

    /// The delay to sleep before the next attempt.  Does not change the
    /// attempt counter.
    pub fn calculate_delay(&self) -> (r: u64)
        requires
            self.wf(),
        ensures
            r == Self::spec_delay(self.current_attempt as nat),
    {
        proof {
            lemma2_to64();
        }
        if self.current_attempt >= 4 {
            proof {
                if self.current_attempt > 4 {
                    lemma_pow2_strictly_increases(4, self.current_attempt as nat);
                }
            }
            self.max_delay_secs
        } else {
            let shifted: u64 = match self.current_attempt {
                0 => 1,
                1 => 2,
                2 => 4,
                _ => 8,
            };
            self.base_delay_secs * shifted
        }
    }

    /// True while the retry budget is not exhausted.
    pub fn should_retry(&self) -> (r: bool)
        ensures
            r == self.spec_should_retry(),
    {
        self.current_attempt < self.max_attempts
    }

    /// Records one attempt.  Called only while `should_retry` holds, so
    /// the counter stays within the budget.
    pub fn increment(&mut self)
        requires
            old(self).wf(),
            old(self).spec_should_retry(),
        ensures
            final(self).wf(),
            final(self).current_attempt == old(self).current_attempt + 1,
            final(self).max_attempts == old(self).max_attempts,
            final(self).base_delay_secs == old(self).base_delay_secs,
            final(self).max_delay_secs == old(self).max_delay_secs,
    {
        self.current_attempt = self.current_attempt + 1;
    }

    /// Clears the attempt counter; called once right after a connection
    /// succeeds.
    pub fn reset(&mut self)
        ensures
            final(self).current_attempt == 0,
            final(self).max_attempts == old(self).max_attempts,
            final(self).base_delay_secs == old(self).base_delay_secs,
            final(self).max_delay_secs == old(self).max_delay_secs,
            old(self).wf() ==> final(self).wf(),
    {
        self.current_attempt = 0;
    }
}

/// For attempt counts up to four the backoff doubles each time, starting
/// at two seconds; from the fourth attempt on the cap holds and the delay
/// is exactly `MAX_DELAY_SECS`.
pub proof fn lemma_backoff_cap(attempt: nat)
    ensures
        attempt < 4 ==> ReconnectionPolicy::spec_delay(attempt)
            == BASE_DELAY_SECS * pow2(attempt),
        attempt >= 4 ==> ReconnectionPolicy::spec_delay(attempt) == MAX_DELAY_SECS,
{
    lemma2_to64();
    if attempt < 4 {
        assert(pow2(attempt) <= pow2(3)) by {
            if attempt < 3 {
                lemma_pow2_strictly_increases(attempt, 3);
            }
        };
    } else {
        assert(pow2(attempt) >= pow2(4)) by {
            if attempt > 4 {
                lemma_pow2_strictly_increases(4, attempt);
            }
        };
    }
}

/// The retry budget: retrying is allowed exactly while fewer than
/// `MAX_RECONNECT_ATTEMPTS` attempts have been recorded — once the budget
/// is spent it stays spent, since `increment` asks for a remaining budget
/// — and a reset makes it allowed again.
pub proof fn lemma_retry_budget(p: ReconnectionPolicy)
    requires
        p.wf(),
    ensures
        p.spec_should_retry() <==> p.current_attempt < MAX_RECONNECT_ATTEMPTS,
        p.current_attempt == MAX_RECONNECT_ATTEMPTS ==> !p.spec_should_retry(),
        (ReconnectionPolicy { current_attempt: 0, ..p }).spec_should_retry(),
{
}

} // verus!
