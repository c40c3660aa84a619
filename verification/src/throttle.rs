//! Update-rate throttle: decouples the tick arrival rate from the rate at
//! which the consumer redraws.
//!
//! A call to `should_update` fires — returns true and restarts the clock —
//! exactly when at least `min_interval_millis` have passed since the last
//! call that fired.  Before the first firing call there is no last result,
//! so the first call always fires.

use vstd::prelude::*;

verus! {

/// Rate limiter keyed on wall-clock time.
pub struct UpdateThrottle {
    /// Time of the last call that fired, meaningful only when `has_fired`.
    pub last_fire_millis: u64,
    /// Whether any call has fired yet.
    pub has_fired: bool,
    /// Least time between two firing calls.
    pub min_interval_millis: u64,
}

impl UpdateThrottle {
    /// Whether a call at `now_millis` fires.
    pub open spec fn spec_fires(self, now_millis: u64) -> bool {
        ||| !self.has_fired
        ||| now_millis >= self.last_fire_millis + self.min_interval_millis
    }

    /// The state after a call at `now_millis`.
    pub open spec fn spec_after(self, now_millis: u64) -> UpdateThrottle {
        if self.spec_fires(now_millis) {
            UpdateThrottle { last_fire_millis: now_millis, has_fired: true, ..self }
        } else {
            self
        }
    }

    pub fn new(min_interval_millis: u64) -> (r: Self)
        ensures
            !r.has_fired,
            r.min_interval_millis == min_interval_millis,
    {
        UpdateThrottle { last_fire_millis: 0, has_fired: false, min_interval_millis }
    }

    /// Decides at an explicit time; fires iff the interval has elapsed
    /// since the last firing call (or none has fired yet), and then
    /// restarts the clock.  A non-firing call changes nothing.
    pub fn should_update_at(&mut self, now_millis: u64) -> (r: bool)
        ensures
            r == old(self).spec_fires(now_millis),
            *final(self) == old(self).spec_after(now_millis),
    {
        if !self.has_fired {
            self.has_fired = true;
            self.last_fire_millis = now_millis;
            true
        } else if now_millis >= self.last_fire_millis
            && now_millis - self.last_fire_millis >= self.min_interval_millis {
            self.last_fire_millis = now_millis;
            true
        } else {
            false
        }
    }

    /// Decides at the current wall-clock time.  The reading is not under
    /// the caller's control, so only this much holds: the call behaves as
    /// `should_update_at` does at some time.
    pub fn should_update(&mut self) -> (r: bool)
        ensures
            exists|now: u64|
                r == old(self).spec_fires(now)
                    && *final(self) == #[trigger] old(self).spec_after(now),
    {
        let now = crate::clock::now_epoch_millis();
        let r = self.should_update_at(now);
        proof {
            assert(*self == old(self).spec_after(now));
        }
        r
    }
}

/// The throttle's rate law: after a call fires at `n1`, a call strictly
/// within the interval does not fire, and a call at or past the end of the
/// interval fires again.
pub proof fn lemma_throttle_rate(t: UpdateThrottle, n1: u64, early: u64, late: u64)
    requires
        t.spec_fires(n1),
        early < n1 + t.min_interval_millis,
        late >= n1 + t.min_interval_millis,
    ensures
        !t.spec_after(n1).spec_fires(early),
        t.spec_after(n1).spec_fires(late),
{
}

} // verus!
