//! When a failed call to a provider is tried again, and after what delay.

use vstd::prelude::*;
use crate::error::{EddaError, SyncError};

verus! {

/// How often a call to a provider is tried, and how long to wait between
/// two tries: the delay starts at `base_delay_ms`, doubles with every
/// failure, and never exceeds `max_delay_ms`.
#[derive(Debug, Clone, Copy, PartialEq, Eq, Structural)]
pub struct RetryPolicy {
    pub max_attempts: u32,
    pub base_delay_ms: u64,
    pub max_delay_ms: u64,
}

/// `base` doubled `times` times.
pub open spec fn doubled(base: nat, times: nat) -> nat
    decreases times,
{
    if times == 0 {
        base
    } else {
        2 * doubled(base, (times - 1) as nat)
    }
}

/// The smaller of two numbers.
pub open spec fn at_most(a: nat, limit: nat) -> nat {
    if a <= limit {
        a
    } else {
        limit
    }
}

/// A failure that may pass by itself: the network failed. A failure of
/// the authentication or of the configuration will not.
pub open spec fn transient(e: EddaError) -> bool {
    e is Sync && e->Sync_0 is Network
}

impl RetryPolicy {
    /// The milliseconds to wait after the `failures`-th failure in a row.
    pub open spec fn delay(self, failures: nat) -> nat {
        if failures == 0 {
            0
        } else {
            at_most(
                doubled(self.base_delay_ms as nat, (failures - 1) as nat),
                self.max_delay_ms as nat,
            )
        }
    }

    /// Whether a call that has failed `failures` times in a row, the last
    /// time with `error`, is tried again.
    pub open spec fn retries(self, failures: nat, error: EddaError) -> bool {
        failures < self.max_attempts && transient(error)
    }

    /// Three tries, the second half a second after the first and the
    /// third a second after the second, with delays of at most ten
    /// seconds.
    pub fn standard() -> (p: RetryPolicy)
        ensures
            p == (RetryPolicy { max_attempts: 3, base_delay_ms: 500, max_delay_ms: 10_000 }),
    {
        RetryPolicy { max_attempts: 3, base_delay_ms: 500, max_delay_ms: 10_000 }
    }

    /// The milliseconds to wait after the `failures`-th failure in a row.
    pub fn delay_ms(&self, failures: u32) -> (d: u64)
        ensures
            d == self.delay(failures as nat),
    {
        if failures == 0 {
            return 0;
        }
        let mut d: u64 = if self.base_delay_ms <= self.max_delay_ms {
            self.base_delay_ms
        } else {
            self.max_delay_ms
        };
        let mut i: u32 = 1;
        while i < failures
            invariant
                1 <= i <= failures,
                d == at_most(
                    doubled(self.base_delay_ms as nat, (i - 1) as nat),
                    self.max_delay_ms as nat,
                ),
            decreases failures - i,
        {
            d = if d > self.max_delay_ms / 2 {
                self.max_delay_ms
            } else {
                d * 2
            };
            i = i + 1;
        }
        d
    }

    /// Whether a call that has failed `failures` times in a row, the last
    /// time with `error`, is tried again.
    pub fn should_retry(&self, failures: u32, error: &EddaError) -> (r: bool)
        ensures
            r == self.retries(failures as nat, *error),
    {
        if failures >= self.max_attempts {
            return false;
        }
        match error {
            EddaError::Sync(SyncError::Network { .. }) => true,
            _ => false,
        }
    }
}

/// The delays never shrink from one failure to the next, and never exceed
/// the greatest delay.
pub proof fn delays_grow(policy: RetryPolicy, failures: nat)
    requires
        failures >= 1,
    ensures
        policy.delay(failures) <= policy.delay(failures + 1),
        policy.delay(failures) <= policy.max_delay_ms,
{
}

} // verus!
