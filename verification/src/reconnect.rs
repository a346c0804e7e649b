//! How long to wait before connecting again.

use vstd::prelude::*;

verus! {

/// The longest wait in milliseconds.
pub const MAX_BACKOFF_MS: u64 = 5_000;

/// The wait that follows a wait when the connection fails again.
pub open spec fn next_backoff(current: int) -> int {
    if current == 0 {
        250
    } else if current == 250 {
        500
    } else if current == 500 {
        1_000
    } else if current * 2 <= MAX_BACKOFF_MS {
        current * 2
    } else {
        MAX_BACKOFF_MS as int
    }
}

/// The wait that follows a wait of `current` milliseconds when the connection fails again.
pub fn next_connect_backoff_ms(current: u64) -> (r: u64)
    requires
        current * 2 <= u64::MAX,
    ensures
        r == next_backoff(current as int),
{
    match current {
        0 => 250,
        250 => 500,
        500 => 1_000,
        other => {
            let doubled: u64 = other * 2;
            if doubled <= MAX_BACKOFF_MS {
                doubled
            } else {
                MAX_BACKOFF_MS
            }
        },
    }
}

/// The wait before the attempt that follows `failures` failed ones in a row.
pub open spec fn backoff_after(failures: nat) -> int
    decreases failures,
{
    if failures == 0 {
        0
    } else {
        next_backoff(backoff_after((failures - 1) as nat))
    }
}

/// The first attempt comes at once. The waits then double from a quarter of a second up to five
/// seconds, and stay there.
pub proof fn law_backoff_ladder(failures: nat)
    ensures
        backoff_after(0) == 0,
        backoff_after(1) == 250,
        backoff_after(2) == 500,
        backoff_after(3) == 1_000,
        backoff_after(4) == 2_000,
        backoff_after(5) == 4_000,
        failures >= 6 ==> backoff_after(failures) == 5_000,
        0 <= backoff_after(failures) <= 5_000,
        backoff_after(failures) <= backoff_after(failures + 1),
    decreases failures,
{
    reveal_with_fuel(backoff_after, 7);
    if failures > 6 {
        law_backoff_ladder((failures - 1) as nat);
    }
}

/// A connection that is kept up: at once after a clean end, with a growing wait after failures.
pub struct Reconnect {
    wait_ms: u64,
    failures: Ghost<nat>,
}

impl Reconnect {
    /// The failures in a row so far.
    pub closed spec fn failures(&self) -> nat {
        self.failures@
    }

    pub closed spec fn wf(&self) -> bool {
        self.wait_ms == backoff_after(self.failures@)
    }

    /// No attempt was made yet.
    pub fn new() -> (r: Reconnect)
        ensures
            r.wf(),
            r.failures() == 0,
    {
        Reconnect { wait_ms: 0, failures: Ghost(0) }
    }

    /// The connection came up and ended cleanly.
    pub fn on_disconnect(&mut self)
        requires
            old(self).wf(),
        ensures
            final(self).wf(),
            final(self).failures() == 0,
    {
        self.wait_ms = 0;
        self.failures = Ghost(0);
    }

    /// The attempt failed. Gives the wait in milliseconds before the next one.
    pub fn on_failure(&mut self) -> (r: u64)
        requires
            old(self).wf(),
        ensures
            final(self).wf(),
            final(self).failures() == old(self).failures() + 1,
            r == backoff_after(old(self).failures()),
    {
        proof {
            law_backoff_ladder(self.failures@);
        }
        let wait = self.wait_ms;
        self.wait_ms = next_connect_backoff_ms(wait);
        self.failures = Ghost(self.failures@ + 1);
        wait
    }
}

/// A failure without a wait is followed by a wait of a quarter of a second. After that every wait
/// is twice the one before, but never more than five seconds, and longer waits are followed by
/// waits that are no shorter.
pub proof fn law_waits_double_up_to_five_seconds(current: int, longer: int)
    ensures
        next_backoff(0) == 250,
        0 < current <= 2_500 ==> next_backoff(current) == current + current,
        current >= 2_500 ==> next_backoff(current) == 5_000,
        0 < current <= longer ==> next_backoff(current) <= next_backoff(longer),
{
}

} // verus!
