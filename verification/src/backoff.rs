//! Exponential backoff schedule for reconnect attempts.
//!
//! The supervisor waits `current_ms` milliseconds after a failed cycle,
//! multiplies the delay by `factor` after every failure (capped at `cap_ms`),
//! and resets it to `initial_ms` as soon as a connection succeeds.

use vstd::prelude::*;

verus! {

/// The state of one supervisor's backoff schedule. Passed around explicitly,
/// so independent client instances never share retry state.
pub struct BackoffState {
    /// Delay after the first failure, in milliseconds.
    pub initial_ms: u64,
    /// Growth factor applied after each failure.
    pub factor: u64,
    /// Ceiling that the delay never exceeds, in milliseconds.
    pub cap_ms: u64,
    /// Delay the next wait will use, in milliseconds.
    pub current_ms: u64,
}

impl BackoffState {
    /// A well-formed schedule really grows (factor at least 2, a positive
    /// start) and keeps its current delay between start and cap.
    pub open spec fn wf(self) -> bool {
        &&& 1 <= self.initial_ms
        &&& 2 <= self.factor
        &&& self.initial_ms <= self.cap_ms
        &&& self.initial_ms <= self.current_ms
        &&& self.current_ms <= self.cap_ms
    }

    /// The schedule after one more failure: the delay grows by `factor`,
    /// saturating at `cap_ms`.
    pub open spec fn spec_advanced(self) -> BackoffState {
        BackoffState {
            initial_ms: self.initial_ms,
            factor: self.factor,
            cap_ms: self.cap_ms,
            current_ms: if self.current_ms > self.cap_ms / self.factor {
                self.cap_ms
            } else {
                (self.current_ms * self.factor) as u64
            },
        }
    }

    /// The schedule after a successful connect: the delay is back at the start.
    pub open spec fn spec_reset(self) -> BackoffState {
        BackoffState {
            initial_ms: self.initial_ms,
            factor: self.factor,
            cap_ms: self.cap_ms,
            current_ms: self.initial_ms,
        }
    }

    /// The schedule after `n` consecutive failures.
    pub open spec fn spec_advanced_times(self, n: nat) -> BackoffState
        decreases n,
    {
        if n == 0 {
            self
        } else {
            self.spec_advanced_times((n - 1) as nat).spec_advanced()
        }
    }

    pub fn new(initial_ms: u64, factor: u64, cap_ms: u64) -> (b: BackoffState)
        requires
            1 <= initial_ms,
            2 <= factor,
            initial_ms <= cap_ms,
        ensures
            b == (BackoffState { initial_ms, factor, cap_ms, current_ms: initial_ms }),
            b.wf(),
    {
        BackoffState { initial_ms, factor, cap_ms, current_ms: initial_ms }
    }

    /// The default schedule: half a second, doubling up to one minute.
    pub fn default_schedule() -> (b: BackoffState)
        ensures
            b == (BackoffState { initial_ms: 500, factor: 2, cap_ms: 60000, current_ms: 500 }),
            b.wf(),
    {
        BackoffState { initial_ms: 500, factor: 2, cap_ms: 60000, current_ms: 500 }
    }

    /// Delay, in milliseconds, that the next wait must use.
    pub fn delay_ms(&self) -> (d: u64)
        ensures
            d == self.current_ms,
    {
        self.current_ms
    }

    /// Record one more failure: the next delay grows, up to the cap.
    pub fn advance(&mut self)
        requires
            old(self).wf(),
        ensures
            *final(self) == old(self).spec_advanced(),
            final(self).wf(),
    {
        proof {
            lemma_advanced_wf(*self);
        }
        if self.current_ms > self.cap_ms / self.factor {
            self.current_ms = self.cap_ms;
        } else {
            assert(self.current_ms * self.factor <= self.cap_ms) by {
                lemma_mul_div_bound(self.current_ms as int, self.factor as int, self.cap_ms as int);
            }
            self.current_ms = self.current_ms * self.factor;
        }
    }

    /// Record a successful connect: the delay returns to its initial value.
    pub fn reset(&mut self)
        ensures
            *final(self) == old(self).spec_reset(),
            old(self).wf() ==> final(self).wf(),
    {
        self.current_ms = self.initial_ms;
    }
}

/// From `a <= c / b` (integer division, b positive) follows `a * b <= c`.
proof fn lemma_mul_div_bound(a: int, b: int, c: int)
    requires
        1 <= b,
        0 <= c,
        a <= c / b,
    ensures
        a * b <= c,
{
    assert((c / b) * b <= c) by (nonlinear_arith)
        requires 1 <= b && 0 <= c;
    assert(a * b <= (c / b) * b) by (nonlinear_arith)
        requires 1 <= b && a <= c / b;
}

/// One failure keeps the schedule well-formed; while the delay is below the
/// cap it grows strictly, and at the cap it stays there.
pub proof fn lemma_advanced_wf(b: BackoffState)
    requires
        b.wf(),
    ensures
        b.spec_advanced().wf(),
        b.current_ms < b.cap_ms ==> b.spec_advanced().current_ms > b.current_ms,
        b.current_ms == b.cap_ms ==> b.spec_advanced().current_ms == b.cap_ms,
        b.spec_advanced().current_ms >= b.current_ms,
{
    if b.current_ms > b.cap_ms / b.factor {
        assert(b.spec_advanced().current_ms == b.cap_ms);
    } else {
        lemma_mul_div_bound(b.current_ms as int, b.factor as int, b.cap_ms as int);
        assert(b.current_ms * b.factor >= b.current_ms * 2) by (nonlinear_arith)
            requires 2 <= b.factor && 1 <= b.current_ms;
    }
}

/// Across any run of consecutive failures the schedule stays well-formed, the
/// delay never exceeds the cap, it strictly increases as long as it is below
/// the cap, and a single success resets it to the initial delay.
pub proof fn lemma_backoff_schedule(b: BackoffState, n: nat)
    requires
        b.wf(),
    ensures
        b.spec_advanced_times(n).wf(),
        b.spec_advanced_times(n).current_ms <= b.cap_ms,
        b.spec_advanced_times(n).current_ms < b.cap_ms ==> b.spec_advanced_times(n + 1).current_ms
            > b.spec_advanced_times(n).current_ms,
        b.spec_advanced_times(n).current_ms == b.cap_ms ==> b.spec_advanced_times(n + 1).current_ms
            == b.cap_ms,
        b.spec_advanced_times(n).spec_reset().current_ms == b.initial_ms,
        b.spec_advanced_times(n).cap_ms == b.cap_ms,
        b.spec_advanced_times(n).initial_ms == b.initial_ms,
    decreases n,
{
    if n == 0 {
        lemma_advanced_wf(b);
    } else {
        lemma_backoff_schedule(b, (n - 1) as nat);
        lemma_advanced_wf(b.spec_advanced_times((n - 1) as nat));
        lemma_advanced_wf(b.spec_advanced_times(n));
    }
}

} // verus!
