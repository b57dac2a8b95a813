//! The clock: a bounded tick counter that advances once per rendering cycle
//! and wraps to zero after a configured period. It is the sole time source
//! for every generator.

use vstd::arithmetic::div_mod::{lemma_add_mod_noop, lemma_mod_self_0, lemma_small_mod};
use vstd::prelude::*;

verus! {

/// One step of a bounded counter: advance by one, wrapping to zero when the
/// next value would reach `period`.
pub open spec fn wrap_next(cur: int, period: int) -> int {
    if cur + 1 < period {
        cur + 1
    } else {
        0
    }
}

/// The value of a bounded counter after `n` steps from zero.
pub open spec fn wrap_after(n: nat, period: int) -> int
    decreases n,
{
    if n == 0 {
        0
    } else {
        wrap_next(wrap_after((n - 1) as nat, period), period)
    }
}

/// A bounded counter that has stepped `n` times from zero reads `n % period`.
pub proof fn lemma_wrap_after_mod(n: nat, period: int)
    requires
        period >= 1,
    ensures
        wrap_after(n, period) == (n as int) % period,
    decreases n,
{
    if n == 0 {
        lemma_small_mod(0, period as nat);
    } else {
        lemma_wrap_after_mod((n - 1) as nat, period);
        let r = wrap_after((n - 1) as nat, period);
        lemma_add_mod_noop(n - 1, 1, period);
        if period == 1 {
            lemma_mod_self_0(period);
        } else {
            if r + 1 < period {
                lemma_small_mod((r + 1) as nat, period as nat);
                lemma_small_mod(1nat, period as nat);
            } else {
                lemma_mod_self_0(period);
                lemma_small_mod(1nat, period as nat);
            }
        }
    }
}

/// Clock wraparound law: stepping a bounded counter exactly `period` times
/// returns it to zero, and stepping it `period - 1` times leaves it at
/// `period - 1`.
pub proof fn lemma_clock_wraparound(period: int)
    requires
        period >= 1,
    ensures
        wrap_after(period as nat, period) == 0,
        wrap_after((period - 1) as nat, period) == period - 1,
{
    lemma_wrap_after_mod(period as nat, period);
    lemma_wrap_after_mod((period - 1) as nat, period);
    lemma_mod_self_0(period);
    lemma_small_mod((period - 1) as nat, period as nat);
}

/// The clock. `elapsed` counts rendering cycles and wraps to zero after
/// `ticks_per_sec` steps, so `0 <= elapsed < ticks_per_sec` always holds.
pub struct Tick {
    ticks_per_sec: u16,
    elapsed: u16,
}

impl Tick {
    /// The configured period of the counter.
    pub closed spec fn period(self) -> int {
        self.ticks_per_sec as int
    }

    /// The current counter value.
    pub closed spec fn value(self) -> int {
        self.elapsed as int
    }

    /// The counter stays strictly below its period.
    pub open spec fn wf(self) -> bool {
        self.period() >= 1 && 0 <= self.value() < self.period()
    }

    /// A fresh clock with the given period starts at zero.
    pub fn new(ticks_per_sec: u16) -> (t: Tick)
        requires
            ticks_per_sec >= 1,
        ensures
            t.wf(),
            t.period() == ticks_per_sec,
            t.value() == 0,
    {
        Tick { ticks_per_sec, elapsed: 0 }
    }

    /// The length of one tick in milliseconds, for the external delay
    /// collaborator.
    pub fn len(&self) -> (ms: u16)
        requires
            self.wf(),
        ensures
            ms == 1000int / self.period(),
    {
        1_000 / self.ticks_per_sec
    }

    /// The current counter value.
    pub fn elapsed(&self) -> (e: u16)
        ensures
            e == self.value(),
    {
        self.elapsed
    }

    /// Advances the counter by exactly one step, wrapping to zero after
    /// reaching `period - 1`. Meant to be called at the end of each
    /// rendering cycle.
    pub fn tock(&mut self) -> (r: &Self)
        requires
            old(self).wf(),
        ensures
            final(self).wf(),
            final(self).period() == old(self).period(),
            final(self).value() == wrap_next(old(self).value(), old(self).period()),
            *r == *final(self),
    {
        if self.elapsed < self.ticks_per_sec - 1 {
            self.elapsed += 1;
        } else {
            self.elapsed = 0;
        }

        self
    }
}

} // verus!
