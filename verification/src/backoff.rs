//! Exponential backoff policy for retrying failed DNS resolutions.
//!
//! Each failure yields a delay that is the current position of a geometric
//! progression, scaled by a constant factor and capped at a hard maximum.
//! The progression only moves forward as delays are drawn; it is reset to its
//! initial position by constructing a fresh generator.

use vstd::prelude::*;

verus! {

/// Saturating multiplication on `u64`, the arithmetic the generator uses so
/// that a long outage can never overflow the progression.
pub open spec fn sat_mul(a: u64, b: u64) -> u64 {
    if a * b > u64::MAX {
        u64::MAX
    } else {
        (a * b) as u64
    }
}

/// Generator of exponentially growing, capped retry delays (milliseconds).
#[derive(Debug, Clone, Copy, PartialEq, Eq)]
pub struct Backoff {
    /// Current position of the geometric progression.
    pub current: u64,
    /// Multiplier applied to `current` after each drawn delay.
    pub base: u64,
    /// Constant scale applied to `current` to obtain the delay.
    pub factor: u64,
    /// Hard cap on every returned delay.
    pub max_delay_ms: u64,
}

impl Backoff {
    /// The generator is well formed when its multipliers cannot shrink the
    /// progression.
    pub open spec fn wf(&self) -> bool {
        self.base >= 1 && self.factor >= 1 && self.current >= 1
    }

    /// The delay the next call of `next_delay` returns.
    pub open spec fn delay_spec(&self) -> u64 {
        if sat_mul(self.current, self.factor) > self.max_delay_ms {
            self.max_delay_ms
        } else {
            sat_mul(self.current, self.factor)
        }
    }

    /// The generator as it stands after one delay has been drawn.
    pub open spec fn advanced_spec(&self) -> Backoff {
        Backoff { current: sat_mul(self.current, self.base), ..*self }
    }

    /// A generator whose first delay is `base * factor` milliseconds, each
    /// later delay `base` times the previous one, all capped at
    /// `max_delay_ms`.
    pub fn new(base: u64, factor: u64, max_delay_ms: u64) -> (r: Backoff)
        requires
            base >= 1,
            factor >= 1,
        ensures
            r.wf(),
            r == (Backoff { current: base, base, factor, max_delay_ms }),
    {
        Backoff { current: base, base, factor, max_delay_ms }
    }

    /// Draws the next delay and advances the progression.
    pub fn next_delay(&mut self) -> (delay: u64)
        requires
            old(self).wf(),
        ensures
            final(self).wf(),
            delay == old(self).delay_spec(),
            *final(self) == old(self).advanced_spec(),
            delay <= old(self).max_delay_ms,
    {
        let scaled = match self.current.checked_mul(self.factor) {
            Some(v) => v,
            None => u64::MAX,
        };
        let delay = if scaled > self.max_delay_ms {
            self.max_delay_ms
        } else {
            scaled
        };
        let next = match self.current.checked_mul(self.base) {
            Some(v) => v,
            None => u64::MAX,
        };
        proof {
            vstd::arithmetic::mul::lemma_mul_ordering(self.current as int, self.base as int);
            vstd::arithmetic::mul::lemma_mul_ordering(self.current as int, self.factor as int);
        }
        self.current = next;
        delay
    }
}

/// Successive delays drawn from one generator never decrease, and none
/// exceeds the configured cap.
pub proof fn lemma_backoff_monotone_capped(b: Backoff)
    requires
        b.wf(),
    ensures
        b.advanced_spec().delay_spec() >= b.delay_spec(),
        b.delay_spec() <= b.max_delay_ms,
{
    let a = b.advanced_spec();
    assert(a.current >= b.current && a.factor == b.factor) by {
        vstd::arithmetic::mul::lemma_mul_ordering(b.current as int, b.base as int);
    }
    assert(sat_mul(a.current, a.factor) >= sat_mul(b.current, b.factor)) by {
        vstd::arithmetic::mul::lemma_mul_inequality(
            b.current as int,
            a.current as int,
            b.factor as int,
        );
    }
}

} // verus!
