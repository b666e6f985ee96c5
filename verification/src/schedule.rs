//! Fixed-cadence tick timing. Each target time is advanced by the interval
//! from the previous target, never from "now", so processing latency can
//! delay a wake-up but never shifts the grid of targets: there is no
//! cumulative drift. Time is modelled as milliseconds on a single clock.

use vstd::prelude::*;

verus! {

/// How long to sleep to reach `target` from `now`: the remaining time, or
/// nothing when the tick's work already ran past the target (graceful
/// saturation, not an error).
pub open spec fn spec_sleep_for(target: u64, now: u64) -> u64 {
    if now <= target {
        (target - now) as u64
    } else {
        0
    }
}

/// The target of the tick numbered `n` (counting from zero) on the grid
/// anchored at `start`: each target is the previous one plus the interval.
pub open spec fn nth_target(start: int, interval: int, n: nat) -> int
    decreases n,
{
    if n == 0 {
        start + interval
    } else {
        nth_target(start, interval, (n - 1) as nat) + interval
    }
}

/// No cumulative drift: advancing target by target lands the tick numbered
/// `n` exactly `n + 1` intervals after the anchor, however long any tick's
/// work took. Consecutive targets are thus spaced exactly one interval.
pub proof fn lemma_no_drift(start: int, interval: int, n: nat)
    ensures
        nth_target(start, interval, n) == start + (n + 1) * interval,
    decreases n,
{
    if n == 0 {
        assert(1 * interval == interval);
    } else {
        lemma_no_drift(start, interval, (n - 1) as nat);
        assert(n * interval + interval == (n + 1) * interval) by (nonlinear_arith);
    }
}

/// Consecutive tick targets are spaced exactly one interval apart.
pub proof fn lemma_constant_spacing(start: int, interval: int, n: nat)
    ensures
        nth_target(start, interval, n + 1) - nth_target(start, interval, n) == interval,
{
}

/// The loop's timing state: the next target instant and the fixed interval.
pub struct Scheduler {
    pub next_target_ms: u64,
    pub interval_ms: u64,
}

impl Scheduler {
    /// Anchor the grid at `now_ms`: the first tick is due one interval later.
    pub fn new(now_ms: u64, interval_ms: u64) -> (s: Scheduler)
        requires
            now_ms + interval_ms <= u64::MAX,
        ensures
            s.next_target_ms == now_ms + interval_ms,
            s.interval_ms == interval_ms,
    {
        Scheduler { next_target_ms: now_ms + interval_ms, interval_ms }
    }

    /// How long to sleep, from `now_ms`, to wake at the next target: exactly
    /// the remaining time, so a negligible tick wakes on the target; zero
    /// when the target has already passed, so a saturated loop goes straight
    /// on to the next tick.
    pub fn sleep_for(&self, now_ms: u64) -> (d: u64)
        ensures
            d == spec_sleep_for(self.next_target_ms, now_ms),
            now_ms <= self.next_target_ms ==> now_ms + d == self.next_target_ms,
            now_ms > self.next_target_ms ==> d == 0,
    {
        if now_ms <= self.next_target_ms {
            self.next_target_ms - now_ms
        } else {
            0
        }
    }

    /// Move to the next tick's target: one interval past the previous
    /// target, independent of when the previous tick's work finished.
    pub fn advance(&mut self)
        requires
            old(self).next_target_ms + old(self).interval_ms <= u64::MAX,
        ensures
            final(self).next_target_ms == old(self).next_target_ms + old(self).interval_ms,
            final(self).interval_ms == old(self).interval_ms,
    {
        self.next_target_ms = self.next_target_ms + self.interval_ms;
    }
}

} // verus!
