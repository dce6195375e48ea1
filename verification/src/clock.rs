//! The refresh scheduler: a strict periodic timer driven by per-frame
//! delta times.
//!
//! Each frame the clock advances by the frame's delta; when the
//! accumulated time reaches the configured interval the scheduler fires once
//! and the counter resets to zero — the sub-interval remainder is
//! dropped, not carried.  Time is measured in integer milliseconds.

use vstd::prelude::*;
use vstd::arithmetic::div_mod::{
    lemma_div_denominator, lemma_div_multiples_vanish, lemma_fundamental_div_mod,
    lemma_fundamental_div_mod_converse_div, lemma_fundamental_div_mod_converse_mod,
};

verus! {

/// Scheduler state: milliseconds elapsed since the last rebuild fired.
///
/// Reset to zero each time the scheduler fires; its lifecycle is bound to the
/// simulation session.
#[derive(Clone, Copy, PartialEq, Eq, Structural, Debug)]
pub struct RefreshClock {
    pub elapsed: u64,
}

impl RefreshClock {
    /// The clock never holds a full interval: firing would have reset it.
    pub open spec fn wf(self, interval: u64) -> bool {
        self.elapsed < interval
    }

    /// A fresh clock, as if a rebuild had just fired.
    pub fn new() -> (c: Self)
        ensures
            c.elapsed == 0,
    {
        RefreshClock { elapsed: 0 }
    }

    /// Advances the clock by one frame's delta time.
    ///
    /// Fires — returns true and resets to zero, dropping any remainder —
    /// exactly when the accumulated time reaches `interval`.
    pub fn tick(&mut self, delta: u64, interval: u64) -> (fired: bool)
        requires
            0 < interval,
            old(self).elapsed + delta <= u64::MAX,
        ensures
            fired == (old(self).elapsed + delta >= interval),
            final(self).elapsed == if fired {
                0
            } else {
                old(self).elapsed + delta
            },
            final(self).wf(interval),
    {
        let e = self.elapsed + delta;
        if e >= interval {
            self.elapsed = 0;
            true
        } else {
            self.elapsed = e;
            false
        }
    }
}

/// The elapsed counter after `n` frames of `delta` each, starting from
/// `elapsed`.
pub open spec fn clock_after(elapsed: int, n: nat, delta: int, interval: int) -> int
    decreases n,
{
    if n == 0 {
        elapsed
    } else {
        let prev = clock_after(elapsed, (n - 1) as nat, delta, interval);
        if prev + delta >= interval {
            0
        } else {
            prev + delta
        }
    }
}

/// How many times the scheduler fires over `n` frames of `delta` each,
/// starting from `elapsed`.
pub open spec fn fires_in(elapsed: int, n: nat, delta: int, interval: int) -> nat
    decreases n,
{
    if n == 0 {
        0
    } else {
        let prev = clock_after(elapsed, (n - 1) as nat, delta, interval);
        fires_in(elapsed, (n - 1) as nat, delta, interval) + if prev + delta >= interval {
            1nat
        } else {
            0nat
        }
    }
}

/// The scheduler is periodic: starting from a fresh clock it fires every
/// `ceil(interval / delta)` frames, and the counter walks through the
/// multiples of `delta` below that period.
pub proof fn lemma_scheduler_period(n: nat, delta: int, interval: int)
    requires
        0 < delta,
        0 < interval,
    ensures
        ({
            let period = (interval + delta - 1) / delta;
            &&& fires_in(0, n, delta, interval) == n as int / period
            &&& clock_after(0, n, delta, interval) == (n as int % period) * delta
        }),
    decreases n,
{
    let period = (interval + delta - 1) / delta;
    lemma_fundamental_div_mod(interval + delta - 1, delta);
    let r = (interval + delta - 1) % delta;
    assert(0 <= r < delta) by (nonlinear_arith)
        requires 0 < delta, r == (interval + delta - 1) % delta;
    assert(interval + delta - 1 == delta * period + r);
    assert(period * delta >= interval && (period - 1) * delta < interval) by (nonlinear_arith)
        requires interval + delta - 1 == delta * period + r, 0 <= r < delta;
    assert(0 < period) by (nonlinear_arith)
        requires period * delta >= interval, 0 < interval, 0 < delta;

    if n == 0 {
        assert(0int / period == 0 && 0int % period == 0) by (nonlinear_arith)
            requires 0 < period;
    } else {
        lemma_scheduler_period((n - 1) as nat, delta, interval);
        let q = (n - 1) as int / period;
        let m = (n - 1) as int % period;
        assert(0 <= m < period && 0 <= q) by (nonlinear_arith)
            requires 0 < period, n >= 1, q == (n - 1) as int / period, m == (n - 1) as int % period;
        lemma_fundamental_div_mod((n - 1) as int, period);
        assert(n == q * period + m + 1) by (nonlinear_arith)
            requires (n - 1) as int == period * q + m;
        let prev = clock_after(0, (n - 1) as nat, delta, interval);
        assert(prev == m * delta);
        if m + 1 == period {
            // the counter has walked the whole period: this frame fires
            assert(prev + delta == period * delta) by (nonlinear_arith)
                requires prev == m * delta, m + 1 == period;
            assert(prev + delta >= interval);
            assert(n as int == (q + 1) * period + 0) by (nonlinear_arith)
                requires n == q * period + m + 1, m + 1 == period;
            lemma_fundamental_div_mod_converse_div(n as int, period, q + 1, 0);
            lemma_fundamental_div_mod_converse_mod(n as int, period, q + 1, 0);
        } else {
            assert(prev + delta == (m + 1) * delta) by (nonlinear_arith)
                requires prev == m * delta;
            assert((m + 1) * delta < interval) by (nonlinear_arith)
                requires (period - 1) * delta < interval, m + 1 <= period - 1, 0 < delta;
            assert(n as int == q * period + (m + 1));
            lemma_fundamental_div_mod_converse_div(n as int, period, q, m + 1);
            lemma_fundamental_div_mod_converse_mod(n as int, period, q, m + 1);
        }
    }
}

/// Law: rebuild cadence is frame-rate independent.  Over `n` frames of
/// `delta` milliseconds each — a simulated duration of `n * delta` — with
/// a rebuild interval that the frame time divides evenly, the scheduler fires
/// exactly `(n * delta) / interval` times: the count depends only on the
/// simulated duration and the interval, not on how finely the duration
/// is subdivided into frames.
pub proof fn lemma_rebuild_cadence(n: nat, delta: int, interval: int)
    requires
        0 < delta,
        0 < interval,
        interval % delta == 0,
    ensures
        fires_in(0, n, delta, interval) == (n * delta) / interval,
{
    lemma_scheduler_period(n, delta, interval);
    let k = interval / delta;
    lemma_fundamental_div_mod(interval, delta);
    assert(interval == delta * k);
    assert(0 < k) by (nonlinear_arith)
        requires interval == delta * k, 0 < interval, 0 < delta;
    // with delta dividing interval, the period is exactly k
    assert(interval + delta - 1 == k * delta + (delta - 1)) by (nonlinear_arith)
        requires interval == delta * k;
    lemma_fundamental_div_mod_converse_div(interval + delta - 1, delta, k, delta - 1);
    assert((interval + delta - 1) / delta == k);
    // and n / k equals (n * delta) / interval
    lemma_div_multiples_vanish(n as int, delta);
    assert((n * delta) / delta == n) by {
        assert(delta * n == n * delta) by (nonlinear_arith);
    }
    lemma_div_denominator(n as int * delta, delta, k);
    assert((n * delta) / (delta * k) == n as int / k);
}

/// Runs the scheduler over `frames` frames of `delta` milliseconds each and
/// counts how many rebuilds it fires.
pub fn count_rebuilds(frames: u64, delta: u64, interval: u64) -> (count: u64)
    requires
        0 < interval,
        delta <= u64::MAX - interval,
    ensures
        count == fires_in(0, frames as nat, delta as int, interval as int),
{
    let mut clock = RefreshClock::new();
    let mut count: u64 = 0;
    let mut k: u64 = 0;
    while k < frames
        invariant
            k <= frames,
            count <= k,
            0 < interval,
            delta <= u64::MAX - interval,
            clock.wf(interval),
            clock.elapsed == clock_after(0, k as nat, delta as int, interval as int),
            count == fires_in(0, k as nat, delta as int, interval as int),
        decreases frames - k,
    {
        let fired = clock.tick(delta, interval);
        if fired {
            count = count + 1;
        }
        k = k + 1;
    }
    count
}

} // verus!
