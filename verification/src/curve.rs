//! Piecewise-linear fan-curve interpolation: mapping a temperature reading
//! to a duty cycle through an ordered ramp table, with clamping below the
//! table, flat extrapolation above it, and a fail-safe for an empty table.

use vstd::prelude::*;
use vstd::arithmetic::div_mod::{
    lemma_div_is_ordered,
    lemma_div_multiples_vanish,
    lemma_div_pos_is_pos,
};
use vstd::arithmetic::mul::lemma_mul_inequality;
use crate::config::{RampStep, ramp_sorted, ramp_strictly_sorted, ramp_duties_nondecreasing};

verus! {

/// Duty cycle commanded when a ramp table is empty: full speed.
pub const EMPTY_RAMP_DUTY: u32 = 100;

/// Linear interpolation with integer truncation between two steps, for a
/// reading `t` with `below.temp_c < t <= above.temp_c`. Stated with the
/// difference of duties kept non-negative so that the division is the
/// ordinary truncating one whichever duty is larger.
pub open spec fn interp(below: RampStep, above: RampStep, t: int) -> int {
    let tb = below.temp_c as int;
    let db = below.duty_cyc as int;
    let ta = above.temp_c as int;
    let da = above.duty_cyc as int;
    if da >= db {
        db + (t - tb) * (da - db) / (ta - tb)
    } else {
        db - (t - tb) * (db - da) / (ta - tb)
    }
}

/// The duty cycle a sorted ramp table assigns to reading `t`:
/// 100 for an empty table, the first step's duty at or below the first
/// step, the last step's duty above the last step, and truncated linear
/// interpolation on the segment that contains `t` otherwise.
pub open spec fn spec_duty(ramp: Seq<RampStep>, t: int) -> int
    decreases ramp.len(),
{
    if ramp.len() == 0 {
        EMPTY_RAMP_DUTY as int
    } else if t <= ramp[0].temp_c {
        ramp[0].duty_cyc as int
    } else if ramp.len() == 1 {
        ramp[0].duty_cyc as int
    } else if t <= ramp[1].temp_c {
        interp(ramp[0], ramp[1], t)
    } else {
        spec_duty(ramp.drop_first(), t)
    }
}

/// Scaling a non-negative rise by `dt / span` with `dt <= span` stays
/// between 0 and the rise.
proof fn lemma_scale_bounds(dt: int, span: int, rise: int)
    requires
        0 <= dt <= span,
        0 < span,
        0 <= rise,
    ensures
        0 <= dt * rise / span <= rise,
{
    lemma_mul_inequality(dt, span, rise);
    lemma_div_is_ordered(dt * rise, span * rise, span);
    lemma_div_multiples_vanish(rise, span);
    assert(span * rise / span == rise);
    lemma_div_pos_is_pos(dt * rise, span);
}

/// The scaled rise grows with `dt`.
proof fn lemma_scale_monotone(dt1: int, dt2: int, span: int, rise: int)
    requires
        0 <= dt1 <= dt2,
        0 < span,
        0 <= rise,
    ensures
        dt1 * rise / span <= dt2 * rise / span,
{
    lemma_mul_inequality(dt1, dt2, rise);
    lemma_div_is_ordered(dt1 * rise, dt2 * rise, span);
}

/// On a segment with non-decreasing duty, the interpolated value lies
/// between the two step duties, and equals the upper duty at the upper
/// temperature.
proof fn lemma_interp_bounds(below: RampStep, above: RampStep, t: int)
    requires
        below.temp_c < t <= above.temp_c,
        below.duty_cyc <= above.duty_cyc,
    ensures
        below.duty_cyc <= interp(below, above, t) <= above.duty_cyc,
        t == above.temp_c ==> interp(below, above, t) == above.duty_cyc,
{
    let tb = below.temp_c as int;
    let db = below.duty_cyc as int;
    let ta = above.temp_c as int;
    let da = above.duty_cyc as int;
    lemma_scale_bounds(t - tb, ta - tb, da - db);
    if t == ta {
        lemma_div_multiples_vanish(da - db, ta - tb);
        assert((ta - tb) * (da - db) / (ta - tb) == da - db);
    }
}

/// Where a ramp's duties may decrease, the interpolated value still lies
/// between the two step duties, and matches the upper duty at the upper
/// temperature.
proof fn lemma_interp_bounds_general(below: RampStep, above: RampStep, t: int)
    requires
        below.temp_c < t <= above.temp_c,
    ensures
        interp(below, above, t) <= vstd::math::max(below.duty_cyc as int, above.duty_cyc as int),
        interp(below, above, t) >= vstd::math::min(below.duty_cyc as int, above.duty_cyc as int),
        t == above.temp_c ==> interp(below, above, t) == above.duty_cyc,
{
    let tb = below.temp_c as int;
    let db = below.duty_cyc as int;
    let ta = above.temp_c as int;
    let da = above.duty_cyc as int;
    if da >= db {
        lemma_interp_bounds(below, above, t);
    } else {
        lemma_scale_bounds(t - tb, ta - tb, db - da);
        if t == ta {
            lemma_div_multiples_vanish(db - da, ta - tb);
            assert((ta - tb) * (db - da) / (ta - tb) == db - da);
        }
    }
}

/// `spec_duty` restated over the insertion point: given `i`, the index of
/// the first step whose temperature is at or above `t`, the duty is the
/// first step's below the table, the last step's above it, and the
/// interpolation on the segment `[i - 1, i]` in between.
pub proof fn lemma_duty_at_insertion_point(ramp: Seq<RampStep>, t: int, i: int)
    requires
        ramp_sorted(ramp),
        0 <= i <= ramp.len(),
        forall|j: int| 0 <= j < i ==> ramp[j].temp_c < t,
        i < ramp.len() ==> ramp[i].temp_c >= t,
    ensures
        spec_duty(ramp, t) == if ramp.len() == 0 {
            EMPTY_RAMP_DUTY as int
        } else if i == ramp.len() {
            ramp.last().duty_cyc as int
        } else if i == 0 {
            ramp[0].duty_cyc as int
        } else {
            interp(ramp[i - 1], ramp[i], t)
        },
    decreases ramp.len(),
{
    if ramp.len() == 0 {
    } else if t <= ramp[0].temp_c {
        assert(i == 0);
    } else if ramp.len() == 1 {
        assert(i == 1);
    } else if t <= ramp[1].temp_c {
        assert(i == 1);
    } else {
        let tail = ramp.drop_first();
        assert(forall|j: int| 0 <= j < tail.len() ==> tail[j] == ramp[j + 1]);
        assert(i >= 2);
        lemma_duty_at_insertion_point(tail, t, i - 1);
        assert(tail.last() == ramp.last());
    }
}

/// An empty ramp table commands full speed, whatever the reading.
pub proof fn lemma_empty_ramp(t: int)
    ensures
        spec_duty(Seq::<RampStep>::empty(), t) == EMPTY_RAMP_DUTY as int,
{
}

/// A reading at or below the lowest step clamps to the lowest step's duty:
/// there is no downward extrapolation.
pub proof fn lemma_below_range_clamps(ramp: Seq<RampStep>, t: int)
    requires
        ramp.len() > 0,
        t <= ramp[0].temp_c,
    ensures
        spec_duty(ramp, t) == ramp[0].duty_cyc as int,
{
}

/// A reading above the highest step extrapolates flat at the highest
/// step's duty.
pub proof fn lemma_above_range_extrapolates_flat(ramp: Seq<RampStep>, t: int)
    requires
        ramp_sorted(ramp),
        ramp.len() > 0,
        t > ramp.last().temp_c,
    ensures
        spec_duty(ramp, t) == ramp.last().duty_cyc as int,
{
    assert forall|j: int| 0 <= j < ramp.len() implies ramp[j].temp_c < t by {
        assert(ramp[j].temp_c <= ramp[ramp.len() - 1].temp_c);
    }
    lemma_duty_at_insertion_point(ramp, t, ramp.len() as int);
}

/// A reading equal to a step's temperature returns that step's duty
/// exactly. Stated for strictly ascending tables: with two steps sharing
/// a temperature but not a duty, no single duty could answer for both.
pub proof fn lemma_exact_match(ramp: Seq<RampStep>, k: int)
    requires
        ramp_strictly_sorted(ramp),
        0 <= k < ramp.len(),
    ensures
        spec_duty(ramp, ramp[k].temp_c as int) == ramp[k].duty_cyc as int,
{
    let t = ramp[k].temp_c as int;
    assert(ramp_sorted(ramp));
    lemma_duty_at_insertion_point(ramp, t, k);
    if k > 0 {
        lemma_interp_bounds_general(ramp[k - 1], ramp[k], t);
    }
}

/// Lower and upper bounds: over a sorted table with non-decreasing duties,
/// every reading's duty lies between the first and the last step's duty.
pub proof fn lemma_duty_in_range(ramp: Seq<RampStep>, t: int)
    requires
        ramp_sorted(ramp),
        ramp_duties_nondecreasing(ramp),
        ramp.len() > 0,
    ensures
        ramp[0].duty_cyc as int <= spec_duty(ramp, t) <= ramp.last().duty_cyc as int,
    decreases ramp.len(),
{
    if t <= ramp[0].temp_c {
    } else if ramp.len() == 1 {
    } else if t <= ramp[1].temp_c {
        lemma_interp_bounds(ramp[0], ramp[1], t);
        assert(ramp[1].duty_cyc <= ramp.last().duty_cyc);
    } else {
        let tail = ramp.drop_first();
        assert(forall|j: int| 0 <= j < tail.len() ==> tail[j] == ramp[j + 1]);
        lemma_duty_in_range(tail, t);
        assert(tail.last() == ramp.last());
    }
}

/// Monotonicity: over a sorted table with non-decreasing duties, a hotter
/// reading never commands a slower fan.
pub proof fn lemma_duty_monotonic(ramp: Seq<RampStep>, t1: int, t2: int)
    requires
        ramp_sorted(ramp),
        ramp_duties_nondecreasing(ramp),
        t1 <= t2,
    ensures
        spec_duty(ramp, t1) <= spec_duty(ramp, t2),
    decreases ramp.len(),
{
    if ramp.len() == 0 {
    } else if t2 <= ramp[0].temp_c {
    } else if t1 <= ramp[0].temp_c {
        lemma_duty_in_range(ramp, t2);
    } else if ramp.len() == 1 {
    } else if t2 <= ramp[1].temp_c {
        let tb = ramp[0].temp_c as int;
        let ta = ramp[1].temp_c as int;
        let db = ramp[0].duty_cyc as int;
        let da = ramp[1].duty_cyc as int;
        lemma_scale_monotone(t1 - tb, t2 - tb, ta - tb, da - db);
    } else if t1 <= ramp[1].temp_c {
        let tail = ramp.drop_first();
        assert(forall|j: int| 0 <= j < tail.len() ==> tail[j] == ramp[j + 1]);
        lemma_interp_bounds(ramp[0], ramp[1], t1);
        lemma_duty_in_range(tail, t2);
    } else {
        let tail = ramp.drop_first();
        assert(forall|j: int| 0 <= j < tail.len() ==> tail[j] == ramp[j + 1]);
        lemma_duty_monotonic(tail, t1, t2);
    }
}

/// Evaluate a sorted ramp table at a reading, returning the duty cycle the
/// curve assigns to it.
pub fn eval_ramp(ramp: &Vec<RampStep>, temp: u32) -> (d: u32)
    requires
        ramp_sorted(ramp@),
    ensures
        d as int == spec_duty(ramp@, temp as int),
{
    let n = ramp.len();
    if n == 0 {
        proof {
            lemma_empty_ramp(temp as int);
        }
        return EMPTY_RAMP_DUTY;
    }
    // Index of the first step whose temperature is at or above the reading.
    let mut i: usize = 0;
    while i < n && ramp[i].temp_c < temp
        invariant
            0 <= i <= n,
            n == ramp@.len(),
            forall|j: int| 0 <= j < i ==> ramp@[j].temp_c < temp,
        decreases n - i,
    {
        i = i + 1;
    }
    proof {
        lemma_duty_at_insertion_point(ramp@, temp as int, i as int);
    }
    if i == n {
        // The reading exceeds every step: extrapolate flat at the last duty.
        return ramp[n - 1].duty_cyc;
    }
    if i == 0 {
        // The reading is at or below the lowest step: clamp to its duty.
        return ramp[0].duty_cyc;
    }
    let below = ramp[i - 1];
    let above = ramp[i];
    let dt = (temp - below.temp_c) as u64;
    let span = (above.temp_c - below.temp_c) as u64;
    if above.duty_cyc >= below.duty_cyc {
        let rise = (above.duty_cyc - below.duty_cyc) as u64;
        proof {
            assert(dt * rise <= 0xffff_ffff * 0xffff_ffff) by (nonlinear_arith)
                requires
                    dt <= 0xffff_ffff,
                    rise <= 0xffff_ffff,
            ;
            lemma_scale_bounds(dt as int, span as int, rise as int);
        }
        let q = dt * rise / span;
        (below.duty_cyc as u64 + q) as u32
    } else {
        let fall = (below.duty_cyc - above.duty_cyc) as u64;
        proof {
            assert(dt * fall <= 0xffff_ffff * 0xffff_ffff) by (nonlinear_arith)
                requires
                    dt <= 0xffff_ffff,
                    fall <= 0xffff_ffff,
            ;
            lemma_scale_bounds(dt as int, span as int, fall as int);
        }
        let q = dt * fall / span;
        (below.duty_cyc as u64 - q) as u32
    }
}

} // verus!
