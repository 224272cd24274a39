//! Pitch arithmetic: turning a tracker period into a 24.8 fixed-point
//! per-output-sample step, entirely in integers.
//!
//! A period `p` plays at `freq = 7093789.2 / (2 * p)` Hz; the PAL master
//! clock constant is kept as the exact fraction `70937892 / 10`.  The
//! per-sample step at host rate `r` is `freq / r`, held as a 24.8
//! fixed-point value: `floor((freq / r) * 256)`, which works out to
//! `floor(9080050176 / (10 * p * r))` since `70937892 * 256 / 2 / 10 =
//! 9080050176 / 10`.

use vstd::prelude::*;
use vstd::arithmetic::div_mod::lemma_fundamental_div_mod;

verus! {

/// The 24.8 fixed-point step for period `period` at host rate `rate`:
/// `floor((7093789.2 / (2 * period) / rate) * 256)`, exactly.
pub open spec fn step_fixed(period: int, rate: int) -> int {
    9080050176int / (10 * period * rate)
}

/// Whole part of the per-sample step.
pub open spec fn step_int_of(period: int, rate: int) -> int {
    step_fixed(period, rate) / 256
}

/// Fractional part (in 1/256ths) of the per-sample step.
pub open spec fn step_frac_of(period: int, rate: int) -> int {
    step_fixed(period, rate) % 256
}

/// How many output samples one sequencer tick spans at host rate `rate`:
/// the fixed PAL row-tick rate of 50 ticks per second.
pub open spec fn samples_per_tick_of(rate: int) -> int {
    rate / 50
}

/// Computes the number of output samples per sequencer tick.
pub fn samples_per_tick(sample_rate: u32) -> (n: u32)
    ensures
        n == samples_per_tick_of(sample_rate as int),
{
    sample_rate / 50
}

/// Computes the 24.8 fixed-point step `(whole, frac)` for one output sample.
pub fn compute_step(period: u16, sample_rate: u32) -> (step: (u16, u8))
    requires
        period > 0,
        sample_rate > 0,
        step_int_of(period as int, sample_rate as int) <= u16::MAX,
    ensures
        step.0 as int == step_int_of(period as int, sample_rate as int),
        step.1 as int == step_frac_of(period as int, sample_rate as int),
{
    proof {
        lemma_den_bounds(period as int, sample_rate as int);
    }
    let den: u64 = 10u64 * (period as u64) * (sample_rate as u64);
    let fixed: u64 = 9080050176u64 / den;
    let hi: u64 = fixed / 256;
    let lo: u64 = fixed % 256;
    (hi as u16, lo as u8)
}

proof fn lemma_den_bounds(period: int, rate: int)
    requires
        1 <= period <= u16::MAX,
        1 <= rate <= u32::MAX,
    ensures
        10 <= 10 * period * rate <= 10 * (u16::MAX as int) * (u32::MAX as int),
{
    assert(10 <= 10 * period * rate <= 10 * (u16::MAX as int) * (u32::MAX as int))
        by (nonlinear_arith)
        requires
            1 <= period <= u16::MAX,
            1 <= rate <= u32::MAX,
    ;
}

/// The step is the best 24.8 fixed-point approximation from below of the
/// exact frequency ratio: for all `period > 0` and `rate > 0`, the value
/// `v = 256 * stepInt + stepFrac` satisfies
/// `d * v <= 9080050176 < d * (v + 1)` with `d = 10 * period * rate`,
/// i.e. `stepInt + stepFrac/256` equals `(7093789.2 / (2 * period)) / rate`
/// up to fixed-point rounding.
pub proof fn lemma_step_fixed_point(period: int, rate: int)
    requires
        period > 0,
        rate > 0,
    ensures
        256 * step_int_of(period, rate) + step_frac_of(period, rate)
            == step_fixed(period, rate),
        0 <= step_frac_of(period, rate) < 256,
        0 <= step_int_of(period, rate),
        (10 * period * rate) * step_fixed(period, rate) <= 9080050176int,
        9080050176int < (10 * period * rate) * (step_fixed(period, rate) + 1),
{
    let d = 10 * period * rate;
    assert(10 * period * rate >= 10) by (nonlinear_arith)
        requires
            period > 0,
            rate > 0,
    ;
    let q = step_fixed(period, rate);
    lemma_fundamental_div_mod(9080050176int, d);
    assert(9080050176int == d * q + 9080050176int % d);
    assert(0 <= 9080050176int % d < d);
    assert(d * (q + 1) == d * q + d) by (nonlinear_arith);
    assert(q >= 0) by (nonlinear_arith)
        requires
            d >= 10,
            9080050176int == d * q + 9080050176int % d,
            0 <= 9080050176int % d < d,
    ;
    lemma_fundamental_div_mod(q, 256);
}

} // verus!
