//! Metrics derived from one progress sample: percent done, estimated total
//! size, throughput, time left and the filled cells of the bar. Sizes are in
//! kilobytes; the percent and derived sizes are fixed-point values in tenths
//! and, like the time left, rounded to the nearest unit, halves up.
use vstd::prelude::*;
use crate::fields::some_u64;
use crate::format::{min_nat, round_div, round_div_exec};

verus! {

/// Tenths of a percent of `duration` that `time` has reached.
pub open spec fn percent_of(time: nat, duration: nat) -> nat
    recommends
        duration > 0,
{
    round_div(time * 1000, duration)
}

/// Filled cells of a bar of `width` cells when `time` of `duration` has
/// passed: the exact fraction of the width, rounded down, capped at full.
pub open spec fn filled_of(time: nat, duration: nat, width: nat) -> nat
    recommends
        duration > 0,
{
    min_nat(time * width / duration, width)
}

/// Tenths of a kilobyte that the output will reach, extrapolated from
/// `current` kilobytes written at `time` seconds of `duration`.
pub open spec fn estimate_of(current: nat, duration: nat, time: nat) -> nat
    recommends
        time > 0,
{
    round_div(current * 10 * duration, time)
}

/// Wall-clock milliseconds from `earlier` to `later`; none when the clock went
/// back.
pub open spec fn elapsed_ms(earlier: nat, later: nat) -> nat {
    if later >= earlier { (later - earlier) as nat } else { 0 }
}

/// Tenths of a kilobyte per second written between two samples `elapsed`
/// milliseconds apart. An interval of zero counts as one millisecond, and a
/// shrinking size as no growth.
pub open spec fn rate_of(current: nat, previous: nat, elapsed: nat) -> nat {
    let grown: nat = if current >= previous { (current - previous) as nat } else { 0 };
    let ms: nat = if elapsed == 0 { 1 } else { elapsed };
    round_div(grown * 10_000, ms)
}

/// Seconds left at `speed_milli` thousandths of real time; unknown at speed
/// zero.
pub open spec fn eta_of(duration: nat, time: nat, speed_milli: nat) -> Option<nat> {
    if speed_milli == 0 {
        None
    } else {
        let left: nat = if duration >= time { (duration - time) as nat } else { 0 };
        Some(round_div(left * 1000, speed_milli))
    }
}

/// Metrics of one progress sample.
pub struct Metrics {
    /// Tenths of a percent done.
    pub percent_tenths: u64,
    /// Filled cells of the bar.
    pub bar_cells: usize,
    /// Estimated total output size, in tenths of a kilobyte.
    pub estimated_tenths: u128,
    /// Throughput since the previous sample, in tenths of a kilobyte per second.
    pub rate_tenths: u128,
    /// Seconds left, when the speed is known.
    pub eta_secs: Option<u64>,
}

/// Metrics of a sample at `time` seconds of `duration`, with `current`
/// kilobytes written, `previous` kilobytes at the prior sample `elapsed`
/// milliseconds ago, at `speed_milli` thousandths of real time, for a bar of
/// `bar_width` cells.
pub fn compute_metrics(
    duration: u32,
    time: u32,
    current: u64,
    previous: u64,
    elapsed: u64,
    speed_milli: u64,
    bar_width: usize,
) -> (m: Metrics)
    requires
        duration > 0,
        time > 0,
    ensures
        m.percent_tenths == percent_of(time as nat, duration as nat),
        m.bar_cells == filled_of(time as nat, duration as nat, bar_width as nat),
        m.estimated_tenths == estimate_of(current as nat, duration as nat, time as nat),
        m.rate_tenths == rate_of(current as nat, previous as nat, elapsed as nat),
        some_u64(m.eta_secs) == eta_of(duration as nat, time as nat, speed_milli as nat),
{
    let percent = round_div_exec(time as u128 * 1000, duration as u128);
    assert(percent <= time as u128 * 1000);
    let percent_tenths = percent as u64;
    let t = time as u128;
    let w = bar_width as u128;
    assert(t * w <= u32::MAX as u128 * u64::MAX as u128) by (nonlinear_arith)
        requires
            t <= u32::MAX,
            w <= u64::MAX,
    ;
    let cells = t * w / duration as u128;
    let bar_cells: usize = if cells > w { bar_width } else { cells as usize };
    let c = current as u128;
    let d = duration as u128;
    assert(c * 10 * d <= u64::MAX as u128 * 10 * u32::MAX as u128) by (nonlinear_arith)
        requires
            c <= u64::MAX,
            d <= u32::MAX,
    ;
    let estimated_tenths = round_div_exec(c * 10 * d, time as u128);
    let grown: u128 = if current >= previous { (current - previous) as u128 } else { 0 };
    let ms: u128 = if elapsed == 0 { 1 } else { elapsed as u128 };
    let rate_tenths = round_div_exec(grown * 10_000, ms);
    let eta_secs = if speed_milli == 0 {
        None
    } else {
        let left: u128 = if duration >= time { (duration - time) as u128 } else { 0 };
        let eta = round_div_exec(left * 1000, speed_milli as u128);
        assert(eta <= left * 1000);
        Some(eta as u64)
    };
    Metrics { percent_tenths, bar_cells, estimated_tenths, rate_tenths, eta_secs }
}

} // verus!
