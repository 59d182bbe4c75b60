//! Human-readable sizes, durations and progress bars.
use vstd::prelude::*;
use crate::text::{dec, push_decimal, push_repeat, push_tenths, repeat, tenths_text};

verus! {

/// `a / b` rounded to the nearest integer, halves rounded up.
pub open spec fn round_div(a: nat, b: nat) -> nat
    recommends
        b > 0,
{
    a / b + if a % b >= b - b / 2 { 1nat } else { 0nat }
}

/// The text of a size given in tenths of a kilobyte. Thresholds are decimal
/// and strict: above 1,000,000 kB it is written in GB, above 1,000 kB in MB,
/// otherwise in kB, always with one decimal.
#[verifier::opaque]
pub open spec fn size_text(t: nat) -> Seq<char> {
    if t > 10_000_000 {
        tenths_text(round_div(t, 1_000_000)) + seq!['G', 'B']
    } else if t > 10_000 {
        tenths_text(round_div(t, 1_000)) + seq!['M', 'B']
    } else {
        tenths_text(t) + seq!['K', 'B']
    }
}

/// The text of a number of seconds. Above an hour it gives the whole hours
/// and, as minutes, sixty times the leftover seconds capped at 59. Above a
/// minute it gives the whole minutes and the leftover seconds. Otherwise it
/// gives the seconds.
#[verifier::opaque]
pub open spec fn time_text(secs: nat) -> Seq<char> {
    if secs > 3600 {
        dec(secs / 3600) + seq!['h', ' '] + dec(min_nat((secs % 3600) * 60, 59)) + seq!['m']
    } else if secs > 60 {
        dec(secs / 60) + seq!['m', ' '] + dec(min_nat(secs % 60, 59)) + seq!['s']
    } else {
        dec(secs) + seq!['s']
    }
}

pub open spec fn min_nat(a: nat, b: nat) -> nat {
    if a <= b { a } else { b }
}

/// Number of filled cells of a bar of `width` cells at `percent_tenths`
/// tenths of a percent; a bar never holds more cells than its width.
pub open spec fn filled_cells(percent_tenths: nat, width: nat) -> nat {
    min_nat(percent_tenths * width / 1000, width)
}

/// A bracketed bar of `width` cells: `filled` cells `#`, then empty cells `.`.
#[verifier::opaque]
pub open spec fn cells_text(filled: nat, width: nat) -> Seq<char> {
    seq!['['] + repeat(seq!['#'], filled) + repeat(seq!['.'], (width - filled) as nat) + seq![']']
}

/// A bar of `width` cells at `percent_tenths` tenths of a percent.
pub open spec fn bar_text(percent_tenths: nat, width: nat) -> Seq<char> {
    cells_text(filled_cells(percent_tenths, width), width)
}

/// `a / b` rounded to the nearest integer, halves rounded up.
pub fn round_div_exec(a: u128, b: u128) -> (r: u128)
    requires
        b >= 1,
    ensures
        r == round_div(a as nat, b as nat),
        r <= a,
{
    let q = a / b;
    proof {
        assert(q <= a);
    }
    if a % b >= b - b / 2 {
        assert(b >= 2) by {
            if b == 1 {
                assert(a % b == 0);
            }
        }
        assert(q < u128::MAX) by (nonlinear_arith)
            requires
                q == a / b,
                b >= 2,
                a <= u128::MAX,
        ;
        assert(q + 1 <= a) by (nonlinear_arith)
            requires
                q == a / b,
                b >= 2,
                a % b >= 1,
        ;
        q + 1
    } else {
        q
    }
}

/// Appends the text of a size given in tenths of a kilobyte.
pub fn push_size(out: &mut String, t: u128)
    ensures
        final(out)@ == old(out)@ + size_text(t as nat),
{
    reveal(size_text);
    proof {
        reveal_strlit("GB");
        reveal_strlit("MB");
        reveal_strlit("KB");
    }
    if t > 10_000_000 {
        push_tenths(out, round_div_exec(t, 1_000_000));
        out.append("GB");
    } else if t > 10_000 {
        push_tenths(out, round_div_exec(t, 1_000));
        out.append("MB");
    } else {
        push_tenths(out, t);
        out.append("KB");
    }
    assert(final(out)@ =~= old(out)@ + size_text(t as nat));
}

/// A size given in tenths of a kilobyte, in kB, MB or GB with one decimal.
pub fn human_readable_tenths(t: u128) -> (r: String)
    ensures
        r@ == size_text(t as nat),
{
    let mut out = String::new();
    push_size(&mut out, t);
    assert(out@ =~= size_text(t as nat));
    out
}

/// A size given in whole kilobytes, in kB, MB or GB with one decimal:
/// `500` is `500.0KB`, `1500` is `1.5MB`.
pub fn human_readable(kb: u64) -> (r: String)
    ensures
        r@ == size_text(kb as nat * 10),
{
    human_readable_tenths(kb as u128 * 10)
}

/// Appends the text of a number of seconds.
pub fn push_time(out: &mut String, secs: u64)
    ensures
        final(out)@ == old(out)@ + time_text(secs as nat),
{
    reveal(time_text);
    proof {
        reveal_strlit("h ");
        reveal_strlit("m ");
        reveal_strlit("m");
        reveal_strlit("s");
    }
    if secs > 3600 {
        let rest = (secs % 3600) as u128 * 60;
        let minutes = if rest > 59 { 59 } else { rest };
        push_decimal(out, (secs / 3600) as u128);
        out.append("h ");
        push_decimal(out, minutes);
        out.append("m");
    } else if secs > 60 {
        let rest = secs % 60;
        let seconds = if rest > 59 { 59 } else { rest };
        push_decimal(out, (secs / 60) as u128);
        out.append("m ");
        push_decimal(out, seconds as u128);
        out.append("s");
    } else {
        push_decimal(out, secs as u128);
        out.append("s");
    }
    assert(final(out)@ =~= old(out)@ + time_text(secs as nat));
}

/// The text of a number of seconds: `30s`, `1m 30s`, `1h 59m`.
pub fn secs_to_time(secs: u64) -> (r: String)
    ensures
        r@ == time_text(secs as nat),
{
    let mut out = String::new();
    push_time(&mut out, secs);
    assert(out@ =~= time_text(secs as nat));
    out
}

/// Appends a bar of `width` cells of which `filled` are filled.
pub fn push_cells(out: &mut String, filled: usize, width: usize)
    requires
        filled <= width,
    ensures
        final(out)@ == old(out)@ + cells_text(filled as nat, width as nat),
{
    reveal(cells_text);
    proof {
        reveal_strlit("[");
        reveal_strlit("]");
        reveal_strlit("#");
        reveal_strlit(".");
    }
    assert("#"@ =~= seq!['#']);
    assert("."@ =~= seq!['.']);
    out.append("[");
    push_repeat(out, "#", filled);
    push_repeat(out, ".", width - filled);
    out.append("]");
    assert(final(out)@ =~= old(out)@ + cells_text(filled as nat, width as nat));
}

/// A bracketed bar of `width` cells, filled in proportion to `percent_tenths`
/// tenths of a percent (`500` is half full), capped at full.
pub fn progress_bar(percent_tenths: u64, width: usize) -> (r: String)
    ensures
        r@ == bar_text(percent_tenths as nat, width as nat),
{
    let p = percent_tenths as u128;
    let w = width as u128;
    assert(p * w <= u64::MAX as u128 * u64::MAX as u128) by (nonlinear_arith)
        requires
            p <= u64::MAX,
            w <= u64::MAX,
    ;
    let cells = p * w / 1000;
    let filled: usize = if cells > w { width } else { cells as usize };
    let mut out = String::new();
    push_cells(&mut out, filled, width);
    assert(out@ =~= bar_text(percent_tenths as nat, width as nat));
    out
}

} // verus!
