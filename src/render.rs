//! The text written to the terminal: the placeholder shown before any
//! progress, progress lines, the closing summary and the erasure of what is
//! shown.
use vstd::prelude::*;
use crate::format::{cells_text, push_cells, push_size, push_time, round_div, round_div_exec, size_text, time_text};
use crate::fields::some_u64;
use crate::metrics::Metrics;
use crate::text::{push_repeat, push_tenths, repeat, tenths_text};

verus! {

/// Backspace, space, backspace for each of `n` characters shown.
pub open spec fn erase_text(n: nat) -> Seq<char> {
    repeat(seq!['\x08', ' ', '\x08'], n)
}

/// The line shown before any progress: an empty bar and `0%`.
pub open spec fn initial_text(width: nat) -> Seq<char> {
    if width > 0 {
        seq!['['] + repeat(seq!['.'], width) + seq![']', ' ', '0', '%']
    } else {
        seq!['0', '%']
    }
}

pub open spec fn eta_text(eta: Option<nat>) -> Seq<char> {
    match eta {
        Some(e) => seq![' ', 'E', 'T', 'A', ' '] + time_text(e),
        None => Seq::empty(),
    }
}

/// A progress line: the bar with `filled` cells filled (left out at width zero), a space and the percent;
/// with statistics, then the size written, the estimated total, the
/// throughput and, when known, the time left.
pub open spec fn line_text(
    width: nat,
    stats: bool,
    filled: nat,
    percent: nat,
    current: nat,
    estimated: nat,
    rate: nat,
    eta: Option<nat>,
) -> Seq<char> {
    (if width > 0 { cells_text(filled, width) } else { Seq::empty() }) + seq![' '] + tenths_text(percent)
        + seq!['%'] + if stats {
        seq!['/'] + size_text(current * 10) + seq![' ', 'o', 'f', ' ', '~'] + size_text(estimated) + seq![' ', 'a', 't', ' '] + size_text(rate)
            + seq!['/', 's'] + eta_text(eta)
    } else {
        Seq::empty()
    }
}

/// Average throughput of a whole run, in tenths of a kilobyte per second,
/// rounded to the nearest tenth; a run of zero milliseconds counts as one
/// millisecond.
pub open spec fn average_rate(current: nat, elapsed: nat) -> nat {
    round_div(current * 10_000, if elapsed == 0 { 1 } else { elapsed })
}

/// The closing line of a successful run: a full bar (left out at width zero)
/// and `100%`; with statistics, then the size written, the wall-clock time
/// and the average throughput.
pub open spec fn summary_text(width: nat, stats: bool, current: nat, elapsed: nat) -> Seq<char> {
    (if width > 0 { seq!['['] + repeat(seq!['#'], width) + seq![']', ' '] } else { Seq::empty() }) + seq!['1', '0', '0', '%']
        + (if stats {
        seq![' ', 'o', 'f', ' '] + size_text(current * 10) + seq![' ', 'i', 'n', ' '] + time_text(elapsed / 1000) + seq![' ', 'a', 't', ' ']
            + size_text(average_rate(current, elapsed)) + seq!['/', 's']
    } else {
        Seq::empty()
    }) + seq!['\n']
}

/// The closing line of a failed run.
pub open spec fn failure_text() -> Seq<char> {
    seq!['P', 'r', 'o', 'c', 'e', 's', 's', ' ', 'f', 'a', 'i', 'l', 'e', 'd', '!', '\n']
}

/// Appends the erasure of `n` characters shown.
pub fn push_erase(out: &mut String, n: usize)
    ensures
        final(out)@ == old(out)@ + erase_text(n as nat),
{
    proof {
        reveal_strlit("\u{8} \u{8}");
    }
    assert("\u{8} \u{8}"@ =~= seq!['\x08', ' ', '\x08']);
    push_repeat(out, "\u{8} \u{8}", n);
}

/// The line shown before any progress.
pub fn initial_line(bar_width: usize) -> (r: String)
    ensures
        r@ == initial_text(bar_width as nat),
{
    proof {
        reveal_strlit("[");
        reveal_strlit(".");
        reveal_strlit("] 0%");
        reveal_strlit("0%");
    }
    if bar_width > 0 {
        let mut out = String::from_str("[");
        assert("."@ =~= seq!['.']);
        push_repeat(&mut out, ".", bar_width);
        out.append("] 0%");
        assert(out@ =~= initial_text(bar_width as nat));
        out
    } else {
        let out = String::from_str("0%");
        assert(out@ =~= initial_text(bar_width as nat));
        out
    }
}

/// The progress line for metrics `m` with `current` kilobytes written.
pub fn progress_line(m: &Metrics, current: u64, bar_width: usize, stats: bool) -> (r: String)
    requires
        m.bar_cells <= bar_width,
    ensures
        r@ == line_text(
            bar_width as nat,
            stats,
            m.bar_cells as nat,
            m.percent_tenths as nat,
            current as nat,
            m.estimated_tenths as nat,
            m.rate_tenths as nat,
            some_u64(m.eta_secs),
        ),
{
    proof {
        reveal_strlit(" ");
        reveal_strlit("%");
        reveal_strlit("/");
        reveal_strlit(" of ~");
        reveal_strlit(" at ");
        reveal_strlit("/s");
        reveal_strlit(" ETA ");
    }
    let mut out = String::new();
    if bar_width > 0 {
        push_cells(&mut out, m.bar_cells, bar_width);
    }
    out.append(" ");
    push_tenths(&mut out, m.percent_tenths as u128);
    out.append("%");
    if stats {
        out.append("/");
        push_size(&mut out, current as u128 * 10);
        out.append(" of ~");
        push_size(&mut out, m.estimated_tenths);
        out.append(" at ");
        push_size(&mut out, m.rate_tenths);
        out.append("/s");
        match m.eta_secs {
            Some(e) => {
                out.append(" ETA ");
                push_time(&mut out, e);
            },
            None => {},
        }
    }
    assert(out@ =~= line_text(
        bar_width as nat,
        stats,
        m.bar_cells as nat,
        m.percent_tenths as nat,
        current as nat,
        m.estimated_tenths as nat,
        m.rate_tenths as nat,
        some_u64(m.eta_secs),
    ));
    out
}

/// The closing line of a successful run that wrote `current` kilobytes in
/// `elapsed` wall-clock milliseconds.
pub fn summary_line(current: u64, elapsed: u64, bar_width: usize, stats: bool) -> (r: String)
    ensures
        r@ == summary_text(bar_width as nat, stats, current as nat, elapsed as nat),
{
    proof {
        reveal_strlit("[");
        reveal_strlit("#");
        reveal_strlit("] ");
        reveal_strlit("100%");
        reveal_strlit(" of ");
        reveal_strlit(" in ");
        reveal_strlit(" at ");
        reveal_strlit("/s");
        reveal_strlit("\n");
    }
    let mut out = String::new();
    if bar_width > 0 {
        out.append("[");
        assert("#"@ =~= seq!['#']);
        push_repeat(&mut out, "#", bar_width);
        out.append("] ");
    }
    out.append("100%");
    if stats {
        out.append(" of ");
        push_size(&mut out, current as u128 * 10);
        out.append(" in ");
        push_time(&mut out, elapsed / 1000);
        out.append(" at ");
        let ms: u128 = if elapsed == 0 { 1 } else { elapsed as u128 };
        push_size(&mut out, round_div_exec(current as u128 * 10_000, ms));
        out.append("/s");
    }
    out.append("\n");
    assert(out@ =~= summary_text(bar_width as nat, stats, current as nat, elapsed as nat));
    out
}

/// The closing line of a failed run.
pub fn failure_line() -> (r: String)
    ensures
        r@ == failure_text(),
{
    proof {
        reveal_strlit("Process failed!\n");
    }
    let out = String::from_str("Process failed!\n");
    assert(out@ =~= failure_text());
    out
}

} // verus!
