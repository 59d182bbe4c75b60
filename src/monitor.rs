//! The run's progress state and its update for each unit of the diagnostic
//! stream, with the closing line.
use vstd::prelude::*;
use crate::fields::{
    chars_of, clock_malformed, contains, duration_field, size_malformed, speed_malformed,
    MalformedField, duration_tag, first_clock, first_size, first_speed,
    is_prompt, last_line, last_line_start, prompt_marker, size_field, some_u32, some_u64,
    speed_field, time_field, time_tag,
};
use crate::metrics::{
    compute_metrics, elapsed_ms, estimate_of, eta_of, filled_of, percent_of, rate_of,
};
use crate::render::{
    erase_text, failure_line, failure_text, initial_line, initial_text, line_text,
    progress_line, push_erase, summary_line, summary_text,
};

verus! {

/// Whether the subprocess is waiting for an answer to its overwrite question.
#[derive(PartialEq, Eq, Structural, Clone, Copy, Debug)]
pub enum Mode {
    Parsing,
    AwaitingAnswer,
}

/// The state of one monitored run. Times are wall-clock milliseconds, sizes
/// kilobytes.
pub struct Monitor {
    /// Stream duration in seconds; 0 until announced, then never changed.
    pub duration: u32,
    /// Size written at the latest sample.
    pub current_size: u64,
    /// Size written at the sample before.
    pub previous_size: u64,
    /// Processing speed in thousandths of real time.
    pub speed_milli: u64,
    /// When the latest sample was taken.
    pub last_sample_ms: u64,
    /// When the run started, moved to the answer of an overwrite question.
    pub start_ms: u64,
    pub mode: Mode,
    /// The line now shown on the terminal.
    pub rendered: String,
    /// Whether progress lines carry sizes, throughput and time left.
    pub stats: bool,
    /// Number of cells of the bar; 0 leaves the bar out.
    pub bar_width: usize,
}

/// The model of a `Monitor`.
pub struct MonitorView {
    pub duration: nat,
    pub current_size: nat,
    pub previous_size: nat,
    pub speed_milli: nat,
    pub last_sample_ms: nat,
    pub start_ms: nat,
    pub awaiting: bool,
    pub rendered: Seq<char>,
    pub stats: bool,
    pub bar_width: nat,
}

impl View for Monitor {
    type V = MonitorView;

    open spec fn view(&self) -> MonitorView {
        MonitorView {
            duration: self.duration as nat,
            current_size: self.current_size as nat,
            previous_size: self.previous_size as nat,
            speed_milli: self.speed_milli as nat,
            last_sample_ms: self.last_sample_ms as nat,
            start_ms: self.start_ms as nat,
            awaiting: self.mode == Mode::AwaitingAnswer,
            rendered: self.rendered@,
            stats: self.stats,
            bar_width: self.bar_width as nat,
        }
    }
}

/// Leaving the overwrite question moves both wall-clock anchors to `now`, so
/// that the wait for the answer counts in neither elapsed time nor throughput.
pub open spec fn resumed(s: MonitorView, now: nat) -> MonitorView {
    if s.awaiting {
        MonitorView { awaiting: false, start_ms: now, last_sample_ms: now, ..s }
    } else {
        s
    }
}

/// The duration is taken from the first unit that announces one while it is
/// still 0.
pub open spec fn with_duration(s: MonitorView, unit: Seq<char>) -> MonitorView {
    if s.duration == 0 {
        match first_clock(unit, duration_tag(), 0) {
            Some(d) => MonitorView { duration: d, ..s },
            None => s,
        }
    } else {
        s
    }
}

/// Elapsed media seconds reported by a unit; 0 when it reports none.
pub open spec fn unit_time(unit: Seq<char>) -> nat {
    match first_clock(unit, time_tag(), 0) {
        Some(t) => t,
        None => 0,
    }
}

/// A sample taken at `now`: the size written and the speed are replaced by
/// those the unit reports, if any, and the old size becomes the previous one.
pub open spec fn sampled(s: MonitorView, unit: Seq<char>, now: nat) -> MonitorView {
    MonitorView {
        previous_size: s.current_size,
        current_size: match first_size(unit, 0) {
            Some(v) => v,
            None => s.current_size,
        },
        speed_milli: match first_speed(unit, 0) {
            Some(v) => v,
            None => s.speed_milli,
        },
        last_sample_ms: now,
        ..s
    }
}

/// The progress line for a unit sampled at `now` from state `s`.
pub open spec fn unit_line(s: MonitorView, unit: Seq<char>, now: nat) -> Seq<char> {
    let t = sampled(s, unit, now);
    let time = unit_time(unit);
    line_text(
        s.bar_width,
        s.stats,
        filled_of(time, s.duration, s.bar_width),
        percent_of(time, s.duration),
        t.current_size,
        estimate_of(t.current_size, s.duration, time),
        rate_of(t.current_size, t.previous_size, elapsed_ms(s.last_sample_ms, now)),
        eta_of(s.duration, time, t.speed_milli),
    )
}

/// The state after a unit received at `now`.
pub open spec fn next(s: MonitorView, unit: Seq<char>, now: nat) -> MonitorView {
    if contains(unit, prompt_marker()) {
        MonitorView { awaiting: true, rendered: Seq::empty(), ..s }
    } else {
        let s2 = with_duration(resumed(s, now), unit);
        if unit_time(unit) == 0 {
            s2
        } else if s2.duration == 0 {
            sampled(s2, unit, now)
        } else {
            MonitorView { rendered: unit_line(s2, unit, now), ..sampled(s2, unit, now) }
        }
    }
}

/// What is written to the terminal for a unit received at `now`. For an
/// overwrite question: the shown line is erased and the question's last line
/// is relayed with the closing bracket. For a unit with a nonzero time once
/// the duration is known: the shown line is replaced by a progress line.
/// Otherwise nothing.
pub open spec fn output(s: MonitorView, unit: Seq<char>, now: nat) -> Seq<char> {
    if contains(unit, prompt_marker()) {
        erase_text(s.rendered.len()) + last_line(unit) + seq![']', ' ']
    } else {
        let s2 = with_duration(resumed(s, now), unit);
        if unit_time(unit) == 0 || s2.duration == 0 {
            Seq::empty()
        } else {
            erase_text(s.rendered.len()) + unit_line(s2, unit, now)
        }
    }
}

/// A unit that is not an overwrite question is malformed when a field that
/// it is read for is: its duration while none is known, its time, and, when
/// its time is nonzero, its size and speed.
pub open spec fn malformed(s: MonitorView, unit: Seq<char>) -> bool {
    &&& !contains(unit, prompt_marker())
    &&& {
        ||| s.duration == 0 && clock_malformed(unit, duration_tag(), 0)
        ||| clock_malformed(unit, time_tag(), 0)
        ||| unit_time(unit) != 0 && (size_malformed(unit, 0) || speed_malformed(unit, 0))
    }
}

/// What is written when the subprocess ends at `now`: the shown line is
/// erased, then the summary of a successful run or the failure line.
pub open spec fn closing(s: MonitorView, success: bool, now: nat) -> Seq<char> {
    erase_text(s.rendered.len()) + if success {
        summary_text(s.bar_width, s.stats, s.current_size, elapsed_ms(s.start_ms, now))
    } else {
        failure_text()
    }
}

impl Monitor {
    /// A run started at `now_ms`, showing the placeholder line.
    pub fn new(stats: bool, bar_width: usize, now_ms: u64) -> (m: Monitor)
        ensures
            m@ == (MonitorView {
                duration: 0,
                current_size: 0,
                previous_size: 0,
                speed_milli: 0,
                last_sample_ms: now_ms as nat,
                start_ms: now_ms as nat,
                awaiting: false,
                rendered: initial_text(bar_width as nat),
                stats,
                bar_width: bar_width as nat,
            }),
    {
        Monitor {
            duration: 0,
            current_size: 0,
            previous_size: 0,
            speed_milli: 0,
            last_sample_ms: now_ms,
            start_ms: now_ms,
            mode: Mode::Parsing,
            rendered: initial_line(bar_width),
            stats,
            bar_width,
        }
    }

    /// Takes one unit of the diagnostic stream, received at `now_ms`, and
    /// returns what to write to the terminal, or an error, with the state
    /// unchanged, when a field it reads is malformed.
    pub fn step(&mut self, unit: &str, now_ms: u64) -> (out: Result<String, MalformedField>)
        ensures
            out is Err == malformed(old(self)@, unit@),
            out is Err ==> final(self)@ == old(self)@,
            out is Ok ==> final(self)@ == next(old(self)@, unit@, now_ms as nat),
            out is Ok ==> out->Ok_0@ == output(old(self)@, unit@, now_ms as nat),
            first_clock(unit@, duration_tag(), 0) is None ==> final(self).duration == old(
                self,
            ).duration,
            old(self).duration != 0 ==> final(self).duration == old(self).duration,
            out is Ok ==> (final(self).mode == Mode::AwaitingAnswer) == contains(
                unit@,
                prompt_marker(),
            ),
            out is Ok && final(self).mode == Mode::AwaitingAnswer ==> final(self).rendered@.len()
                == 0,
    {
        let chars = chars_of(unit);
        let shown = self.rendered.as_str().unicode_len();
        let mut out = String::new();
        if is_prompt(chars.as_slice()) {
            proof {
                reveal_strlit("] ");
            }
            push_erase(&mut out, shown);
            let k = last_line_start(chars.as_slice());
            out.append(unit.substring_char(k, chars.len()));
            out.append("] ");
            self.mode = Mode::AwaitingAnswer;
            self.rendered = String::new();
            assert(out@ =~= output(old(self)@, unit@, now_ms as nat));
            assert(self@ =~= next(old(self)@, unit@, now_ms as nat));
            return Ok(out);
        }
        let announced = if self.duration == 0 {
            match duration_field(chars.as_slice()) {
                Ok(d) => d,
                Err(e) => {
                    return Err(e);
                },
            }
        } else {
            None
        };
        let time = match time_field(chars.as_slice()) {
            Ok(Some(t)) => t,
            Ok(None) => 0,
            Err(e) => {
                return Err(e);
            },
        };
        assert(time == unit_time(unit@));
        let mut size = None;
        let mut speed = None;
        if time != 0 {
            size = match size_field(chars.as_slice()) {
                Ok(v) => v,
                Err(e) => {
                    return Err(e);
                },
            };
            speed = match speed_field(chars.as_slice()) {
                Ok(v) => v,
                Err(e) => {
                    return Err(e);
                },
            };
        }
        assert(!malformed(old(self)@, unit@));
        if self.mode == Mode::AwaitingAnswer {
            self.mode = Mode::Parsing;
            self.start_ms = now_ms;
            self.last_sample_ms = now_ms;
        }
        assert(self@ == resumed(old(self)@, now_ms as nat));
        match announced {
            Some(d) => {
                self.duration = d;
            },
            None => {},
        }
        let ghost s2 = self@;
        assert(s2 == with_duration(resumed(old(self)@, now_ms as nat), unit@));
        if time != 0 {
            let elapsed = if now_ms >= self.last_sample_ms {
                now_ms - self.last_sample_ms
            } else {
                0
            };
            self.previous_size = self.current_size;
            match size {
                Some(v) => {
                    self.current_size = v;
                },
                None => {},
            }
            match speed {
                Some(v) => {
                    self.speed_milli = v;
                },
                None => {},
            }
            self.last_sample_ms = now_ms;
            assert(self@ == sampled(s2, unit@, now_ms as nat));
            if self.duration != 0 {
                let m = compute_metrics(
                    self.duration,
                    time,
                    self.current_size,
                    self.previous_size,
                    elapsed,
                    self.speed_milli,
                    self.bar_width,
                );
                let line = progress_line(&m, self.current_size, self.bar_width, self.stats);
                assert(line@ == unit_line(s2, unit@, now_ms as nat));
                push_erase(&mut out, shown);
                out.append(line.as_str());
                self.rendered = line;
            }
        }
        assert(out@ =~= output(old(self)@, unit@, now_ms as nat));
        Ok(out)
    }

    /// What to write when the subprocess ends at `now_ms`, successfully or not.
    pub fn finish(&self, success: bool, now_ms: u64) -> (out: String)
        ensures
            out@ == closing(self@, success, now_ms as nat),
    {
        let mut out = String::new();
        push_erase(&mut out, self.rendered.as_str().unicode_len());
        let last = if success {
            let elapsed = if now_ms >= self.start_ms {
                now_ms - self.start_ms
            } else {
                0
            };
            summary_line(self.current_size, elapsed, self.bar_width, self.stats)
        } else {
            failure_line()
        };
        out.append(last.as_str());
        assert(out@ =~= closing(self@, success, now_ms as nat));
        out
    }
}

/// The state after the units `units`, the unit at `k` received at `nows[k]`.
pub open spec fn run(s: MonitorView, units: Seq<Seq<char>>, nows: Seq<nat>) -> MonitorView
    decreases units.len(),
{
    if units.len() == 0 || nows.len() == 0 {
        s
    } else {
        next(run(s, units.drop_last(), nows.drop_last()), units.last(), nows.last())
    }
}

/// The unit announces a nonzero stream duration.
pub open spec fn announces_duration(unit: Seq<char>) -> bool {
    match first_clock(unit, duration_tag(), 0) {
        Some(d) => d > 0,
        None => false,
    }
}

proof fn lemma_duration_seen(s: MonitorView, units: Seq<Seq<char>>, nows: Seq<nat>)
    requires
        units.len() == nows.len(),
    ensures
        run(s, units, nows).duration > 0 ==> s.duration > 0 || exists|j: int|
            0 <= j < units.len() && announces_duration(#[trigger] units[j]),
    decreases units.len(),
{
    if units.len() > 0 {
        let before = units.drop_last();
        lemma_duration_seen(s, before, nows.drop_last());
        let prev = run(s, before, nows.drop_last());
        if run(s, units, nows).duration > 0 && s.duration == 0 {
            if prev.duration > 0 {
                let j = choose|j: int| 0 <= j < before.len() && announces_duration(#[trigger] before[j]);
                assert(before[j] == units[j]);
            } else {
                assert(announces_duration(units[units.len() - 1]));
            }
        }
    }
}

proof fn lemma_duration_kept(s: MonitorView, units: Seq<Seq<char>>, nows: Seq<nat>)
    requires
        units.len() == nows.len(),
        forall|j: int| 0 <= j < units.len() ==> !contains(#[trigger] units[j], prompt_marker()),
        s.duration > 0 || exists|j: int| 0 <= j < units.len() && announces_duration(#[trigger] units[j]),
    ensures
        run(s, units, nows).duration > 0,
    decreases units.len(),
{
    if units.len() > 0 {
        let before = units.drop_last();
        let last = units.len() - 1;
        assert(!contains(units[last], prompt_marker()));
        if s.duration > 0 || exists|j: int| 0 <= j < before.len() && announces_duration(#[trigger] before[j]) {
            assert forall|j: int| 0 <= j < before.len() implies !contains(#[trigger] before[j], prompt_marker()) by {
                assert(before[j] == units[j]);
            }
            lemma_duration_kept(s, before, nows.drop_last());
        } else {
            let j = choose|j: int| 0 <= j < units.len() && announces_duration(#[trigger] units[j]);
            if j < last {
                assert(before[j] == units[j]);
            }
            assert(announces_duration(units[last]));
        }
    }
}

/// In a stream of units none of which is an overwrite question, a unit writes
/// something exactly when it reports a nonzero elapsed time and a nonzero
/// duration has been announced, by the starting state or by a unit up to and
/// including it. What it writes is then a progress line; otherwise no percent
/// is written and the shown line stays as it was.
pub proof fn lemma_progress_needs_duration_and_time(
    s: MonitorView,
    units: Seq<Seq<char>>,
    nows: Seq<nat>,
    k: int,
)
    requires
        units.len() == nows.len(),
        0 <= k < units.len(),
        forall|j: int| 0 <= j <= k ==> !contains(#[trigger] units[j], prompt_marker()),
    ensures
        output(run(s, units.take(k), nows.take(k)), units[k], nows[k]).len() > 0 <==> unit_time(
            units[k],
        ) > 0 && (s.duration > 0 || exists|j: int|
            0 <= j <= k && announces_duration(#[trigger] units[j])),
        output(run(s, units.take(k), nows.take(k)), units[k], nows[k]).len() == 0 ==> next(
            run(s, units.take(k), nows.take(k)),
            units[k],
            nows[k],
        ).rendered == run(s, units.take(k), nows.take(k)).rendered,
{
    let before = units.take(k);
    lemma_duration_seen(s, before, nows.take(k));
    let prev = run(s, before, nows.take(k));
    assert(!contains(units[k], prompt_marker()));
    if output(prev, units[k], nows[k]).len() > 0 && s.duration == 0 {
        if prev.duration > 0 {
            let j = choose|j: int| 0 <= j < before.len() && announces_duration(#[trigger] before[j]);
            assert(before[j] == units[j]);
        } else {
            assert(announces_duration(units[k]));
        }
    }
    if unit_time(units[k]) > 0 && (s.duration > 0 || exists|j: int|
        0 <= j <= k && announces_duration(#[trigger] units[j])) {
        if s.duration > 0 || exists|j: int| 0 <= j < k && announces_duration(#[trigger] units[j]) {
            assert forall|j: int| 0 <= j < before.len() implies !contains(#[trigger] before[j], prompt_marker()) by {
                assert(before[j] == units[j]);
            }
            if s.duration == 0 {
                let j = choose|j: int| 0 <= j < k && announces_duration(#[trigger] units[j]);
                assert(before[j] == units[j]);
            }
            lemma_duration_kept(s, before, nows.take(k));
        } else {
            assert(announces_duration(units[k]));
        }
        assert(output(prev, units[k], nows[k]).len() > 0);
    }
}

/// An overwrite question erases the shown line and relays its last line with
/// the closing bracket, leaving nothing shown. The next unit that is not one
/// moves the start of the run and the time of the last sample to its own
/// arrival, so the wait for the answer counts neither in the elapsed time of
/// the run nor in the throughput of the next progress line: when that unit
/// reports no time, a progress line for a `later` unit measures its
/// throughput from `resumed_at`, and nothing is left to erase.
pub proof fn lemma_prompt_resets_anchors(
    s: MonitorView,
    question: Seq<char>,
    asked: nat,
    unit: Seq<char>,
    resumed_at: nat,
    later: Seq<char>,
    later_at: nat,
)
    requires
        contains(question, prompt_marker()),
        !contains(unit, prompt_marker()),
    ensures
        output(s, question, asked) == erase_text(s.rendered.len()) + last_line(question) + seq![
            ']',
            ' ',
        ],
        next(s, question, asked).rendered.len() == 0,
        next(next(s, question, asked), unit, resumed_at).start_ms == resumed_at,
        next(next(s, question, asked), unit, resumed_at).last_sample_ms == resumed_at,
        ({
            let back = next(next(s, question, asked), unit, resumed_at);
            unit_time(unit) == 0 && !contains(later, prompt_marker()) && output(
                back,
                later,
                later_at,
            ).len() > 0 ==> output(back, later, later_at) == unit_line(
                MonitorView { last_sample_ms: resumed_at, ..with_duration(back, later) },
                later,
                later_at,
            )
        }),
{
    let back = next(next(s, question, asked), unit, resumed_at);
    if unit_time(unit) == 0 && !contains(later, prompt_marker()) {
        assert(back.rendered.len() == 0);
        assert(erase_text(0) =~= Seq::<char>::empty()) by {
            reveal_with_fuel(crate::text::repeat, 1);
        }
        assert(resumed(back, later_at) == back);
        let line = unit_line(with_duration(back, later), later, later_at);
        assert(Seq::<char>::empty() + line =~= line);
        assert(MonitorView { last_sample_ms: resumed_at, ..with_duration(back, later) } == with_duration(
            back,
            later,
        ));
    }
}

} // verus!
