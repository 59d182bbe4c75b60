use ffmpeg_progress::fields::MalformedField;
use ffmpeg_progress::monitor::{Mode, Monitor};

fn erase(n: usize) -> String {
    "\u{8} \u{8}".repeat(n)
}

const FIRST: &str = "Input #0, mov, from 'in.mp4':\n  Duration: 00:01:40.00, start: 0.000000, \
    bitrate: 1000 kb/s\nframe=  240 fps=0.0 q=28.0 size=     100kB time=00:00:10.00 \
    bitrate=  81.9kbits/s speed=2.00x";
const SECOND: &str = "\nframe= 1200 fps=60 q=28.0 size=     500kB time=00:00:50.00 \
    bitrate=  81.9kbits/s speed=2.50x";

#[test]
fn two_unit_stream_end_to_end() {
    let mut m = Monitor::new(true, 20, 0);
    let first = m.step(FIRST, 1000).unwrap();
    let line1 = "[##..................] 10.0%/100.0KB of ~1000.0KB at 100.0KB/s ETA 45s";
    assert_eq!(first, erase(25) + line1);
    assert_eq!(m.duration, 100);
    let second = m.step(SECOND, 3000).unwrap();
    // percent = 50 * 100 / 100
    let line2 = "[##########..........] 50.0%/500.0KB of ~1000.0KB at 200.0KB/s ETA 20s";
    assert_eq!(second, erase(line1.len()) + line2);
    assert_eq!(m.rendered, line2);
    // average throughput = 500 kB / 5 s
    assert_eq!(
        m.finish(true, 5000),
        erase(line2.len()) + "[####################] 100% of 500.0KB in 5s at 100.0KB/s\n"
    );
    assert_eq!(m.finish(false, 5000), erase(line2.len()) + "Process failed!\n");
}

#[test]
fn duration_is_sticky() {
    let mut m = Monitor::new(false, 0, 0);
    assert_eq!(m.step("Duration: 00:01:30.00", 10).unwrap(), "");
    assert_eq!(m.duration, 90);
    assert_eq!(m.step("nothing here", 20).unwrap(), "");
    assert_eq!(m.duration, 90);
    assert_eq!(m.step("Duration: 00:00:05.00", 30).unwrap(), "");
    assert_eq!(m.duration, 90);
}

#[test]
fn no_percent_before_duration_and_time() {
    let mut m = Monitor::new(false, 4, 0);
    // a time without a known duration: a sample, but no line
    assert_eq!(m.step("size= 10kB time=00:00:05.00 speed=1.00x", 100).unwrap(), "");
    assert_eq!(m.current_size, 10);
    assert_eq!(m.rendered, "[....] 0%");
    // a duration without a time: no line
    assert_eq!(m.step("Duration: 00:00:20.00", 200).unwrap(), "");
    // a zero time: no line
    assert_eq!(m.step("time=00:00:00.00", 300).unwrap(), "");
    assert_eq!(m.rendered, "[....] 0%");
    // both known
    assert_eq!(m.step("time=00:00:10.00", 400).unwrap(), erase(9) + "[##..] 50.0%");
}

#[test]
fn prompt_relays_question_and_resets_anchors() {
    let mut m = Monitor::new(true, 10, 0);
    assert_eq!(m.step("Duration: 00:01:40.00", 0).unwrap(), "");
    let shown = "[#.........] 10.0%/100.0KB of ~1000.0KB at 100.0KB/s ETA 1m 30s";
    assert_eq!(
        m.step("size= 100kB time=00:00:10.00 speed=1.00x", 1000).unwrap(),
        erase(15) + shown
    );
    let width = shown.len();
    let asked = m.step("\nFile 'out.mp4' already exists. Overwrite? [y/N", 2000).unwrap();
    assert_eq!(asked, erase(width) + "File 'out.mp4' already exists. Overwrite? [y/N] ");
    assert_eq!(m.mode, Mode::AwaitingAnswer);
    assert_eq!(m.rendered, "");
    // answered a minute later
    assert_eq!(m.step(" y\nStream mapping:\n", 60000).unwrap(), "");
    assert_eq!(m.mode, Mode::Parsing);
    assert_eq!(m.start_ms, 60000);
    assert_eq!(m.last_sample_ms, 60000);
    // throughput over the 2 s since the answer: 200 kB / 2 s
    let line = "[##........] 20.0%/300.0KB of ~1.5MB at 100.0KB/s ETA 1m 20s";
    assert_eq!(m.step("size= 300kB time=00:00:20.00 speed=1.00x", 62000).unwrap(), line);
    // elapsed from the answer: 4 s
    assert_eq!(
        m.finish(true, 64000),
        erase(line.len()) + "[##########] 100% of 300.0KB in 4s at 75.0KB/s\n"
    );
}

#[test]
fn prompt_without_newline_relays_whole_unit() {
    let mut m = Monitor::new(false, 0, 0);
    assert_eq!(
        m.step("already exists. Overwrite? [y/N", 5).unwrap(),
        erase(2) + "already exists. Overwrite? [y/N] "
    );
}

#[test]
fn placeholder_is_erased_by_first_line() {
    let mut m = Monitor::new(false, 0, 0);
    assert_eq!(m.rendered, "0%");
    assert_eq!(m.step("Duration: 00:00:04.00 time=00:00:01.00", 5).unwrap(), erase(2) + " 25.0%");
    assert_eq!(m.finish(true, 1000), erase(6) + "100%\n");
}

#[test]
fn unknown_speed_leaves_eta_out() {
    let mut m = Monitor::new(true, 0, 0);
    let out = m.step("Duration: 00:00:10.00 size= 5kB time=00:00:05.00 speed=N/A", 1000).unwrap();
    assert_eq!(out, erase(2) + " 50.0%/5.0KB of ~10.0KB at 5.0KB/s");
}

#[test]
fn time_past_duration_fills_bar() {
    let mut m = Monitor::new(false, 4, 0);
    let out = m.step("Duration: 00:00:10.00 time=00:00:20.00", 1000).unwrap();
    assert_eq!(out, erase(9) + "[####] 200.0%");
}

#[test]
fn malformed_field_is_an_error_and_changes_nothing() {
    let mut m = Monitor::new(true, 4, 0);
    assert_eq!(m.step("Duration: 0\u{661}:00:00.00", 10), Err(MalformedField));
    assert_eq!(m.duration, 0);
    assert_eq!(m.step("Duration: 00:00:10.00", 20).unwrap(), "");
    // once the duration is known, a malformed one is no longer read
    assert_eq!(m.step("Duration: 0\u{661}:00:00.00", 30).unwrap(), "");
    // size and speed are read only with a nonzero time
    assert_eq!(m.step("size=\u{ff11}", 40).unwrap(), "");
    assert_eq!(m.step("size=\u{ff11} time=00:00:01.00", 50), Err(MalformedField));
    assert_eq!(m.last_sample_ms, 0);
    assert_eq!(m.rendered, "[....] 0%");
}
