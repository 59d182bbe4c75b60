use ffmpeg_progress::fields::{
    chars_of, MalformedField, duration_field, is_prompt, last_line_start, size_field, speed_field, time_field,
};

#[test]
fn duration_text_parses_to_seconds() {
    assert_eq!(duration_field(&chars_of("Duration: 00:01:30.00")), Ok(Some(90)));
    assert_eq!(
        duration_field(&chars_of("  Duration: 01:02:03.45, start: 0.000000")),
        Ok(Some(3723))
    );
    assert_eq!(duration_field(&chars_of("Duration: 99:99:99.99")), Ok(Some(362439)));
}

#[test]
fn malformed_clocks_do_not_match() {
    assert_eq!(duration_field(&chars_of("Duration: N/A, bitrate: N/A")), Ok(None));
    assert_eq!(duration_field(&chars_of("Duration: 01:02:03.4")), Ok(None));
    assert_eq!(duration_field(&chars_of("Duration: 1:02:03.45")), Ok(None));
    assert_eq!(duration_field(&chars_of("duration: 00:00:10.00")), Ok(None));
    assert_eq!(time_field(&chars_of("time=N/A")), Ok(None));
    assert_eq!(time_field(&chars_of("")), Ok(None));
}

#[test]
fn leftmost_clock_wins() {
    let unit = chars_of("time=12:00:00 time=00:00:01.00 time=00:00:02.00");
    assert_eq!(time_field(&unit), Ok(Some(1)));
    assert_eq!(duration_field(&unit), Ok(None));
}

#[test]
fn speed_in_thousandths() {
    assert_eq!(speed_field(&chars_of("speed=1.5x")), Ok(Some(1500)));
    assert_eq!(speed_field(&chars_of("speed=0.998x")), Ok(Some(998)));
    assert_eq!(speed_field(&chars_of("speed=12.3456x")), Ok(Some(12345)));
    assert_eq!(speed_field(&chars_of("speed=N/A speed=0.75x")), Ok(Some(750)));
}

#[test]
fn speed_needs_digits_on_both_sides() {
    assert_eq!(speed_field(&chars_of("speed=3x")), Ok(None));
    assert_eq!(speed_field(&chars_of("speed=.5x")), Ok(None));
    assert_eq!(speed_field(&chars_of("speed=5.x")), Ok(None));
    assert_eq!(speed_field(&chars_of("speed=")), Ok(None));
}

#[test]
fn speed_saturates() {
    assert_eq!(speed_field(&chars_of("speed=99999999999999999999.0x")), Ok(Some(u64::MAX)));
}

#[test]
fn size_after_blanks() {
    assert_eq!(size_field(&chars_of("frame=  10 size=     256kB time=")), Ok(Some(256)));
    assert_eq!(size_field(&chars_of("size=\t12kB")), Ok(Some(12)));
    assert_eq!(size_field(&chars_of("size=0kB")), Ok(Some(0)));
    assert_eq!(size_field(&chars_of("size=N/A size= 9kB")), Ok(Some(9)));
    assert_eq!(size_field(&chars_of("size=   kB")), Ok(None));
    assert_eq!(size_field(&chars_of("Lsize=")), Ok(None));
}

#[test]
fn size_saturates() {
    assert_eq!(size_field(&chars_of("size=99999999999999999999999kB")), Ok(Some(u64::MAX)));
    assert_eq!(size_field(&chars_of("size=18446744073709551615kB")), Ok(Some(u64::MAX)));
    assert_eq!(size_field(&chars_of("size=18446744073709551614kB")), Ok(Some(u64::MAX - 1)));
}

#[test]
fn prompt_marker_detection() {
    assert!(is_prompt(&chars_of("\nFile 'a.mp4' already exists. Overwrite? [y/N")));
    assert!(!is_prompt(&chars_of("File 'a.mp4' already exists. Overwrite? (y/N")));
    assert!(!is_prompt(&chars_of("")));
}

#[test]
fn last_line_positions() {
    assert_eq!(last_line_start(&chars_of("ab\ncd\nef")), 6);
    assert_eq!(last_line_start(&chars_of("abc")), 0);
    assert_eq!(last_line_start(&chars_of("abc\n")), 4);
    assert_eq!(last_line_start(&chars_of("")), 0);
}

#[test]
fn chars_of_keeps_non_ascii() {
    assert_eq!(chars_of("é=1"), vec!['é', '=', '1']);
}

#[test]
fn non_ascii_digits_make_a_field_malformed() {
    // Arabic-Indic digits match the digit class but cannot be read
    assert_eq!(
        duration_field(&chars_of("Duration: \u{660}\u{661}:00:00.00")),
        Err(MalformedField)
    );
    assert_eq!(time_field(&chars_of("time=00:00:0\u{967}.00")), Err(MalformedField));
    assert_eq!(speed_field(&chars_of("speed=1.\u{ff15}x")), Err(MalformedField));
    assert_eq!(size_field(&chars_of("size= \u{ff11}kB")), Err(MalformedField));
    // the hundredths are not read
    assert_eq!(time_field(&chars_of("time=00:00:05.\u{660}\u{660}")), Ok(Some(5)));
    // a malformed field further right is not read
    assert_eq!(size_field(&chars_of("size=4 size=\u{ff11}")), Ok(Some(4)));
}
