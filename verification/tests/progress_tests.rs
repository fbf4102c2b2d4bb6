use qlipq::progress::{parse_progress, parse_timecode, progress_fraction};

#[test]
fn parse_timecode_to_seconds() {
    assert_eq!(parse_timecode("00:00:01.500000"), Some(1_500_000));
    assert_eq!(parse_timecode("01:02:03"), Some(3_723_000_000));
    assert_eq!(parse_timecode("nope"), None);
}

#[test]
fn parse_timecode_rejects_malformed_fields() {
    assert_eq!(parse_timecode("1:2:03"), None);
    assert_eq!(parse_timecode("00:00:1.5"), None);
    assert_eq!(parse_timecode("00:00:01."), None);
    assert_eq!(parse_timecode("  00:01:00  "), Some(60_000_000));
}

#[test]
fn parse_progress_reads_out_time_us_and_continue() {
    let chunk = "frame=120\nout_time_us=2500000\nout_time=00:00:02.500000\nprogress=continue";
    let r = parse_progress(chunk);
    assert_eq!(r.out_time_us, Some(2_500_000));
    assert!(!r.done);
}

#[test]
fn parse_progress_detects_end() {
    let r = parse_progress("out_time_us=10000000\nprogress=end\n");
    assert_eq!(r.out_time_us, Some(10_000_000));
    assert!(r.done);
}

#[test]
fn parse_progress_falls_back_to_timecode() {
    let r = parse_progress("out_time=00:00:04.000000\nprogress=continue");
    assert_eq!(r.out_time_us, Some(4_000_000));
}

#[test]
fn parse_progress_ignores_negative_and_unknown_lines() {
    let r = parse_progress("out_time_ms=-23220\nbitrate=N/A\nnoequals\n");
    assert_eq!(r.out_time_us, None);
    assert!(!r.done);
    let r = parse_progress("out_time_ms=1500000\n");
    assert_eq!(r.out_time_us, Some(1_500_000));
}

#[test]
fn progress_fraction_clamps() {
    assert_eq!(progress_fraction(Some(5_000_000), 10_000_000), 500_000);
    assert_eq!(progress_fraction(Some(20_000_000), 10_000_000), 1_000_000);
    assert_eq!(progress_fraction(None, 10_000_000), 0);
    assert_eq!(progress_fraction(Some(5_000_000), 0), 0);
}
