use qlipq::numbers::parse_decimal;
use qlipq::probe::parse_frame_rate;
use qlipq::progress::parse_progress;
use qlipq::timeline::parse_timestamp;

fn chars(s: &str) -> Vec<char> {
    s.chars().collect()
}

#[test]
fn decimal_reads_plain_and_exponent_forms() {
    assert_eq!(parse_decimal(&chars("63.5"), 6), Some(63_500_000));
    assert_eq!(parse_decimal(&chars("1.5e1"), 6), Some(15_000_000));
    assert_eq!(parse_decimal(&chars("25E-1"), 6), Some(2_500_000));
    assert_eq!(parse_decimal(&chars("+2e+3"), 0), Some(2000));
    assert_eq!(parse_decimal(&chars("-1.25e2"), 0), Some(-125));
    assert_eq!(parse_decimal(&chars(".5e1"), 0), Some(5));
    assert_eq!(parse_decimal(&chars("5.e0"), 0), Some(5));
    assert_eq!(parse_decimal(&chars("1e-7"), 6), Some(0));
    assert_eq!(parse_decimal(&chars("0e999999999999999999999999999999999"), 6), Some(0));
    assert_eq!(parse_decimal(&chars("1e-999999999999999999999999999999999"), 6), Some(0));
    assert_eq!(parse_decimal(&chars("1e999999999999999999999999999999999"), 6), None);
    assert_eq!(parse_decimal(&chars("1e13"), 6), None);
}

#[test]
fn decimal_refuses_what_is_no_finite_number() {
    for t in ["", "e5", "1e", "1e+", "1e1.5", "inf", "infinity", "NaN", "1.2.3", "0x10", "."] {
        assert_eq!(parse_decimal(&chars(t), 6), None, "{t}");
    }
}

#[test]
fn frame_rate_fields_accept_exponents() {
    assert_eq!(parse_frame_rate(Some("3e4/1001")), 29_970);
    assert_eq!(parse_frame_rate(Some("6e1")), 60_000);
}

#[test]
fn progress_accepts_exponent_microseconds() {
    assert_eq!(parse_progress("out_time_us=1.5e6").out_time_us, Some(1_500_000));
    assert_eq!(parse_progress("out_time_us=-0e3").out_time_us, Some(0));
    assert_eq!(parse_progress("out_time_us=-1e-3").out_time_us, None);
    assert_eq!(parse_progress("out_time_us=inf").out_time_us, None);
}

#[test]
fn timestamp_parts_accept_exponents_but_not_negatives() {
    assert_eq!(parse_timestamp("1e2"), Some(100_000_000));
    assert_eq!(parse_timestamp("1:3e1"), Some(90_000_000));
    assert_eq!(parse_timestamp("-1e-9"), None);
    assert_eq!(parse_timestamp("-0"), Some(0));
}

#[test]
fn timestamp_beyond_any_clip_saturates() {
    assert_eq!(parse_timestamp("99999999999999"), Some(i64::MAX));
    assert_eq!(parse_timestamp("inf"), Some(i64::MAX));
    assert_eq!(parse_timestamp("1:Infinity"), Some(i64::MAX));
    assert_eq!(parse_timestamp("1e300:5"), Some(i64::MAX));
    assert_eq!(parse_timestamp("inf:x"), None);
    assert_eq!(parse_timestamp("-inf"), None);
    assert_eq!(parse_timestamp("nan"), None);
}
