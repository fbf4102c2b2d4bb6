use qlipq::datetimes::format_duration;
use qlipq::ids::encode_id;
use qlipq::numbers::parse_scaled;

fn chars(s: &str) -> Vec<char> {
    s.chars().collect()
}

#[test]
fn format_duration_renders_minutes_and_hours() {
    assert_eq!(format_duration(65), "1:05");
    assert_eq!(format_duration(3725), "1:02:05");
    assert_eq!(format_duration(-5), "0:00");
}

#[test]
fn ids_are_twelve_base36_chars() {
    let a = encode_id(1_700_000_000_000_000_000, 0);
    let b = encode_id(1_700_000_000_000_000_000, 1);
    assert_eq!(a.len(), 12);
    assert!(a.chars().all(|c| c.is_ascii_digit() || c.is_ascii_lowercase()));
    assert_ne!(a, b);
    assert_eq!(encode_id(0, 0), "011111111111");
    assert_eq!(a, encode_id(1_700_000_000_000_000_000, 0));
}

#[test]
fn decimal_text_in_fixed_point() {
    assert_eq!(parse_scaled(&chars("63.500000"), 6), Some(63_500_000));
    assert_eq!(parse_scaled(&chars("-1.25"), 2), Some(-125));
    assert_eq!(parse_scaled(&chars("+.5"), 1), Some(5));
    assert_eq!(parse_scaled(&chars("7."), 3), Some(7000));
    assert_eq!(parse_scaled(&chars("2.999"), 0), Some(2));
    assert_eq!(parse_scaled(&chars("."), 2), None);
    assert_eq!(parse_scaled(&chars("1e3"), 0), None);
    assert_eq!(parse_scaled(&chars(""), 0), None);
}
