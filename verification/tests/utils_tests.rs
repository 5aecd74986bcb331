use std::time::Duration;

use aurorawm::utils::{
    color_slicing_panics, format_duration, format_secs_millis, parse_color_rgba, parse_hex_pair, Rgba,
};

fn rgba(r: u8, g: u8, b: u8, a: u8) -> Option<Rgba> {
    Some(Rgba { r, g, b, a })
}

// A channel as a fraction, to two decimal places.
fn fraction(v: u8) -> f32 {
    (v as f32 / 255.0 * 100.0).round() / 100.0
}

fn as_floats(c: Option<Rgba>) -> Option<[f32; 4]> {
    c.map(|c| [fraction(c.r), fraction(c.g), fraction(c.b), fraction(c.a)])
}

#[test]
fn parse_color_channels() {
    assert_eq!(parse_color_rgba("#ff0000"), rgba(255, 0, 0, 255));
    assert_eq!(parse_color_rgba("#00ff00"), rgba(0, 255, 0, 255));
    assert_eq!(parse_color_rgba("#0000ff"), rgba(0, 0, 255, 255));
    assert_eq!(parse_color_rgba("#ff000080"), rgba(255, 0, 0, 128));
    assert_eq!(as_floats(parse_color_rgba("#ff0000")), Some([1.0, 0.0, 0.0, 1.0]));
    assert_eq!(as_floats(parse_color_rgba("#00ff00")), Some([0.0, 1.0, 0.0, 1.0]));
    assert_eq!(as_floats(parse_color_rgba("#0000ff")), Some([0.0, 0.0, 1.0, 1.0]));
    assert_eq!(as_floats(parse_color_rgba("#ff000080")), Some([1.0, 0.0, 0.0, 0.5]));
}

#[test]
fn slicing_inside_a_character() {
    assert!(color_slicing_panics("#1\u{e9}234"));
    assert!(color_slicing_panics("1\u{e9}23456"));
    assert!(!color_slicing_panics("#\u{e9}1234"));
    assert!(!color_slicing_panics("#12\u{e9}34"));
    assert!(!color_slicing_panics("#ff0000"));
    assert!(!color_slicing_panics("#fff\u{e9}"));
    assert!(!color_slicing_panics(""));
    assert!(!color_slicing_panics("#gg1\u{e9}234"));
}

#[test]
fn parse_color_forms() {
    assert_eq!(parse_color_rgba("89B4fa"), rgba(0x89, 0xb4, 0xfa, 255));
    assert_eq!(parse_color_rgba("##45475a"), rgba(0x45, 0x47, 0x5a, 255));
    assert_eq!(parse_color_rgba("#+f+f+f"), rgba(15, 15, 15, 255));
    assert_eq!(parse_color_rgba("#fff"), None);
    assert_eq!(parse_color_rgba(""), None);
    assert_eq!(parse_color_rgba("#gg0000"), None);
    assert_eq!(parse_color_rgba("#-f0000"), None);
    assert_eq!(parse_color_rgba("#ff00000"), None);
    assert_eq!(parse_color_rgba("#ff0000ff00"), None);
    assert_eq!(parse_color_rgba("#é1234"), None);
}

#[test]
fn hex_pairs() {
    assert_eq!(parse_hex_pair(b'f', b'F'), Some(255));
    assert_eq!(parse_hex_pair(b'+', b'a'), Some(10));
    assert_eq!(parse_hex_pair(b'+', b'+'), None);
    assert_eq!(parse_hex_pair(b'0', b'x'), None);
}

#[test]
fn durations() {
    assert_eq!(format_secs_millis(0, 5), "5ms");
    assert_eq!(format_secs_millis(0, 0), "0ms");
    assert_eq!(format_secs_millis(1, 5), "1.005s");
    assert_eq!(format_secs_millis(3, 0), "3.000s");
    assert_eq!(format_secs_millis(12, 345), "12.345s");
    assert_eq!(format_secs_millis(2, 1234), "2.1234s");
    assert_eq!(format_duration(Duration::from_millis(1500)), "1.500s");
    assert_eq!(format_duration(Duration::from_millis(250)), "250ms");
    assert_eq!(format_duration(Duration::from_micros(999)), "0ms");
    assert_eq!(format_duration(Duration::from_secs(61)), "61.000s");
    assert_eq!(format_duration(Duration::from_micros(1_999_999)), "1.999s");
    assert_eq!(format_duration(Duration::from_nanos(999_999_999)), "999ms");
    assert_eq!(format_duration(Duration::ZERO), "0ms");
}

#[test]
fn duration_unit_follows_whole_seconds() {
    for ms in [0u64, 1, 999, 1000, 1001, 59_999, 3_600_000] {
        let text = format_duration(Duration::from_millis(ms));
        assert!(text.ends_with('s'));
        assert_eq!(text.ends_with("ms"), ms < 1000, "{}", text);
    }
}
