use statusbar::error::Error;
use statusbar::status::utils::{read_line, read_n_lines, rounded_percent, FileRead};

#[test]
fn rounds_to_nearest_percent() {
    assert_eq!(rounded_percent(425, 1000).unwrap(), "43");
    assert_eq!(rounded_percent(424, 1000).unwrap(), "42");
}

#[test]
fn caps_at_hundred() {
    assert_eq!(rounded_percent(150, 100).unwrap(), "100");
}

#[test]
fn zero_numerator_is_zero() {
    assert_eq!(rounded_percent(0, 100).unwrap(), "0");
}

#[test]
fn zero_denominator_errors() {
    assert!(rounded_percent(1, 0).is_err());
}

#[test]
fn zero_denominator_is_a_calculation_error() {
    assert_eq!(
        rounded_percent(1, 0),
        Err(Error::Calculation { message: "percent calculation with zero denominator".to_string() })
    );
}

#[test]
fn percent_rounds_half_up() {
    assert_eq!(rounded_percent(5, 1000).unwrap(), "1");
    assert_eq!(rounded_percent(4, 1000).unwrap(), "0");
    assert_eq!(rounded_percent(1, 3).unwrap(), "33");
    assert_eq!(rounded_percent(2, 3).unwrap(), "67");
    assert_eq!(rounded_percent(100, 100).unwrap(), "100");
}

#[test]
fn percent_scales_with_saturation() {
    assert_eq!(rounded_percent(u64::MAX, 1).unwrap(), "100");
    assert_eq!(rounded_percent(u64::MAX, u64::MAX).unwrap(), "0");
    assert_eq!(rounded_percent(u64::MAX / 2, u64::MAX).unwrap(), "0");
    assert_eq!(rounded_percent(u64::MAX / 1000, u64::MAX / 1000).unwrap(), "100");
}

#[test]
fn read_line_takes_the_first_line_trimmed() {
    let read = FileRead::Text("  87 \nsecond\n".to_string());
    assert_eq!(read_line("/sys/x", &read).unwrap(), "87");
    let read = FileRead::Text("no newline".to_string());
    assert_eq!(read_line("/sys/x", &read).unwrap(), "no newline");
    let read = FileRead::Text(String::new());
    assert_eq!(read_line("/sys/x", &read).unwrap(), "");
}

#[test]
fn read_line_reports_what_failed() {
    let read = FileRead::OpenFailed("No such file".to_string());
    assert_eq!(
        read_line("/sys/x", &read),
        Err(Error::Io { path: "/sys/x".to_string(), message: "open: No such file".to_string() })
    );
    let read = FileRead::ReadFailed("stream did not contain valid UTF-8".to_string());
    assert_eq!(
        read_line("/sys/x", &read),
        Err(Error::Io {
            path: "/sys/x".to_string(),
            message: "read line: stream did not contain valid UTF-8".to_string()
        })
    );
}

#[test]
fn read_n_lines_keeps_the_line_feeds() {
    let read = FileRead::Text("a\nb\nc\n".to_string());
    assert_eq!(read_n_lines("f", 2, &read).unwrap(), "a\nb\n");
    assert_eq!(read_n_lines("f", 0, &read).unwrap(), "");
    assert_eq!(read_n_lines("f", 5, &read).unwrap(), "a\nb\nc\n");
    let read = FileRead::Text("a\nb".to_string());
    assert_eq!(read_n_lines("f", 2, &read).unwrap(), "a\nb");
    let read = FileRead::Text("\n\nx".to_string());
    assert_eq!(read_n_lines("f", 2, &read).unwrap(), "\n\n");
}

#[test]
fn read_n_lines_reports_what_failed() {
    let read = FileRead::OpenFailed("denied".to_string());
    assert_eq!(
        read_n_lines("f", 2, &read),
        Err(Error::Io { path: "f".to_string(), message: "open: denied".to_string() })
    );
    let read = FileRead::ReadFailed("broken".to_string());
    assert_eq!(
        read_n_lines("f", 2, &read),
        Err(Error::Io { path: "f".to_string(), message: "read file: broken".to_string() })
    );
}
