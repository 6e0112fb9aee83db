use rustquty_core::util::{chrono_now, format_iso8601, is_leap, unix_to_datetime};

#[test]
fn test_chrono_now_returns_iso8601() {
    let ts = chrono_now().unwrap();
    assert!(ts.ends_with('Z'));
    assert_eq!(ts.len(), 20);
    assert_eq!(&ts[4..5], "-");
    assert_eq!(&ts[7..8], "-");
    assert_eq!(&ts[10..11], "T");
}

#[test]
fn test_chrono_now_year_is_reasonable() {
    let ts = chrono_now().unwrap();
    let year: u32 = ts[..4].parse().unwrap();
    assert!((2025..=2100).contains(&year));
}

#[test]
fn test_unix_to_datetime_epoch() {
    let (y, m, d, h, min, s) = unix_to_datetime(0);
    assert_eq!((y, m, d, h, min, s), (1970, 1, 1, 0, 0, 0));
}

#[test]
fn test_unix_to_datetime_known_value() {
    let (y, m, d, h, min, s) = unix_to_datetime(1704067200);
    assert_eq!((y, m, d, h, min, s), (2024, 1, 1, 0, 0, 0));
}

#[test]
fn test_unix_to_datetime_with_time() {
    let (y, m, d, h, min, s) = unix_to_datetime(1718451045);
    assert_eq!((y, m, d, h, min, s), (2024, 6, 15, 11, 30, 45));
}

#[test]
fn test_is_leap_known_years() {
    assert!(!is_leap(2023));
    assert!(is_leap(2024));
    assert!(!is_leap(1900));
    assert!(is_leap(2000));
    assert!(!is_leap(2100));
}

#[test]
fn leap_day_and_year_end_are_placed_right() {
    // 2024-02-29T00:00:00Z and 2023-12-31T23:59:59Z.
    assert_eq!(unix_to_datetime(1709164800), (2024, 2, 29, 0, 0, 0));
    assert_eq!(unix_to_datetime(1704067199), (2023, 12, 31, 23, 59, 59));
}

#[test]
fn iso8601_text_is_zero_padded() {
    assert_eq!(format_iso8601(0), "1970-01-01T00:00:00Z");
    assert_eq!(format_iso8601(1718451045), "2024-06-15T11:30:45Z");
}
