use rustquty_core::json::{parse_json, Json};
use rustquty_core::number::parse_number_decimal;

fn micros(t: &str) -> Option<i128> {
    parse_number_decimal(t).map(|d| d.micros)
}

#[test]
fn whole_and_fractional_numbers_read_to_millionths() {
    assert_eq!(micros("12"), Some(12_000_000));
    assert_eq!(micros("85.5"), Some(85_500_000));
    assert_eq!(micros("-3.25"), Some(-3_250_000));
    assert_eq!(micros("0"), Some(0));
}

#[test]
fn exponents_shift_the_decimal_point() {
    assert_eq!(micros("1e2"), Some(100_000_000));
    assert_eq!(micros("1E+2"), Some(100_000_000));
    assert_eq!(micros("6.5e-3"), Some(6_500));
}

#[test]
fn digits_past_the_sixth_place_round_half_away_from_zero() {
    assert_eq!(micros("5e-7"), Some(1));
    assert_eq!(micros("-0.0000005"), Some(-1));
    assert_eq!(micros("1e-7"), Some(0));
    assert_eq!(micros("0.0000014"), Some(1));
}

#[test]
fn numbers_beyond_the_range_are_held_at_its_ends() {
    assert_eq!(micros("1e400"), Some(i128::MAX));
    assert_eq!(micros("-1e400"), Some(i128::MIN));
    assert_eq!(micros("0e99999999999999999999999999999999999999999"), Some(0));
    assert_eq!(micros("7e-99999999999999999999999999999999999999999"), Some(0));
}

#[test]
fn texts_that_are_not_numbers_read_as_none() {
    for t in ["", "-", "abc", "1.", ".5", "1e", "1e+", "1x", "+1", "1.2.3"] {
        assert_eq!(micros(t), None, "{t}");
    }
}

#[test]
fn json_text_is_read_into_values() {
    match parse_json("{\"a\": 1, \"b\": [-2, 2.5, \"x\", null, true]}") {
        Some(Json::Object(entries)) => {
            assert_eq!(entries.len(), 2);
            assert_eq!(entries[0].0, "a");
            assert!(matches!(entries[0].1, Json::UInt(1)));
            match &entries[1].1 {
                Json::Array(items) => {
                    assert_eq!(items.len(), 5);
                    assert!(matches!(items[0], Json::NegInt(-2)));
                    assert_eq!(items[1].as_decimal().map(|d| d.micros), Some(2_500_000));
                    assert!(matches!(&items[2], Json::Str(s) if s == "x"));
                    assert!(matches!(items[3], Json::Null));
                    assert!(matches!(items[4], Json::Bool(true)));
                }
                other => panic!("expected an array, got {other:?}"),
            }
        }
        other => panic!("expected an object, got {other:?}"),
    }
}

#[test]
fn text_that_is_not_json_reads_as_none() {
    assert!(parse_json("not json").is_none());
    assert!(parse_json("{\"a\": }").is_none());
}
