use weather_data::decimal::{parse_decimal, round_to_u64};
use weather_data::text::{parse_u64, trim_str};
use weather_data::Decimal;

fn chars(s: &str) -> Vec<char> {
    s.chars().collect()
}

#[test]
fn pressure_rounds_to_nearest() {
    let d = parse_decimal(&chars("1013.6")).unwrap();
    assert_eq!(round_to_u64(d), 1014);
    let d = parse_decimal(&chars("1013.4")).unwrap();
    assert_eq!(round_to_u64(d), 1013);
    let d = parse_decimal(&chars("1013.5")).unwrap();
    assert_eq!(round_to_u64(d), 1014);
}

#[test]
fn negative_readings_round_to_zero() {
    let d = parse_decimal(&chars("-3.7")).unwrap();
    assert_eq!(round_to_u64(d), 0);
}

#[test]
fn decimals_parse_exactly() {
    assert_eq!(parse_decimal(&chars("12.5")), Some(Decimal { mantissa: 125, scale: 1 }));
    assert_eq!(parse_decimal(&chars("-0.25")), Some(Decimal { mantissa: -25, scale: 2 }));
    assert_eq!(parse_decimal(&chars("+7")), Some(Decimal { mantissa: 7, scale: 0 }));
    assert_eq!(parse_decimal(&chars(".5")), Some(Decimal { mantissa: 5, scale: 1 }));
    assert_eq!(parse_decimal(&chars("5.")), Some(Decimal { mantissa: 5, scale: 0 }));
}

#[test]
fn malformed_decimals_are_refused() {
    assert_eq!(parse_decimal(&chars("")), None);
    assert_eq!(parse_decimal(&chars("-")), None);
    assert_eq!(parse_decimal(&chars(".")), None);
    assert_eq!(parse_decimal(&chars("1.2.3")), None);
    assert_eq!(parse_decimal(&chars("1-2")), None);
    assert_eq!(parse_decimal(&chars("12a")), None);
}

#[test]
fn unsigned_integers_parse_like_std() {
    assert_eq!(parse_u64(&chars("42")), Some(42));
    assert_eq!(parse_u64(&chars("+42")), Some(42));
    assert_eq!(parse_u64(&chars("18446744073709551615")), Some(u64::MAX));
    assert_eq!(parse_u64(&chars("18446744073709551616")), None);
    assert_eq!(parse_u64(&chars("-1")), None);
    assert_eq!(parse_u64(&chars("")), None);
    assert_eq!(parse_u64(&chars("+")), None);
    assert_eq!(parse_u64(&chars("4.0")), None);
}

#[test]
fn trimming_drops_unicode_white_space() {
    let t: String = trim_str(" \t12,3\u{a0}\n").into_iter().collect();
    assert_eq!(t, "12,3");
    let t: String = trim_str("   ").into_iter().collect();
    assert_eq!(t, "");
}
