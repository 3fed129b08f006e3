use plox::decimal::{normalize_value, parse_decimal, Decimal};

fn ms(value: &str, unit: &str) -> f64 {
    normalize_value(value, unit).unwrap().to_text().parse().unwrap()
}

#[test]
fn value_without_unit_is_unchanged() {
    assert_eq!(ms("12.5", ""), 12.5);
    assert_eq!(normalize_value("12.5", ""), Some(Decimal { mantissa: 125, exponent: -1 }));
}

#[test]
fn units_convert_to_milliseconds() {
    assert_eq!(ms("12.5", "ms"), 12.5);
    assert_eq!(ms("12.5", "s"), 12500.0);
    assert_eq!(ms("12.5", "us"), 0.0125);
    assert_eq!(ms("12.5", "µs"), 0.0125);
    assert_eq!(ms("12.5", "microseconds"), 0.0125);
    assert_eq!(ms("1.5", "ns"), 1.5 / 1_000_000.0);
    assert_eq!(ms("7", "kg"), 7.0);
}

#[test]
fn not_a_number_gives_none() {
    assert_eq!(normalize_value("1.2.3", "ms"), None);
    assert_eq!(normalize_value(".", ""), None);
    assert_eq!(normalize_value("", ""), None);
    assert_eq!(normalize_value("abc", ""), None);
}

#[test]
fn parse_forms() {
    assert_eq!(parse_decimal("-0.25"), Some(Decimal { mantissa: -25, exponent: -2 }));
    assert_eq!(parse_decimal("3."), Some(Decimal { mantissa: 3, exponent: 0 }));
    assert_eq!(parse_decimal(".5"), Some(Decimal { mantissa: 5, exponent: -1 }));
    assert_eq!(parse_decimal("1234567890123456789012345678901234567"), None);
}

#[test]
fn text_forms() {
    assert_eq!(Decimal { mantissa: 1270, exponent: -1 }.to_text(), "127");
    assert_eq!(Decimal { mantissa: 15, exponent: -7 }.to_text(), "0.0000015");
    assert_eq!(Decimal { mantissa: 45, exponent: 2 }.to_text(), "4500");
    assert_eq!(Decimal { mantissa: -317, exponent: -2 }.to_text(), "-3.17");
    assert_eq!(Decimal { mantissa: 0, exponent: -3 }.to_text(), "0");
}

#[test]
fn plus_sign_and_exponents() {
    assert_eq!(parse_decimal("+1.5"), Some(Decimal { mantissa: 15, exponent: -1 }));
    assert_eq!(parse_decimal("1e3"), Some(Decimal { mantissa: 1, exponent: 3 }));
    assert_eq!(parse_decimal("2.5E-2"), Some(Decimal { mantissa: 25, exponent: -3 }));
    assert_eq!(parse_decimal("-4e+1"), Some(Decimal { mantissa: -4, exponent: 1 }));
    assert_eq!(parse_decimal("+-1"), None);
    assert_eq!(parse_decimal("1e"), None);
    assert_eq!(parse_decimal("1e12345"), None);
    assert_eq!(ms("1e3", "ms"), 1000.0);
    assert_eq!(ms("2.5E-2", "s"), 25.0);
}
