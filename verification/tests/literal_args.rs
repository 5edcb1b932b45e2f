use mandel::{parse_float, LiteralError, LiteralKind};

#[test]
fn malformed_literal_is_rejected() {
    assert_eq!(parse_float("abc"), Err(LiteralError));
    assert_eq!(parse_float(""), Err(LiteralError));
    assert_eq!(parse_float("-"), Err(LiteralError));
    assert_eq!(parse_float("."), Err(LiteralError));
    assert_eq!(parse_float("1e"), Err(LiteralError));
    assert_eq!(parse_float("1e+"), Err(LiteralError));
    assert_eq!(parse_float("3.0.5"), Err(LiteralError));
    assert_eq!(parse_float("3.0 "), Err(LiteralError));
    assert_eq!(parse_float("12x"), Err(LiteralError));
    assert_eq!(parse_float("0x"), Err(LiteralError));
    assert_eq!(parse_float("0xg"), Err(LiteralError));
    assert_eq!(parse_float("0x1p"), Err(LiteralError));
}

#[test]
fn decimal_literals_accepted() {
    assert_eq!(parse_float("3.0"), Ok(LiteralKind::Decimal));
    assert_eq!(parse_float("3"), Ok(LiteralKind::Decimal));
    assert_eq!(parse_float("-1.5e-3"), Ok(LiteralKind::Decimal));
    assert_eq!(parse_float("+0.25"), Ok(LiteralKind::Decimal));
    assert_eq!(parse_float(".5"), Ok(LiteralKind::Decimal));
    assert_eq!(parse_float("5."), Ok(LiteralKind::Decimal));
    assert_eq!(parse_float("1E+5"), Ok(LiteralKind::Decimal));
    assert_eq!(parse_float("100000000"), Ok(LiteralKind::Decimal));
}

#[test]
fn hex_literals_accepted() {
    assert_eq!(parse_float("0x1p5"), Ok(LiteralKind::HexFloat));
    assert_eq!(parse_float("0x1.8p1"), Ok(LiteralKind::HexFloat));
    assert_eq!(parse_float("0x1A"), Ok(LiteralKind::HexFloat));
    assert_eq!(parse_float("0xA.8P-2"), Ok(LiteralKind::HexFloat));
    assert_eq!(parse_float("-0x.8p1"), Ok(LiteralKind::HexFloat));
}

#[test]
fn formatted_decimal_round_trips() {
    // Formatting a double and feeding the text back is accepted by the
    // decimal grammar and reproduces the value exactly.
    let values = [3.0f64, -1.5e-3, 0.1, 123456.75, 1.0e40];
    for v in values {
        let text = format!("{}", v);
        assert_eq!(parse_float(&text), Ok(LiteralKind::Decimal), "text {}", text);
        let back: f64 = text.parse().unwrap();
        assert_eq!(back, v, "text {}", text);
    }
}

#[test]
fn hex_literal_equals_decimal_value() {
    // 0x1.8p1 is 3.0: mantissa 0x18 over one hex fraction digit, scaled
    // by two.
    assert_eq!(parse_float("0x1.8p1"), Ok(LiteralKind::HexFloat));
    let mantissa = 0x18 as f64;
    let value = mantissa / 16.0 * 2.0;
    assert_eq!(value, 3.0);
    assert_eq!(parse_float("3.0"), Ok(LiteralKind::Decimal));
}
