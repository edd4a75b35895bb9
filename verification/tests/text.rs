use du_analog_inputs::text::{parse_bool, parse_u16, parse_u8, push_decimal, IntErrorKind};

#[test]
fn parse_u16_reads_plain_and_signed_digits() {
    assert_eq!(parse_u16("250"), Ok(250));
    assert_eq!(parse_u16("+5"), Ok(5));
    assert_eq!(parse_u16("007"), Ok(7));
    assert_eq!(parse_u16("65535"), Ok(65535));
    assert_eq!(parse_u16("0"), Ok(0));
}

#[test]
fn parse_u16_errors_match_their_kind() {
    assert_eq!(parse_u16(""), Err(IntErrorKind::Empty));
    assert_eq!(parse_u16("+"), Err(IntErrorKind::InvalidDigit));
    assert_eq!(parse_u16("-"), Err(IntErrorKind::InvalidDigit));
    assert_eq!(parse_u16("-5"), Err(IntErrorKind::InvalidDigit));
    assert_eq!(parse_u16(" 5"), Err(IntErrorKind::InvalidDigit));
    assert_eq!(parse_u16("12a45"), Err(IntErrorKind::InvalidDigit));
    assert_eq!(parse_u16("65536"), Err(IntErrorKind::PosOverflow));
    assert_eq!(parse_u16("99999a"), Err(IntErrorKind::PosOverflow));
    assert_eq!(parse_u16("ü"), Err(IntErrorKind::InvalidDigit));
}

#[test]
fn parse_u16_agrees_with_std() {
    for s in ["", "+", "-", "1", "+12", "-0", "65535", "65536", "0001", "9a", "99999a", "1 "] {
        let ours = parse_u16(s);
        let std_result = s.parse::<u16>();
        match (ours, std_result) {
            (Ok(a), Ok(b)) => assert_eq!(a, b),
            (Err(kind), Err(e)) => assert_eq!(kind.message(), e.to_string()),
            _ => panic!("disagreement on {:?}", s),
        }
    }
}

#[test]
fn parse_u8_limits() {
    assert_eq!(parse_u8("255"), Ok(255));
    assert_eq!(parse_u8("256"), Err(IntErrorKind::PosOverflow));
    assert_eq!(parse_u8("6"), Ok(6));
}

#[test]
fn parse_bool_takes_only_lowercase_words() {
    assert_eq!(parse_bool("true"), Some(true));
    assert_eq!(parse_bool("false"), Some(false));
    assert_eq!(parse_bool("True"), None);
    assert_eq!(parse_bool(""), None);
    assert_eq!(parse_bool("truee"), None);
}

#[test]
fn error_messages() {
    assert_eq!(IntErrorKind::Empty.message(), "cannot parse integer from empty string");
    assert_eq!(IntErrorKind::InvalidDigit.message(), "invalid digit found in string");
    assert_eq!(IntErrorKind::PosOverflow.message(), "number too large to fit in target type");
}

#[test]
fn decimal_text() {
    let mut s = String::from("x");
    push_decimal(&mut s, 0);
    push_decimal(&mut s, 65535);
    push_decimal(&mut s, 10);
    assert_eq!(s, "x06553510");
}
