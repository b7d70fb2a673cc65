use sutty::text::{
    decimal_string, find_first, find_last, parse_u16, parse_u16_checked, same_text, IntErrorKind,
};

#[test]
fn parse_u16_like_std() {
    for s in ["0", "22", "+22", "65535", "00080", "65536", "", "+", "-1", "2a", " 22", "99999x", "+-1", "١٢"] {
        assert_eq!(parse_u16(s), s.parse::<u16>().ok(), "input {:?}", s);
    }
}

#[test]
fn parse_u16_error_kinds() {
    assert_eq!(parse_u16_checked(""), Err(IntErrorKind::Empty));
    assert_eq!(parse_u16_checked("+"), Err(IntErrorKind::InvalidDigit));
    assert_eq!(parse_u16_checked("12x"), Err(IntErrorKind::InvalidDigit));
    assert_eq!(parse_u16_checked("70000"), Err(IntErrorKind::PosOverflow));
    assert_eq!(parse_u16_checked("99999x"), Err(IntErrorKind::PosOverflow));
    assert_eq!(parse_u16_checked("-5"), Err(IntErrorKind::InvalidDigit));
    assert_eq!(parse_u16_checked("443"), Ok(443));
    assert_eq!(IntErrorKind::Empty.message(), "cannot parse integer from empty string");
    assert_eq!(IntErrorKind::InvalidDigit.message(), "invalid digit found in string");
    assert_eq!(IntErrorKind::PosOverflow.message(), "number too large to fit in target type");
}

#[test]
fn parse_error_kinds_match_std() {
    for s in ["", "+", "12x", "70000", "99999x", "-5", "x99999"] {
        let ours = parse_u16_checked(s).unwrap_err();
        let std_kind = s.parse::<u16>().unwrap_err().kind().clone();
        let expected = match std_kind {
            std::num::IntErrorKind::Empty => IntErrorKind::Empty,
            std::num::IntErrorKind::InvalidDigit => IntErrorKind::InvalidDigit,
            std::num::IntErrorKind::PosOverflow => IntErrorKind::PosOverflow,
            _ => panic!("unexpected"),
        };
        assert_eq!(ours, expected, "input {:?}", s);
    }
}

#[test]
fn decimal_rendering() {
    assert_eq!(decimal_string(0), "0");
    assert_eq!(decimal_string(7), "7");
    assert_eq!(decimal_string(22), "22");
    assert_eq!(decimal_string(65535), "65535");
    assert_eq!(decimal_string(u64::MAX), u64::MAX.to_string());
}

#[test]
fn decimal_parse_round_trip() {
    for p in [0u16, 1, 9, 10, 22, 2222, 65535] {
        assert_eq!(parse_u16(&decimal_string(p as u64)), Some(p));
    }
}

#[test]
fn find_chars() {
    assert_eq!(find_first("a@b@c", '@'), Some(1));
    assert_eq!(find_last("a:b:c", ':'), Some(3));
    assert_eq!(find_first("abc", '@'), None);
    assert_eq!(find_last("", ':'), None);
    assert_eq!(find_first("é@x", '@'), Some(1));
    assert!(same_text("abc", "abc"));
    assert!(!same_text("abc", "abd"));
}
