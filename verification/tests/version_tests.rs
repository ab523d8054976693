use gl_headless::version::parse_u32;
use gl_headless::{GLVersion, GLVersionError, ParseIntErrorKind};

#[test]
fn parses_simple_version() {
    assert_eq!(GLVersion::from_str("3.3").unwrap(), GLVersion(3, 3));
    assert_eq!(GLVersion::from_str("4.6").unwrap(), GLVersion(4, 6));
    assert_eq!(GLVersion::from_str("0.0").unwrap(), GLVersion(0, 0));
    assert_eq!(GLVersion::from_str("10.2").unwrap(), GLVersion(10, 2));
}

#[test]
fn default_version_is_4_6() {
    assert_eq!(GLVersion::default(), GLVersion(4, 6));
}

#[test]
fn parses_through_from_str_trait() {
    let v: GLVersion = "2.1".parse().unwrap();
    assert_eq!(v, GLVersion(2, 1));
}

#[test]
fn accepts_leading_plus_signs() {
    assert_eq!(GLVersion::from_str("+3.3").unwrap(), GLVersion(3, 3));
    assert_eq!(GLVersion::from_str("3.+3").unwrap(), GLVersion(3, 3));
}

#[test]
fn accepts_leading_zeros() {
    assert_eq!(GLVersion::from_str("04.06").unwrap(), GLVersion(4, 6));
}

#[test]
fn largest_version_fits() {
    assert_eq!(
        GLVersion::from_str("4294967295.4294967295").unwrap(),
        GLVersion(u32::MAX, u32::MAX)
    );
}

#[test]
fn missing_dot_is_invalid_version() {
    match GLVersion::from_str("46") {
        Err(GLVersionError::InvalidVersion(s)) => assert_eq!(s, "46"),
        other => panic!("unexpected result: {:?}", other),
    }
}

#[test]
fn empty_string_is_invalid_version() {
    match GLVersion::from_str("") {
        Err(GLVersionError::InvalidVersion(s)) => assert_eq!(s, ""),
        other => panic!("unexpected result: {:?}", other),
    }
}

#[test]
fn empty_major_reports_empty() {
    match GLVersion::from_str(".5") {
        Err(GLVersionError::InvalidMajor(s, kind)) => {
            assert_eq!(s, "");
            assert_eq!(kind, ParseIntErrorKind::Empty);
        }
        other => panic!("unexpected result: {:?}", other),
    }
}

#[test]
fn empty_minor_reports_empty() {
    match GLVersion::from_str("5.") {
        Err(GLVersionError::InvalidMinor(s, kind)) => {
            assert_eq!(s, "");
            assert_eq!(kind, ParseIntErrorKind::Empty);
        }
        other => panic!("unexpected result: {:?}", other),
    }
}

#[test]
fn bad_major_digit() {
    match GLVersion::from_str("a.3") {
        Err(GLVersionError::InvalidMajor(s, kind)) => {
            assert_eq!(s, "a");
            assert_eq!(kind, ParseIntErrorKind::InvalidDigit);
        }
        other => panic!("unexpected result: {:?}", other),
    }
}

#[test]
fn bad_minor_digit() {
    match GLVersion::from_str("3.b") {
        Err(GLVersionError::InvalidMinor(s, kind)) => {
            assert_eq!(s, "b");
            assert_eq!(kind, ParseIntErrorKind::InvalidDigit);
        }
        other => panic!("unexpected result: {:?}", other),
    }
}

#[test]
fn second_dot_lands_in_minor() {
    match GLVersion::from_str("1.2.3") {
        Err(GLVersionError::InvalidMinor(s, kind)) => {
            assert_eq!(s, "2.3");
            assert_eq!(kind, ParseIntErrorKind::InvalidDigit);
        }
        other => panic!("unexpected result: {:?}", other),
    }
}

#[test]
fn overflowing_major_reports_overflow() {
    match GLVersion::from_str("4294967296.0") {
        Err(GLVersionError::InvalidMajor(s, kind)) => {
            assert_eq!(s, "4294967296");
            assert_eq!(kind, ParseIntErrorKind::PosOverflow);
        }
        other => panic!("unexpected result: {:?}", other),
    }
}

#[test]
fn overflow_beats_later_bad_digit() {
    // The digits are consumed left to right, so the overflow is noticed
    // before the trailing letter is.
    match GLVersion::from_str("99999999999x.0") {
        Err(GLVersionError::InvalidMajor(s, kind)) => {
            assert_eq!(s, "99999999999x");
            assert_eq!(kind, ParseIntErrorKind::PosOverflow);
        }
        other => panic!("unexpected result: {:?}", other),
    }
}

#[test]
fn early_bad_digit_beats_overflow() {
    match GLVersion::from_str("x99999999999.0") {
        Err(GLVersionError::InvalidMajor(s, kind)) => {
            assert_eq!(s, "x99999999999");
            assert_eq!(kind, ParseIntErrorKind::InvalidDigit);
        }
        other => panic!("unexpected result: {:?}", other),
    }
}

#[test]
fn minus_sign_is_invalid_digit() {
    match GLVersion::from_str("-1.0") {
        Err(GLVersionError::InvalidMajor(s, kind)) => {
            assert_eq!(s, "-1");
            assert_eq!(kind, ParseIntErrorKind::InvalidDigit);
        }
        other => panic!("unexpected result: {:?}", other),
    }
}

#[test]
fn non_ascii_digit_is_invalid() {
    match GLVersion::from_str("³.3") {
        Err(GLVersionError::InvalidMajor(s, kind)) => {
            assert_eq!(s, "³");
            assert_eq!(kind, ParseIntErrorKind::InvalidDigit);
        }
        other => panic!("unexpected result: {:?}", other),
    }
}

#[test]
fn parse_u32_values() {
    assert_eq!(parse_u32("7"), Ok(7));
    assert_eq!(parse_u32("0"), Ok(0));
    assert_eq!(parse_u32("007"), Ok(7));
    assert_eq!(parse_u32("+0"), Ok(0));
    assert_eq!(parse_u32("4294967295"), Ok(u32::MAX));
}

#[test]
fn parse_u32_matches_std() {
    for s in [
        "7", "0", "007", "+0", "+", "", "-1", "-", "4294967295", "4294967296", "1 2", " 1", "1 ",
        "99999999999x", "x99999999999", "³",
    ] {
        assert_eq!(parse_u32(s).is_ok(), s.parse::<u32>().is_ok(), "input {:?}", s);
        if let Ok(v) = parse_u32(s) {
            assert_eq!(v, s.parse::<u32>().unwrap(), "input {:?}", s);
        }
    }
}

#[test]
fn parse_u32_errors() {
    assert_eq!(parse_u32(""), Err(ParseIntErrorKind::Empty));
    assert_eq!(parse_u32("+"), Err(ParseIntErrorKind::InvalidDigit));
    assert_eq!(parse_u32("-1"), Err(ParseIntErrorKind::InvalidDigit));
    assert_eq!(parse_u32("12a"), Err(ParseIntErrorKind::InvalidDigit));
    assert_eq!(parse_u32("4294967296"), Err(ParseIntErrorKind::PosOverflow));
    assert_eq!(parse_u32("99999999999"), Err(ParseIntErrorKind::PosOverflow));
}
