use c14::decimal::{parse_u16, NumberError};
use c14::semver::SemVer;

fn v(major: u16, minor: u16, patch: u16) -> SemVer {
    SemVer { major, minor, patch }
}

#[test]
fn increment_major_resets_lower_components() {
    let mut s = v(1, 2, 3);
    s.increment(v(2, 5, 7));
    assert_eq!(s, v(3, 0, 0));
}

#[test]
fn increment_minor_resets_patch() {
    let mut s = v(1, 2, 3);
    s.increment(v(0, 4, 9));
    assert_eq!(s, v(1, 6, 0));
}

#[test]
fn increment_patch_only() {
    let mut s = v(1, 2, 3);
    s.increment(v(0, 0, 2));
    assert_eq!(s, v(1, 2, 5));
}

#[test]
fn increment_by_zero_changes_nothing() {
    let mut s = v(4, 5, 6);
    s.increment(v(0, 0, 0));
    assert_eq!(s, v(4, 5, 6));
}

#[test]
fn increment_never_goes_back() {
    let before = v(1, 9, 9);
    let mut after = before;
    after.increment(v(0, 1, 0));
    assert!(before.is_older_than(&after));
    assert!(!after.is_older_than(&before));
}

#[test]
fn default_is_zero() {
    assert_eq!(SemVer::default(), v(0, 0, 0));
}

#[test]
fn to_string_writes_dotted_numbers() {
    assert_eq!(v(1, 20, 300).to_string(), "1.20.300");
    assert_eq!(v(0, 0, 0).to_string(), "0.0.0");
    assert_eq!(v(65535, 10, 7).to_string(), "65535.10.7");
}

#[test]
fn from_str_reads_plain_version() {
    assert_eq!(SemVer::from_str("1.2.3").unwrap(), v(1, 2, 3));
}

#[test]
fn from_str_drops_suffix() {
    assert_eq!(SemVer::from_str("10.0.42-rc.1").unwrap(), v(10, 0, 42));
    assert_eq!(SemVer::from_str("007.08.9").unwrap(), v(7, 8, 9));
}

#[test]
fn from_str_rejects_other_text() {
    let e = SemVer::from_str("v1.2.3").unwrap_err();
    assert_eq!(
        e,
        "Version v1.2.3 do not match valid version regex : ^(\\d+)\\.(\\d+)\\.(\\d+)(-[\\w\\-.]+|)$"
    );
    assert!(SemVer::from_str("1.2").is_err());
    assert!(SemVer::from_str("1.2.3-").is_err());
    assert!(SemVer::from_str("").is_err());
}

#[test]
fn checked_from_str_refuses_numbers_past_u16() {
    assert!(SemVer::checked_from_str("70000.1.1").is_none());
    assert_eq!(SemVer::checked_from_str("1.2.3"), Some(Ok(v(1, 2, 3))));
    assert!(matches!(SemVer::checked_from_str("x"), Some(Err(_))));
}

#[test]
fn checked_from_str_refuses_non_ascii_digits() {
    // The pattern's \d also matches other decimal digits, which do not parse.
    assert!(SemVer::checked_from_str("\u{0661}.2.3").is_none());
}

#[test]
fn text_reads_back() {
    for s in [v(0, 0, 0), v(1, 2, 3), v(65535, 65535, 65535), v(10, 0, 100)] {
        assert_eq!(SemVer::checked_from_str(&s.to_string()), Some(Ok(s)));
    }
}

#[test]
fn from_numerals_reports_first_bad_number() {
    assert_eq!(SemVer::from_numerals("1", "2", "3"), Ok(v(1, 2, 3)));
    assert_eq!(SemVer::from_numerals("1", "x", "99999"), Err(NumberError::InvalidDigit));
    assert_eq!(SemVer::from_numerals("99999", "x", "1"), Err(NumberError::Overflow));
}

#[test]
fn order_is_by_major_then_minor_then_patch() {
    assert!(v(1, 9, 9).is_older_than(&v(2, 0, 0)));
    assert!(v(1, 1, 9).is_older_than(&v(1, 2, 0)));
    assert!(v(1, 1, 1).is_older_than(&v(1, 1, 2)));
    assert!(!v(1, 1, 1).is_older_than(&v(1, 1, 1)));
    assert!(!v(2, 0, 0).is_older_than(&v(1, 9, 9)));
}

#[test]
fn parse_u16_follows_std() {
    for s in ["", "+", "-1", "+7", "0", "00042", "65535", "65536", "12a", "a12", "99999x", "1 "] {
        let expected = s.parse::<u16>().map_err(|e| match e.kind() {
            std::num::IntErrorKind::Empty => NumberError::Empty,
            std::num::IntErrorKind::InvalidDigit => NumberError::InvalidDigit,
            _ => NumberError::Overflow,
        });
        assert_eq!(parse_u16(s), expected, "input {:?}", s);
    }
}
