use monero_multisig::transaction::{format_xmr, parse_xmr};

#[test]
fn test_format_xmr_whole() {
    assert_eq!(format_xmr(1_000_000_000_000), "1.000000000000");
}

#[test]
fn test_format_xmr_fractional() {
    assert_eq!(format_xmr(1_500_000_000), "0.001500000000");
}

#[test]
fn test_format_xmr_zero() {
    assert_eq!(format_xmr(0), "0.000000000000");
}

#[test]
fn test_format_xmr_max() {
    assert_eq!(format_xmr(u64::MAX), "18446744.073709551615");
}

#[test]
fn test_parse_xmr_exact() {
    assert_eq!(parse_xmr("1.000000000000"), Some(1_000_000_000_000));
    assert_eq!(parse_xmr("0.001500000000"), Some(1_500_000_000));
    assert_eq!(parse_xmr("0.000000000000"), Some(0));
    assert_eq!(parse_xmr("18446744.073709551615"), Some(u64::MAX));
}

#[test]
fn test_parse_xmr_round_trip() {
    for v in [
        0u64,
        1,
        999_999_999_999,
        1_000_000_000_000,
        1_500_000_000,
        123_456_789_012_345,
        u64::MAX,
    ] {
        assert_eq!(parse_xmr(&format_xmr(v)), Some(v));
    }
}

#[test]
fn test_parse_xmr_rejects_malformed() {
    assert_eq!(parse_xmr(""), None);
    assert_eq!(parse_xmr("1"), None);
    assert_eq!(parse_xmr("1."), None);
    assert_eq!(parse_xmr(".000000000000"), None);
    assert_eq!(parse_xmr("1.00000000000"), None); // 11 fractional digits
    assert_eq!(parse_xmr("1.0000000000000"), None); // 13 fractional digits
    assert_eq!(parse_xmr("01.000000000000"), None); // leading zero
    assert_eq!(parse_xmr("1.0000000x0000"), None);
    assert_eq!(parse_xmr("x.000000000000"), None);
    assert_eq!(parse_xmr("18446745.000000000000"), None); // past u64::MAX
}
