use voucher_sweep::amount::{format_amount, parse_amount, parse_index};

#[test]
fn parse_simple_fraction() {
    assert_eq!(parse_amount("0.0005"), Some(50_000));
    assert_eq!(parse_amount("0.0008"), Some(80_000));
    assert_eq!(parse_amount("0.0001"), Some(10_000));
    assert_eq!(parse_amount("0.00005"), Some(5_000));
}

#[test]
fn parse_whole_coins() {
    assert_eq!(parse_amount("1"), Some(100_000_000));
    assert_eq!(parse_amount("21"), Some(2_100_000_000));
    assert_eq!(parse_amount("0"), Some(0));
}

#[test]
fn parse_mixed() {
    assert_eq!(parse_amount("1.5"), Some(150_000_000));
    assert_eq!(parse_amount("0.00120000"), Some(120_000));
    assert_eq!(parse_amount("00.5"), Some(50_000_000));
}

#[test]
fn parse_smallest_unit() {
    assert_eq!(parse_amount("0.00000001"), Some(1));
}

#[test]
fn parse_trailing_zeros_beyond_precision() {
    assert_eq!(parse_amount("0.000000010000"), Some(1));
    assert_eq!(parse_amount("0.001000000000"), Some(100_000));
}

#[test]
fn parse_rejects_below_precision() {
    assert_eq!(parse_amount("0.000000001"), None);
    assert_eq!(parse_amount("0.000000015"), None);
}

#[test]
fn parse_rejects_malformed() {
    assert_eq!(parse_amount(""), None);
    assert_eq!(parse_amount("."), None);
    assert_eq!(parse_amount("1."), None);
    assert_eq!(parse_amount(".5"), None);
    assert_eq!(parse_amount("1e5"), None);
    assert_eq!(parse_amount("-1"), None);
    assert_eq!(parse_amount("1.2.3"), None);
    assert_eq!(parse_amount("12a"), None);
}

#[test]
fn parse_rejects_overflow() {
    assert_eq!(parse_amount("999999999999999999999"), None);
    // just over u64::MAX units
    assert_eq!(parse_amount("184467440737.09551616"), None);
    assert_eq!(parse_amount("184467440737.09551615"), Some(u64::MAX));
}

#[test]
fn format_pads_to_eight_places() {
    assert_eq!(format_amount(120_000), "0.00120000");
    assert_eq!(format_amount(0), "0.00000000");
    assert_eq!(format_amount(1), "0.00000001");
    assert_eq!(format_amount(100_000_000), "1.00000000");
    assert_eq!(format_amount(150_000_000), "1.50000000");
    assert_eq!(format_amount(2_100_000_012), "21.00000012");
}

#[test]
fn format_then_parse_round_trips() {
    for v in [0u64, 1, 9, 10_000, 120_000, 99_999_999, 100_000_000, u64::MAX] {
        assert_eq!(parse_amount(&format_amount(v)), Some(v));
    }
}

#[test]
fn parse_index_plain_integers() {
    assert_eq!(parse_index("0"), Some(0));
    assert_eq!(parse_index("7"), Some(7));
    assert_eq!(parse_index("18446744073709551615"), Some(u64::MAX));
}

#[test]
fn parse_index_rejects_non_integers() {
    assert_eq!(parse_index(""), None);
    assert_eq!(parse_index("0.0"), None);
    assert_eq!(parse_index("-1"), None);
    assert_eq!(parse_index("abc"), None);
    assert_eq!(parse_index("18446744073709551616"), None);
}
