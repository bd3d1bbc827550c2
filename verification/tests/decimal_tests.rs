use metastore::decimal::{decimal_string, parse_decimal};

#[test]
fn digits_are_read_as_the_number_they_spell() {
    assert_eq!(parse_decimal("0"), Some(0));
    assert_eq!(parse_decimal("7"), Some(7));
    assert_eq!(parse_decimal("10"), Some(10));
    assert_eq!(parse_decimal("1234567890"), Some(1234567890));
    assert_eq!(parse_decimal("18446744073709551615"), Some(u64::MAX));
}

#[test]
fn leading_zeros_count_for_nothing() {
    assert_eq!(parse_decimal("007"), Some(7));
    assert_eq!(parse_decimal("000"), Some(0));
    assert_eq!(parse_decimal("00018446744073709551615"), Some(u64::MAX));
}

#[test]
fn numbers_that_do_not_fit_are_refused() {
    assert_eq!(parse_decimal("18446744073709551616"), None);
    assert_eq!(parse_decimal("18446744073709551620"), None);
    assert_eq!(parse_decimal("99999999999999999999"), None);
    assert_eq!(parse_decimal("184467440737095516150"), None);
}

#[test]
fn anything_but_digits_is_refused() {
    assert_eq!(parse_decimal(""), None);
    assert_eq!(parse_decimal("+5"), None);
    assert_eq!(parse_decimal("-5"), None);
    assert_eq!(parse_decimal("5 "), None);
    assert_eq!(parse_decimal(" 5"), None);
    assert_eq!(parse_decimal("5a"), None);
    assert_eq!(parse_decimal("0x10"), None);
    assert_eq!(parse_decimal("1_000"), None);
    assert_eq!(parse_decimal("\u{663}"), None);
}

#[test]
fn numbers_are_spelled_without_leading_zeros() {
    assert_eq!(decimal_string(0), "0");
    assert_eq!(decimal_string(9), "9");
    assert_eq!(decimal_string(10), "10");
    assert_eq!(decimal_string(1234567890), "1234567890");
    assert_eq!(decimal_string(u64::MAX), "18446744073709551615");
}

#[test]
fn what_is_spelled_reads_back() {
    for n in [0u64, 1, 9, 10, 99, 100, 4096, u64::MAX - 1, u64::MAX] {
        assert_eq!(parse_decimal(&decimal_string(n)), Some(n));
    }
}
