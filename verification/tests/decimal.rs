use headers_ext::decimal::{numeral, read_decimal, write_decimal};

#[test]
fn read_decimal_reads_digits() {
    assert_eq!(read_decimal(b"0"), Some(0));
    assert_eq!(read_decimal(b"7"), Some(7));
    assert_eq!(read_decimal(b"531"), Some(531));
    assert_eq!(read_decimal(b"000"), Some(0));
    assert_eq!(read_decimal(b"0042"), Some(42));
    assert_eq!(read_decimal(b"18446744073709551615"), Some(u64::MAX));
    assert_eq!(read_decimal(b"00018446744073709551615"), Some(u64::MAX));
}

#[test]
fn read_decimal_rejects_other_text() {
    assert_eq!(read_decimal(b""), None);
    assert_eq!(read_decimal(b"+1"), None);
    assert_eq!(read_decimal(b"1 "), None);
    assert_eq!(read_decimal(b"1_000"), None);
    assert_eq!(read_decimal(b"0x10"), None);
    assert_eq!(read_decimal(b"12/"), None);
    assert_eq!(read_decimal(b"12:"), None);
}

#[test]
fn read_decimal_rejects_overflow() {
    assert_eq!(read_decimal(b"18446744073709551616"), None);
    assert_eq!(read_decimal(b"18446744073709551620"), None);
    assert_eq!(read_decimal(b"28446744073709551615"), None);
    assert_eq!(read_decimal(b"184467440737095516150"), None);
}

#[test]
fn write_decimal_writes_numeral() {
    assert_eq!(write_decimal(0).as_bytes(), b"0");
    assert_eq!(write_decimal(9).as_bytes(), b"9");
    assert_eq!(write_decimal(10).as_bytes(), b"10");
    assert_eq!(write_decimal(531).as_bytes(), b"531");
    assert_eq!(write_decimal(1_000_000).as_bytes(), b"1000000");
    assert_eq!(write_decimal(u64::MAX).as_bytes(), b"18446744073709551615");
}

#[test]
fn decimal_round_trips() {
    for n in [0u64, 1, 10, 99, 100, 531, 65_535, 4_294_967_295, u64::MAX - 1, u64::MAX] {
        assert_eq!(read_decimal(write_decimal(n).as_bytes()), Some(n));
    }
}

#[test]
fn numeral_has_no_leading_zeros() {
    assert_eq!(numeral(0), b"0".to_vec());
    assert_eq!(numeral(7), b"7".to_vec());
    assert_eq!(numeral(10), b"10".to_vec());
    assert_eq!(numeral(1_000_000_000_000_000), b"1000000000000000".to_vec());
    assert_eq!(numeral(999_999_999_999_999_999), b"999999999999999999".to_vec());
    assert_eq!(numeral(u64::MAX), b"18446744073709551615".to_vec());
}
