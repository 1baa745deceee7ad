use debugrs::text::{find_byte, parse_dec_i64, parse_hex_u64, trim};

#[test]
fn trim_strips_both_ends() {
    assert_eq!(trim(b"  hi \n"), b"hi");
    assert_eq!(trim(b"hi"), b"hi");
    assert_eq!(trim(b" \t\r\n "), b"");
    assert_eq!(trim(b""), b"");
    assert_eq!(trim(b"a b"), b"a b");
}

#[test]
fn find_byte_reports_first_occurrence_or_length() {
    assert_eq!(find_byte(b"a b c", b' '), 1);
    assert_eq!(find_byte(b"abc", b' '), 3);
    assert_eq!(find_byte(b"", b' '), 0);
}

#[test]
fn hex_parsing_covers_range_and_rejects_junk() {
    assert_eq!(parse_hex_u64(b"0"), Some(0));
    assert_eq!(parse_hex_u64(b"deadBEEF"), Some(0xdead_beef));
    assert_eq!(parse_hex_u64(b"ffffffffffffffff"), Some(u64::MAX));
    assert_eq!(parse_hex_u64(b"00000000000000000001"), Some(1));
    assert_eq!(parse_hex_u64(b"10000000000000000"), None);
    assert_eq!(parse_hex_u64(b""), None);
    assert_eq!(parse_hex_u64(b"12g4"), None);
}

#[test]
fn decimal_parsing_covers_signs_and_limits() {
    assert_eq!(parse_dec_i64(b"0"), Some(0));
    assert_eq!(parse_dec_i64(b"42"), Some(42));
    assert_eq!(parse_dec_i64(b"+42"), Some(42));
    assert_eq!(parse_dec_i64(b"-42"), Some(-42));
    assert_eq!(parse_dec_i64(b"-0"), Some(0));
    assert_eq!(parse_dec_i64(b"9223372036854775807"), Some(i64::MAX));
    assert_eq!(parse_dec_i64(b"9223372036854775808"), None);
    assert_eq!(parse_dec_i64(b"-9223372036854775808"), Some(i64::MIN));
    assert_eq!(parse_dec_i64(b"-9223372036854775809"), None);
    assert_eq!(parse_dec_i64(b""), None);
    assert_eq!(parse_dec_i64(b"-"), None);
    assert_eq!(parse_dec_i64(b"4 2"), None);
    assert_eq!(parse_dec_i64(b"12a"), None);
}
