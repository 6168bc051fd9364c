use avail_light::hexstr::parse_u64_hex;

#[test]
fn parses_with_and_without_prefix() {
    assert_eq!(parse_u64_hex("0x12"), Some(18));
    assert_eq!(parse_u64_hex("12"), Some(18));
    assert_eq!(parse_u64_hex("0"), Some(0));
    assert_eq!(parse_u64_hex("0x0"), Some(0));
    assert_eq!(parse_u64_hex("ff"), Some(255));
    assert_eq!(parse_u64_hex("0xFF"), Some(255));
    assert_eq!(parse_u64_hex("DeadBeef"), Some(0xdeadbeef));
    assert_eq!(parse_u64_hex("0xffffffffffffffff"), Some(u64::MAX));
    assert_eq!(parse_u64_hex("00000000000000000001"), Some(1));
}

#[test]
fn rejects_malformed_numbers() {
    assert_eq!(parse_u64_hex(""), None);
    assert_eq!(parse_u64_hex("0x"), None);
    assert_eq!(parse_u64_hex("0xg1"), None);
    assert_eq!(parse_u64_hex("12 "), None);
    assert_eq!(parse_u64_hex("-5"), None);
    assert_eq!(parse_u64_hex("0x1_0"), None);
}

#[test]
fn rejects_overflow() {
    assert_eq!(parse_u64_hex("0x10000000000000000"), None);
    assert_eq!(parse_u64_hex("ffffffffffffffffff"), None);
}
