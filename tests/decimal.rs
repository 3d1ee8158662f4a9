use mc_query::decimal::{parse_i32, parse_u16, parse_usize};

#[test]
fn parses_signed_numbers() {
    assert_eq!(parse_i32(b"9513307"), Some(9513307));
    assert_eq!(parse_i32(b"-42"), Some(-42));
    assert_eq!(parse_i32(b"+7"), Some(7));
    assert_eq!(parse_i32(b"2147483647"), Some(i32::MAX));
    assert_eq!(parse_i32(b"-2147483648"), Some(i32::MIN));
}

#[test]
fn rejects_malformed_signed_numbers() {
    assert_eq!(parse_i32(b""), None);
    assert_eq!(parse_i32(b"-"), None);
    assert_eq!(parse_i32(b"+"), None);
    assert_eq!(parse_i32(b"12a"), None);
    assert_eq!(parse_i32(b" 1"), None);
    assert_eq!(parse_i32(b"2147483648"), None);
    assert_eq!(parse_i32(b"-2147483649"), None);
}

#[test]
fn parses_unsigned_numbers() {
    assert_eq!(parse_usize(b"20"), Some(20));
    assert_eq!(parse_usize(b"+0"), Some(0));
    assert_eq!(parse_usize(b"-0"), None);
    assert_eq!(parse_u16(b"25565"), Some(25565));
    assert_eq!(parse_u16(b"65535"), Some(65535));
    assert_eq!(parse_u16(b"65536"), None);
    assert_eq!(parse_u16(b"99999999999999999999999"), None);
}
