//! The small string helpers the engine's contracts are built on.

use pact_engine::strings::{parse_u16, str_concat, str_contains, str_eq, u64_to_dec, u64_fixed_dec};

#[test]
fn string_equality_and_search() {
    assert!(str_eq("abc", "abc"));
    assert!(!str_eq("abc", "abd"));
    assert!(!str_eq("abc", "ab"));
    assert!(str_contains("hello world", "lo wo"));
    assert!(str_contains("hello", ""));
    assert!(!str_contains("hello", "world"));
    assert_eq!(str_concat("foo", "bar"), "foobar");
}

#[test]
fn decimal_formatting() {
    assert_eq!(u64_to_dec(0), "0");
    assert_eq!(u64_to_dec(907), "907");
    assert_eq!(u64_to_dec(u64::MAX), "18446744073709551615");
    assert_eq!(u64_fixed_dec(42, 5), "00042");
    assert_eq!(u64_fixed_dec(123456, 3), "456");
}

#[test]
fn u16_parsing() {
    assert_eq!(parse_u16("0"), Some(0));
    assert_eq!(parse_u16("65535"), Some(65535));
    assert_eq!(parse_u16("65536"), None);
    assert_eq!(parse_u16(""), None);
    assert_eq!(parse_u16("12a"), None);
    assert_eq!(parse_u16("-1"), None);
}
