use contain_rs::text::{contains_str, parse_decimal_u64, push_decimal};

#[test]
fn decimal_rendering() {
    let mut s = String::from("n=");
    push_decimal(&mut s, 0);
    assert_eq!(s, "n=0");
    let mut s = String::new();
    push_decimal(&mut s, 18446744073709551615);
    assert_eq!(s, "18446744073709551615");
}

#[test]
fn decimal_round_trip() {
    for n in [0u64, 7, 10, 8080, 4294967296, u64::MAX] {
        let mut s = String::new();
        push_decimal(&mut s, n);
        assert_eq!(parse_decimal_u64(&s), Some(n));
    }
}

#[test]
fn decimal_parse_limits() {
    assert_eq!(parse_decimal_u64(&"".to_string()), None);
    assert_eq!(parse_decimal_u64(&"12a".to_string()), None);
    assert_eq!(parse_decimal_u64(&"18446744073709551616".to_string()), None);
    assert_eq!(parse_decimal_u64(&"0042".to_string()), Some(42));
}

#[test]
fn substring_search() {
    assert!(contains_str("ERROR: NO SUCH OBJECT: X", "NO SUCH OBJECT"));
    assert!(!contains_str("NO SUCH", "NO SUCH OBJECT"));
    assert!(contains_str("abc", ""));
}
