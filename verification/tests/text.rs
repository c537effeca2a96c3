use xan::text::{i64_to_string, parse_i64, parse_usize, u64_to_string};

#[test]
fn parse_i64_reads_signed_decimal() {
    assert_eq!(parse_i64("0"), Some(0));
    assert_eq!(parse_i64("-7"), Some(-7));
    assert_eq!(parse_i64("+42"), Some(42));
    assert_eq!(parse_i64("9223372036854775807"), Some(i64::MAX));
    assert_eq!(parse_i64("-9223372036854775808"), Some(i64::MIN));
    assert_eq!(parse_i64("9223372036854775808"), None);
    assert_eq!(parse_i64("-9223372036854775809"), None);
    assert_eq!(parse_i64(""), None);
    assert_eq!(parse_i64("-"), None);
    assert_eq!(parse_i64("+"), None);
    assert_eq!(parse_i64("1.5"), None);
    assert_eq!(parse_i64("abc"), None);
    assert_eq!(parse_i64(" 1"), None);
    assert_eq!(parse_i64("007"), Some(7));
}

#[test]
fn parse_usize_refuses_a_minus_sign() {
    assert_eq!(parse_usize("12"), Some(12));
    assert_eq!(parse_usize("+12"), Some(12));
    assert_eq!(parse_usize("-12"), None);
    assert_eq!(parse_usize("-0"), None);
    assert_eq!(parse_usize("18446744073709551615"), Some(usize::MAX));
    assert_eq!(parse_usize("18446744073709551616"), None);
}

#[test]
fn parse_agrees_with_std() {
    for text in ["0", "-0", "+0", "12345", "-12345", "99999999999999999999", "1e3", "0x10", "١٢"] {
        assert_eq!(parse_i64(text), text.parse::<i64>().ok());
        assert_eq!(parse_usize(text), text.parse::<usize>().ok());
    }
}

#[test]
fn integers_are_written_in_decimal() {
    assert_eq!(u64_to_string(0), "0");
    assert_eq!(u64_to_string(10), "10");
    assert_eq!(u64_to_string(u64::MAX), "18446744073709551615");
    assert_eq!(i64_to_string(-1), "-1");
    assert_eq!(i64_to_string(i64::MIN), "-9223372036854775808");
    assert_eq!(i64_to_string(i64::MAX), "9223372036854775807");
}

#[test]
fn written_integers_read_back() {
    for n in [0i64, 1, -1, 17, -4096, i64::MAX, i64::MIN] {
        assert_eq!(parse_i64(&i64_to_string(n)), Some(n));
    }
}
