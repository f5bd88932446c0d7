use nimblecache::clock::Timestamp;
use nimblecache::text::{
    bytes_eq, bytes_less, parse_i64, parse_u16, parse_u64, parse_u64_digits, push_decimal, str_eq,
    str_less, string_from_ascii, u64_to_string,
};

#[test]
fn wall_clock_is_read() {
    let a = Timestamp::now_utc();
    // Later than the first of January 2020.
    assert!(a.unix_nanos() > 1_577_836_800_000_000_000);
    let b = Timestamp::now_utc();
    assert!(!a.is_after(b));
}

#[test]
fn timestamps_add_milliseconds() {
    let t = Timestamp::from_unix_nanos(1_500_000);
    assert_eq!(t.add_millis(0), t);
    assert_eq!(t.add_millis(100).unix_nanos(), 101_500_000);
    assert_eq!(
        t.add_millis(u64::MAX).unix_nanos(),
        1_500_000 + (u64::MAX as i128) * 1_000_000
    );
    assert_eq!(Timestamp::from_unix_nanos(i128::MAX - 5).add_millis(1).unix_nanos(), i128::MAX);
    assert_eq!(Timestamp::from_unix_millis(7).unix_nanos(), 7_000_000);
    assert_eq!(Timestamp::unix_epoch().unix_nanos(), 0);
}

#[test]
fn timestamps_count_whole_milliseconds() {
    assert_eq!(Timestamp::from_unix_nanos(1_999_999).unix_millis(), 1);
    assert_eq!(Timestamp::from_unix_nanos(2_000_000).unix_millis(), 2);
    assert_eq!(Timestamp::from_unix_nanos(999_999).unix_millis(), 0);
    assert_eq!(Timestamp::from_unix_nanos(-5_000_000).unix_millis(), 0);
    assert_eq!(Timestamp::from_unix_nanos(i128::MAX).unix_millis(), u64::MAX);
    let now = Timestamp::from_unix_nanos(10_000_000);
    assert_eq!(now.millis_until(Timestamp::from_unix_nanos(110_500_000)), 100);
    assert_eq!(now.millis_until(now), 0);
    assert_eq!(now.millis_until(Timestamp::from_unix_nanos(0)), 0);
    assert_eq!(
        Timestamp::from_unix_nanos(i128::MIN).millis_until(Timestamp::from_unix_nanos(i128::MAX)),
        u64::MAX
    );
    assert_eq!(
        Timestamp::from_unix_nanos(i128::MAX).millis_until(Timestamp::from_unix_nanos(i128::MIN)),
        0
    );
}

#[test]
fn timestamps_compare() {
    let a = Timestamp::from_unix_nanos(1);
    let b = Timestamp::from_unix_nanos(2);
    assert!(b.is_after(a));
    assert!(!a.is_after(b));
    assert!(!a.is_after(a));
}

#[test]
fn decimal_numbers_are_written() {
    assert_eq!(u64_to_string(0), "0");
    assert_eq!(u64_to_string(9), "9");
    assert_eq!(u64_to_string(10), "10");
    assert_eq!(u64_to_string(1234567890), "1234567890");
    assert_eq!(u64_to_string(u64::MAX), "18446744073709551615");
    let mut out = b"n=".to_vec();
    push_decimal(407, &mut out);
    assert_eq!(out, b"n=407".to_vec());
}

#[test]
fn unsigned_numbers_are_read() {
    assert_eq!(parse_u64_digits(b"0"), Some(0));
    assert_eq!(parse_u64_digits(b"0042"), Some(42));
    assert_eq!(parse_u64_digits(b"18446744073709551615"), Some(u64::MAX));
    assert_eq!(parse_u64_digits(b"18446744073709551616"), None);
    assert_eq!(parse_u64_digits(b"99999999999999999999999"), None);
    assert_eq!(parse_u64_digits(b""), None);
    assert_eq!(parse_u64_digits(b"+1"), None);
    assert_eq!(parse_u64_digits(b"1a"), None);
    assert_eq!(parse_u64("100"), Some(100));
    assert_eq!(parse_u64("+100"), Some(100));
    assert_eq!(parse_u64("-100"), None);
    assert_eq!(parse_u64("+"), None);
    assert_eq!(parse_u64("++1"), None);
    assert_eq!(parse_u64(" 1"), None);
    assert_eq!(parse_u64(""), None);
    assert_eq!(parse_u16("65535"), Some(65535));
    assert_eq!(parse_u16("65536"), None);
    assert_eq!(parse_u16("+80"), Some(80));
    assert_eq!(parse_u16("port"), None);
}

#[test]
fn reading_numbers_agrees_with_the_standard_library() {
    for text in ["0", "7", "+7", "-7", "-0", "+0", "", "+", "-", "12x", "x12", "0x10", "1_000",
        "9223372036854775807", "9223372036854775808", "-9223372036854775808",
        "-9223372036854775809", "18446744073709551615", "18446744073709551616", "00000000000000000000001",
        "\u{0661}", "1 "]
    {
        assert_eq!(parse_u64(text), text.parse::<u64>().ok(), "u64 of {:?}", text);
        assert_eq!(parse_i64(text), text.parse::<i64>().ok(), "i64 of {:?}", text);
        assert_eq!(parse_u16(text), text.parse::<u16>().ok(), "u16 of {:?}", text);
    }
}

#[test]
fn writing_numbers_agrees_with_the_standard_library() {
    for n in [0u64, 1, 9, 10, 11, 99, 100, 101, 65535, 4294967296, u64::MAX - 1, u64::MAX] {
        assert_eq!(u64_to_string(n), n.to_string());
        assert_eq!(parse_u64(&u64_to_string(n)), Some(n));
    }
}

#[test]
fn strings_are_compared() {
    assert!(str_eq("abc", "abc"));
    assert!(!str_eq("abc", "abd"));
    assert!(!str_eq("abc", "ab"));
    assert!(str_eq("", ""));
    assert!(bytes_eq(b"\x00\xff", b"\x00\xff"));
    assert!(!bytes_eq(b"a", b""));
}

#[test]
fn strings_are_ordered_as_the_standard_library_orders_them() {
    let texts = ["", "a", "ab", "abc", "abd", "b", "B", "\u{e9}", "z\u{e9}", "\u{1f600}", "~"];
    for a in texts {
        for b in texts {
            assert_eq!(str_less(a, b), a < b, "{:?} < {:?}", a, b);
            assert_eq!(bytes_less(a.as_bytes(), b.as_bytes()), a.as_bytes() < b.as_bytes());
        }
    }
}

#[test]
fn ascii_bytes_become_a_string() {
    assert_eq!(string_from_ascii(b"PXAT".to_vec()), "PXAT");
    assert_eq!(string_from_ascii(vec![]), "");
}
