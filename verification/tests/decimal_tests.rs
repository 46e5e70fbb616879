use motorsport_calendar_website::decimal::{i32_decimal, parse_i32, u64_decimal};

#[test]
fn writes_decimal() {
    assert_eq!(u64_decimal(0), "0");
    assert_eq!(u64_decimal(7), "7");
    assert_eq!(u64_decimal(1234567890), "1234567890");
    assert_eq!(u64_decimal(u64::MAX), u64::MAX.to_string());
    assert_eq!(i32_decimal(-42), "-42");
    assert_eq!(i32_decimal(i32::MIN), "-2147483648");
    assert_eq!(i32_decimal(i32::MAX), "2147483647");
}

#[test]
fn parses_i32_like_std() {
    for text in ["0", "42", "-42", "+42", "007", "-0", "", "-", "+", "4 2", "2147483647", "2147483648",
        "-2147483648", "-2147483649", "99999999999999999999", "12a", "a12", "--1", "+-1"] {
        assert_eq!(parse_i32(text), text.parse::<i32>().ok(), "{:?}", text);
    }
}

#[test]
fn decimal_round_trip() {
    for i in [0, 1, -1, 9, 10, -10, 12345, i32::MAX, i32::MIN] {
        assert_eq!(parse_i32(&i32_decimal(i)), Some(i));
    }
}
