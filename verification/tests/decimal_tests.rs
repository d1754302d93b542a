use croniters::decimal::{format_int, parse_decimal, push_decimal};

#[test]
fn parse_decimal_reads_plain_numerals() {
    assert_eq!(parse_decimal("0"), Some(0));
    assert_eq!(parse_decimal("7"), Some(7));
    assert_eq!(parse_decimal("59"), Some(59));
    assert_eq!(parse_decimal("2099"), Some(2099));
}

#[test]
fn parse_decimal_ignores_leading_zeros() {
    assert_eq!(parse_decimal("0059"), Some(59));
    assert_eq!(parse_decimal("000000000000000000000000000001"), Some(1));
    assert_eq!(parse_decimal("0000000000000000000000"), Some(0));
}

#[test]
fn parse_decimal_stops_at_the_greatest_i32() {
    assert_eq!(parse_decimal("2147483647"), Some(i32::MAX));
    assert_eq!(parse_decimal("2147483648"), None);
    assert_eq!(parse_decimal("99999999999"), None);
    assert_eq!(parse_decimal("00002147483648"), None);
    assert_eq!(parse_decimal("184467440737095516160000000000000000000"), None);
}

#[test]
fn parse_decimal_refuses_what_is_no_numeral() {
    assert_eq!(parse_decimal(""), None);
    assert_eq!(parse_decimal("-1"), None);
    assert_eq!(parse_decimal("+1"), None);
    assert_eq!(parse_decimal("1 "), None);
    assert_eq!(parse_decimal("1a"), None);
    assert_eq!(parse_decimal("a1"), None);
    assert_eq!(parse_decimal("1.5"), None);
    assert_eq!(parse_decimal("\u{0663}"), None);
    assert_eq!(parse_decimal("1\u{00e9}"), None);
    assert_eq!(parse_decimal("99999999999x"), None);
}

#[test]
fn parse_decimal_agrees_with_std_on_numerals() {
    let mut n: i64 = 0;
    while n <= i32::MAX as i64 + 5000 {
        let text = format!("{}", n);
        assert_eq!(parse_decimal(&text), text.parse::<i32>().ok(), "{}", text);
        let padded = format!("00{}", n);
        assert_eq!(parse_decimal(&padded), padded.parse::<i32>().ok(), "{}", padded);
        n = n * 3 + 7;
    }
}

#[test]
fn format_int_writes_the_shortest_numeral() {
    assert_eq!(format_int(0), "0");
    assert_eq!(format_int(9), "9");
    assert_eq!(format_int(10), "10");
    assert_eq!(format_int(2099), "2099");
    assert_eq!(format_int(4294967293), "4294967293");
}

#[test]
fn format_int_writes_a_minus_sign() {
    assert_eq!(format_int(-1), "-1");
    assert_eq!(format_int(-120), "-120");
}

#[test]
fn format_int_reaches_both_ends_of_i64() {
    assert_eq!(format_int(i64::MAX), "9223372036854775807");
    assert_eq!(format_int(i64::MIN), "-9223372036854775808");
}

#[test]
fn format_int_agrees_with_std() {
    let mut n: i64 = 1;
    while n < i64::MAX / 7 {
        assert_eq!(format_int(n), n.to_string());
        assert_eq!(format_int(-n), (-n).to_string());
        n = n * 7 + 3;
    }
}

#[test]
fn push_decimal_appends_to_what_is_there() {
    let mut out = String::from("x=");
    push_decimal(&mut out, 1970);
    assert_eq!(out, "x=1970");
    push_decimal(&mut out, 0);
    assert_eq!(out, "x=19700");
    push_decimal(&mut out, u64::MAX);
    assert_eq!(out, "x=1970018446744073709551615");
}

#[test]
fn written_numbers_read_back() {
    let mut n: i32 = 0;
    while n < i32::MAX / 11 {
        assert_eq!(parse_decimal(&format_int(n as i64)), Some(n));
        n = n * 11 + 5;
    }
    assert_eq!(parse_decimal(&format_int(i32::MAX as i64)), Some(i32::MAX));
}
