use rustworking_core::text::{decimal_string, join, parse_i32, split};

fn owned(pieces: &[&str]) -> Vec<String> {
    pieces.iter().map(|piece| piece.to_string()).collect()
}

#[test]
fn split_gives_every_piece() {
    assert_eq!(split("10.0.0.1", '.'), owned(&["10", "0", "0", "1"]));
    assert_eq!(split("", '.'), owned(&[""]));
    assert_eq!(split("abc", '.'), owned(&["abc"]));
    assert_eq!(split(".", '.'), owned(&["", ""]));
    assert_eq!(split("a..b.", '.'), owned(&["a", "", "b", ""]));
    assert_eq!(split("é/ü", '/'), owned(&["é", "ü"]));
}

#[test]
fn split_agrees_with_std() {
    for text in ["", "/", "a/b", "//", "10.0.0.1/24", "a/b/c/", "/x"] {
        let expected: Vec<String> = text.split('/').map(String::from).collect();
        assert_eq!(split(text, '/'), expected);
    }
}

#[test]
fn join_puts_the_separator_between_neighbours() {
    assert_eq!(join(&owned(&["10", "0", "0", "1"]), "."), "10.0.0.1");
    assert_eq!(join(&owned(&[]), "."), "");
    assert_eq!(join(&owned(&["solo"]), "."), "solo");
    assert_eq!(join(&owned(&["", ""]), "."), ".");
    assert_eq!(join(&owned(&["a", "b"]), ", "), "a, b");
}

#[test]
fn join_undoes_split() {
    for text in ["", ".", "1.2.3.4", "..x..", "no dots"] {
        assert_eq!(join(&split(text, '.'), "."), text);
    }
}

#[test]
fn decimal_string_writes_numbers() {
    assert_eq!(decimal_string(0), "0");
    assert_eq!(decimal_string(7), "7");
    assert_eq!(decimal_string(10), "10");
    assert_eq!(decimal_string(254), "254");
    assert_eq!(decimal_string(-1), "-1");
    assert_eq!(decimal_string(-120), "-120");
    assert_eq!(decimal_string(i64::MAX), "9223372036854775807");
    assert_eq!(decimal_string(i64::MIN), "-9223372036854775808");
}

#[test]
fn decimal_string_agrees_with_std() {
    for n in -1100i64..1100 {
        assert_eq!(decimal_string(n), n.to_string());
    }
}

#[test]
fn parse_i32_reads_signed_decimals() {
    assert_eq!(parse_i32("0"), Some(0));
    assert_eq!(parse_i32("5"), Some(5));
    assert_eq!(parse_i32("007"), Some(7));
    assert_eq!(parse_i32("+42"), Some(42));
    assert_eq!(parse_i32("-42"), Some(-42));
    assert_eq!(parse_i32("-0"), Some(0));
    assert_eq!(parse_i32("2147483647"), Some(i32::MAX));
    assert_eq!(parse_i32("-2147483648"), Some(i32::MIN));
}

#[test]
fn parse_i32_rejects_everything_else() {
    for text in [
        "", "+", "-", "--1", "+-1", "1 ", " 1", "1.0", "0x10", "abc", "12a", "a12", "2147483648",
        "-2147483649", "99999999999999999999", "１２",
    ] {
        assert_eq!(parse_i32(text), None);
    }
}

#[test]
fn parse_i32_agrees_with_std() {
    for text in ["0", "-0", "+0", "255", "256", "-1", "2147483647", "2147483648", "", "x", "1x"] {
        assert_eq!(parse_i32(text), text.parse::<i32>().ok());
    }
    for n in -300i32..300 {
        assert_eq!(parse_i32(&n.to_string()), Some(n));
    }
}
