use todo_list::text::{chars_of, parse_unsigned, push_decimal, trim};

fn decimal_of(n: usize) -> String {
    let mut text = String::new();
    push_decimal(&mut text, n);
    text
}

#[test]
fn chars_of_gives_each_character() {
    assert_eq!(chars_of("a\u{e9}\u{1f600}"), vec!['a', '\u{e9}', '\u{1f600}']);
    assert!(chars_of("").is_empty());
}

#[test]
fn trim_takes_white_space_from_both_ends() {
    assert_eq!(trim("  buy milk \n"), "buy milk");
    assert_eq!(trim("\t1\r\n"), "1");
    assert_eq!(trim("a  b"), "a  b");
    assert_eq!(trim("x"), "x");
}

#[test]
fn trim_of_white_space_alone_is_empty() {
    assert_eq!(trim(""), "");
    assert_eq!(trim(" \t\r\n"), "");
}

#[test]
fn trim_knows_white_space_beyond_ascii() {
    assert_eq!(trim("\u{a0}\u{2003}a\u{3000}"), "a");
    assert_eq!(trim("\u{e9} "), "\u{e9}");
}

#[test]
fn trim_agrees_with_std() {
    for text in ["", " ", " a", "a ", " a b ", "\n\na\n", "\u{85}x\u{85}", "\u{200b}x", "_ _"] {
        assert_eq!(trim(text), text.trim());
    }
}

#[test]
fn parse_unsigned_reads_decimal_numbers() {
    assert_eq!(parse_unsigned("0"), Some(0));
    assert_eq!(parse_unsigned("7"), Some(7));
    assert_eq!(parse_unsigned("42"), Some(42));
    assert_eq!(parse_unsigned("007"), Some(7));
    assert_eq!(parse_unsigned("1234567890"), Some(1234567890));
}

#[test]
fn parse_unsigned_accepts_one_plus_sign() {
    assert_eq!(parse_unsigned("+7"), Some(7));
    assert_eq!(parse_unsigned("++7"), None);
    assert_eq!(parse_unsigned("+"), None);
    assert_eq!(parse_unsigned("7+"), None);
}

#[test]
fn parse_unsigned_refuses_what_is_no_number() {
    assert_eq!(parse_unsigned(""), None);
    assert_eq!(parse_unsigned("abc"), None);
    assert_eq!(parse_unsigned("-1"), None);
    assert_eq!(parse_unsigned("-0"), None);
    assert_eq!(parse_unsigned("1.5"), None);
    assert_eq!(parse_unsigned("1 "), None);
    assert_eq!(parse_unsigned(" 1"), None);
    assert_eq!(parse_unsigned("1_000"), None);
    assert_eq!(parse_unsigned("\u{661}"), None);
    assert_eq!(parse_unsigned("12x"), None);
}

#[test]
fn parse_unsigned_refuses_what_does_not_fit() {
    let max = format!("{}", usize::MAX);
    assert_eq!(parse_unsigned(max.as_str()), Some(usize::MAX));
    let beyond = format!("{}", usize::MAX as u128 + 1);
    assert_eq!(parse_unsigned(beyond.as_str()), None);
    let tenfold = format!("{}0", usize::MAX);
    assert_eq!(parse_unsigned(tenfold.as_str()), None);
    assert_eq!(parse_unsigned("99999999999999999999999999999999999999999"), None);
    assert_eq!(parse_unsigned("99999999999999999999999999999999999999999x"), None);
}

#[test]
fn parse_unsigned_agrees_with_std() {
    for text in ["", "+", "-", "0", "+0", "-0", "00", "10", "+10", "1e3", "0x10", "18446744073709551615", "18446744073709551616"] {
        assert_eq!(parse_unsigned(text), text.parse::<usize>().ok());
    }
}

#[test]
fn push_decimal_writes_the_digits() {
    assert_eq!(decimal_of(0), "0");
    assert_eq!(decimal_of(7), "7");
    assert_eq!(decimal_of(10), "10");
    assert_eq!(decimal_of(12345), "12345");
    assert_eq!(decimal_of(usize::MAX), format!("{}", usize::MAX));
}

#[test]
fn push_decimal_appends() {
    let mut text = String::from("n=");
    push_decimal(&mut text, 908);
    assert_eq!(text, "n=908");
}

#[test]
fn decimal_digits_read_back() {
    for n in [0usize, 1, 9, 10, 99, 100, 65535, usize::MAX] {
        assert_eq!(parse_unsigned(decimal_of(n).as_str()), Some(n));
    }
}
