use omaveil::text::{
    chars_of, chars_range, contains_chars, format_i32, format_usize, is_space_char, matches_at,
    parse_i32, parse_usize, push_decimal, NumberError, skip_spaces, skip_spaces_back, string_of,
    string_of_range, trim,
};

fn chars(s: &str) -> Vec<char> {
    s.chars().collect()
}

#[test]
fn chars_and_back() {
    assert_eq!(chars_of("a\u{e9}\u{1f600}"), vec!['a', '\u{e9}', '\u{1f600}']);
    assert_eq!(chars_of(""), Vec::<char>::new());
    assert_eq!(string_of(&chars("h\u{e9}llo")), "h\u{e9}llo");
    assert_eq!(string_of_range(&chars("hello"), 1, 3), "el");
    assert_eq!(string_of_range(&chars("hello"), 2, 2), "");
    assert_eq!(chars_range(&chars("hello"), 3, 5), vec!['l', 'o']);
}

#[test]
fn white_space_is_the_unicode_set() {
    for c in ['\t', '\n', '\u{b}', '\u{c}', '\r', ' ', '\u{85}', '\u{a0}', '\u{1680}', '\u{2000}',
        '\u{200a}', '\u{2028}', '\u{2029}', '\u{202f}', '\u{205f}', '\u{3000}']
    {
        assert!(is_space_char(c));
    }
    for c in ['a', '0', '\u{8}', '\u{e}', '\u{200b}', '\u{feff}', '\u{1f}', '"'] {
        assert!(!is_space_char(c));
    }
}

#[test]
fn white_space_agrees_with_the_standard_library() {
    let mut u = 0u32;
    while u < 0x11000 {
        if let Some(c) = char::from_u32(u) {
            assert_eq!(is_space_char(c), c.is_whitespace());
        }
        u += 1;
    }
}

#[test]
fn trim_removes_both_ends() {
    assert_eq!(trim("  a b \n"), "a b");
    assert_eq!(trim("\u{3000}x\u{a0}"), "x");
    assert_eq!(trim("x"), "x");
    assert_eq!(trim(""), "");
    assert_eq!(trim(" \t\r\n"), "");
    assert_eq!(trim("1\n"), "1");
}

#[test]
fn skipping_spaces() {
    let v = chars("  ab  ");
    assert_eq!(skip_spaces(&v, 0), 2);
    assert_eq!(skip_spaces(&v, 2), 2);
    assert_eq!(skip_spaces(&v, 4), 6);
    assert_eq!(skip_spaces_back(&v, 0, 6), 4);
    assert_eq!(skip_spaces_back(&v, 0, 2), 0);
}

#[test]
fn substring_search() {
    let hay = chars("org.mozilla.firefox");
    assert!(contains_chars(&hay, &chars("firefox")));
    assert!(contains_chars(&hay, &chars("org")));
    assert!(contains_chars(&hay, &chars("")));
    assert!(contains_chars(&hay, &chars("org.mozilla.firefox")));
    assert!(!contains_chars(&hay, &chars("firefoxx")));
    assert!(!contains_chars(&hay, &chars("Firefox")));
    assert!(!contains_chars(&chars(""), &chars("a")));
    assert!(contains_chars(&chars(""), &chars("")));
    assert!(matches_at(&hay, &chars("mozilla"), 4));
    assert!(!matches_at(&hay, &chars("mozilla"), 3));
}

#[test]
fn decimal_of_numbers() {
    assert_eq!(format_usize(0), "0");
    assert_eq!(format_usize(7), "7");
    assert_eq!(format_usize(10), "10");
    assert_eq!(format_usize(1234567890), "1234567890");
    assert_eq!(format_usize(usize::MAX), usize::MAX.to_string());
    assert_eq!(format_i32(0), "0");
    assert_eq!(format_i32(42), "42");
    assert_eq!(format_i32(-98), "-98");
    assert_eq!(format_i32(i32::MAX), "2147483647");
    assert_eq!(format_i32(i32::MIN), "-2147483648");
    let mut s = String::from("n=");
    push_decimal(&mut s, 205);
    assert_eq!(s, "n=205");
}

#[test]
fn numbers_of_text() {
    assert_eq!(parse_usize("0"), Ok(0));
    assert_eq!(parse_usize("1"), Ok(1));
    assert_eq!(parse_usize("007"), Ok(7));
    assert_eq!(parse_usize("+5"), Ok(5));
    assert_eq!(parse_usize(&usize::MAX.to_string()), Ok(usize::MAX));
}

#[test]
fn text_that_is_no_number() {
    assert_eq!(parse_usize(""), Err(NumberError::Empty));
    assert_eq!(parse_usize("+"), Err(NumberError::InvalidDigit));
    assert_eq!(parse_usize("-"), Err(NumberError::InvalidDigit));
    assert_eq!(parse_usize("-1"), Err(NumberError::InvalidDigit));
    assert_eq!(parse_usize("1 "), Err(NumberError::InvalidDigit));
    assert_eq!(parse_usize(" 1"), Err(NumberError::InvalidDigit));
    assert_eq!(parse_usize("abc"), Err(NumberError::InvalidDigit));
    assert_eq!(parse_usize("1a"), Err(NumberError::InvalidDigit));
    assert_eq!(parse_usize("++1"), Err(NumberError::InvalidDigit));
    assert_eq!(parse_usize("\u{661}"), Err(NumberError::InvalidDigit));
    assert_eq!(parse_usize("18446744073709551616"), Err(NumberError::TooLarge));
    assert_eq!(parse_usize("+18446744073709551616"), Err(NumberError::TooLarge));
    assert_eq!(
        parse_usize("99999999999999999999999999999999999999999999"),
        Err(NumberError::TooLarge)
    );
    // what stops the reading first decides
    assert_eq!(parse_usize("99999999999999999999999999x"), Err(NumberError::TooLarge));
    assert_eq!(parse_usize("9x9999999999999999999999999"), Err(NumberError::InvalidDigit));
    assert_eq!(parse_usize("1844674407370955161x"), Err(NumberError::InvalidDigit));
}

#[test]
fn signed_numbers_of_text() {
    assert_eq!(parse_i32("0"), Some(0));
    assert_eq!(parse_i32("-0"), Some(0));
    assert_eq!(parse_i32("3"), Some(3));
    assert_eq!(parse_i32("+3"), Some(3));
    assert_eq!(parse_i32("-98"), Some(-98));
    assert_eq!(parse_i32("2147483647"), Some(i32::MAX));
    assert_eq!(parse_i32("2147483648"), None);
    assert_eq!(parse_i32("-2147483648"), Some(i32::MIN));
    assert_eq!(parse_i32("-2147483649"), None);
    assert_eq!(parse_i32(""), None);
    assert_eq!(parse_i32("-"), None);
    assert_eq!(parse_i32("+"), None);
    assert_eq!(parse_i32("--1"), None);
    assert_eq!(parse_i32("+-1"), None);
    assert_eq!(parse_i32("1.5"), None);
}

#[test]
fn numbers_of_text_agree_with_the_standard_library() {
    for s in ["0", "12", "+12", "-12", "", "+", "-", "0012", "4294967296", "x", "1x", "-0", " 1"] {
        assert_eq!(parse_usize(s).ok(), s.parse::<usize>().ok());
        assert_eq!(parse_i32(s), s.parse::<i32>().ok());
    }
    for s in [
        "",
        "+",
        "-",
        "x",
        "1x",
        "-0",
        " 1",
        "18446744073709551616",
        "99999999999999999999999999x",
        "9x9999999999999999999999999",
        "1844674407370955161x",
        "+-1",
    ] {
        let ours = omaveil::messages::number_error_message(parse_usize(s).unwrap_err());
        assert_eq!(ours, s.parse::<usize>().unwrap_err().to_string());
    }
}
