use rebot::text::{
    chars_of, contains, decimal_string, is_whitespace, parse_trimmed_unsigned, parse_unsigned,
    push_decimal, push_digits, same_text, starts_with, text_is,
};

#[test]
fn chars_of_a_string() {
    assert_eq!(chars_of(""), Vec::<char>::new());
    assert_eq!(chars_of("aé€😀"), vec!['a', 'é', '€', '😀']);
}

#[test]
fn same_text_compares_characters() {
    assert!(same_text("", ""));
    assert!(same_text("GET", "GET"));
    assert!(same_text("mésange", "mésange"));
    assert!(!same_text("GET", "GE"));
    assert!(!same_text("GE", "GET"));
    assert!(!same_text("GET", "GEt"));
    assert!(!same_text("", "a"));
    assert!(!same_text("e\u{301}", "é"));
}

#[test]
fn text_is_compares_with_characters() {
    assert!(text_is("abc", &vec!['a', 'b', 'c']));
    assert!(text_is("", &vec![]));
    assert!(!text_is("abc", &vec!['a', 'b']));
    assert!(!text_is("ab", &vec!['a', 'b', 'c']));
    assert!(!text_is("abd", &vec!['a', 'b', 'c']));
}

#[test]
fn starts_with_a_prefix() {
    assert!(starts_with("", ""));
    assert!(starts_with("abc", ""));
    assert!(starts_with("abc", "a"));
    assert!(starts_with("abc", "abc"));
    assert!(starts_with("éa", "é"));
    assert!(!starts_with("abc", "abcd"));
    assert!(!starts_with("abc", "b"));
    assert!(!starts_with("", "a"));
    assert!(!starts_with("ea", "é"));
}

#[test]
fn contains_a_pattern() {
    assert!(contains("", ""));
    assert!(contains("abc", ""));
    assert!(contains("abc", "abc"));
    assert!(contains("abc", "a"));
    assert!(contains("abc", "bc"));
    assert!(contains("aab", "ab"));
    assert!(contains("ééa€", "éa"));
    assert!(!contains("", "a"));
    assert!(!contains("abc", "abcd"));
    assert!(!contains("abc", "ac"));
    assert!(!contains("abc", "cb"));
}

#[test]
fn decimal_numerals() {
    assert_eq!(decimal_string(0), "0");
    assert_eq!(decimal_string(7), "7");
    assert_eq!(decimal_string(10), "10");
    assert_eq!(decimal_string(1234567890), "1234567890");
    assert_eq!(decimal_string(-1), "-1");
    assert_eq!(decimal_string(-305), "-305");
    assert_eq!(decimal_string(i64::MAX), "9223372036854775807");
    assert_eq!(decimal_string(i64::MIN), "-9223372036854775808");
}

#[test]
fn numerals_are_appended() {
    let mut out = String::from("n=");
    push_digits(&mut out, 0);
    push_digits(&mut out, u64::MAX);
    assert_eq!(out, "n=018446744073709551615");
    push_decimal(&mut out, -42);
    assert_eq!(out, "n=018446744073709551615-42");
}

const NUMERALS: [&str; 34] = [
    "",
    "0",
    "7",
    "+7",
    "-7",
    "-0",
    "+",
    "-",
    "++7",
    "+-7",
    "007",
    "+007",
    "65535",
    "65536",
    "065535",
    "4294967295",
    "4294967296",
    "18446744073709551615",
    "18446744073709551616",
    "000000000000000000000000000018446744073709551615",
    "99999999999999999999999999",
    "1 2",
    " 12",
    "12 ",
    "\t12\n",
    "\u{a0}12\u{3000}",
    "\u{200b}12",
    "12a",
    "a12",
    "1.0",
    "1e3",
    "0x10",
    "١٢",
    "１２",
];

#[test]
fn white_space_is_what_the_standard_library_says() {
    for code in 0..=0x3100u32 {
        if let Some(c) = char::from_u32(code) {
            assert_eq!(is_whitespace(c), c.is_whitespace(), "{:x}", code);
        }
    }
    assert!(!is_whitespace('\u{feff}'));
    assert!(!is_whitespace('\u{10ffff}'));
}

#[test]
fn unsigned_numerals_are_read_as_the_standard_library_reads_them() {
    for text in NUMERALS {
        assert_eq!(parse_unsigned(text, 65535), text.parse::<u16>().ok().map(u64::from), "{:?}", text);
        assert_eq!(parse_unsigned(text, 4294967295), text.parse::<u32>().ok().map(u64::from), "{:?}", text);
        assert_eq!(parse_unsigned(text, u64::MAX), text.parse::<u64>().ok(), "{:?}", text);
    }
}

#[test]
fn trimmed_numerals_are_read_as_the_standard_library_reads_them() {
    for text in NUMERALS {
        assert_eq!(
            parse_trimmed_unsigned(text, 65535),
            text.trim().parse::<u16>().ok().map(u64::from),
            "{:?}",
            text
        );
        assert_eq!(parse_trimmed_unsigned(text, u64::MAX), text.trim().parse::<u64>().ok(), "{:?}", text);
    }
}

#[test]
fn unsigned_numerals() {
    assert_eq!(parse_unsigned("8000", 65535), Some(8000));
    assert_eq!(parse_unsigned("+60", 65535), Some(60));
    assert_eq!(parse_unsigned("65536", 65535), None);
    assert_eq!(parse_unsigned(" 8000", 65535), None);
    assert_eq!(parse_unsigned("5", 0), None);
    assert_eq!(parse_unsigned("0", 0), Some(0));
    assert_eq!(parse_unsigned("00", 9), Some(0));
    assert_eq!(parse_unsigned("10", 9), None);
    assert_eq!(parse_trimmed_unsigned("  8000\r\n", 65535), Some(8000));
    assert_eq!(parse_trimmed_unsigned("   ", 65535), None);
    assert_eq!(parse_trimmed_unsigned("", 65535), None);
    assert_eq!(parse_trimmed_unsigned(" + 1", 65535), None);
}
