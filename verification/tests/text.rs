use ktnack::text::{
    push_escaped_line,
    char_is_whitespace, chars_eq, chars_match, ends_with_chars, from_chars, i64_to_decimal,
    parse_i64, replace_pair_chars, str_eq, to_chars, trim_chars, u64_to_decimal,
};

fn chars(s: &str) -> Vec<char> {
    s.chars().collect()
}

#[test]
fn to_chars_and_back() {
    assert_eq!(to_chars("héllo ✓"), chars("héllo ✓"));
    assert_eq!(from_chars(&chars("héllo ✓")), "héllo ✓");
    assert_eq!(to_chars(""), Vec::<char>::new());
    assert_eq!(from_chars(&Vec::new()), "");
}

#[test]
fn string_comparisons() {
    assert!(str_eq("while", "while"));
    assert!(!str_eq("while", "whil"));
    assert!(!str_eq("whil", "while"));
    assert!(!str_eq("while", "whale"));
    assert!(str_eq("", ""));
    assert!(chars_match(&chars("do"), "do"));
    assert!(!chars_match(&chars("do"), "d"));
    assert!(!chars_match(&chars("d"), "do"));
    assert!(chars_eq(&chars("abc"), &chars("abc")));
    assert!(!chars_eq(&chars("abc"), &chars("abd")));
    assert!(!chars_eq(&chars("abc"), &chars("ab")));
}

#[test]
fn suffixes() {
    assert!(ends_with_chars(&chars("abc\""), &chars("\"")));
    assert!(ends_with_chars(&chars("abc\\\""), &chars("\\\"")));
    assert!(!ends_with_chars(&chars("abc"), &chars("\"")));
    assert!(!ends_with_chars(&chars("\""), &chars("\\\"")));
    assert!(ends_with_chars(&chars("abc"), &chars("")));
    assert!(ends_with_chars(&chars(""), &chars("")));
}

#[test]
fn decimal_of_unsigned() {
    assert_eq!(u64_to_decimal(0), "0");
    assert_eq!(u64_to_decimal(7), "7");
    assert_eq!(u64_to_decimal(10), "10");
    assert_eq!(u64_to_decimal(32768), "32768");
    assert_eq!(u64_to_decimal(u64::MAX), "18446744073709551615");
}

#[test]
fn decimal_of_signed() {
    assert_eq!(i64_to_decimal(0), "0");
    assert_eq!(i64_to_decimal(-1), "-1");
    assert_eq!(i64_to_decimal(49), "49");
    assert_eq!(i64_to_decimal(i64::MAX), "9223372036854775807");
    assert_eq!(i64_to_decimal(i64::MIN), "-9223372036854775808");
}

#[test]
fn decimal_agrees_with_the_standard_library() {
    let mut n: u64 = 1;
    for _ in 0..64 {
        assert_eq!(u64_to_decimal(n), n.to_string());
        assert_eq!(u64_to_decimal(n - 1), (n - 1).to_string());
        assert_eq!(i64_to_decimal(n as i64), (n as i64).to_string());
        assert_eq!(i64_to_decimal((n as i64).wrapping_neg()), (n as i64).wrapping_neg().to_string());
        n = n.wrapping_mul(2);
    }
}

#[test]
fn parses_integers() {
    assert_eq!(parse_i64(&chars("0")), Some(0));
    assert_eq!(parse_i64(&chars("42")), Some(42));
    assert_eq!(parse_i64(&chars("-42")), Some(-42));
    assert_eq!(parse_i64(&chars("+42")), Some(42));
    assert_eq!(parse_i64(&chars("-0")), Some(0));
    assert_eq!(parse_i64(&chars("007")), Some(7));
    assert_eq!(parse_i64(&chars("9223372036854775807")), Some(i64::MAX));
    assert_eq!(parse_i64(&chars("-9223372036854775808")), Some(i64::MIN));
    assert_eq!(
        parse_i64(&chars("000000000000000000000000000000000000000012")),
        Some(12)
    );
}

#[test]
fn refuses_what_is_no_integer() {
    assert_eq!(parse_i64(&chars("")), None);
    assert_eq!(parse_i64(&chars("+")), None);
    assert_eq!(parse_i64(&chars("-")), None);
    assert_eq!(parse_i64(&chars("--1")), None);
    assert_eq!(parse_i64(&chars("1-")), None);
    assert_eq!(parse_i64(&chars("12a")), None);
    assert_eq!(parse_i64(&chars(" 12")), None);
    assert_eq!(parse_i64(&chars("1.5")), None);
    assert_eq!(parse_i64(&chars("٣")), None);
    assert_eq!(parse_i64(&chars("9223372036854775808")), None);
    assert_eq!(parse_i64(&chars("+9223372036854775808")), None);
    assert_eq!(parse_i64(&chars("-9223372036854775809")), None);
    assert_eq!(parse_i64(&chars("99999999999999999999999999")), None);
}

#[test]
fn parsing_agrees_with_the_standard_library() {
    let samples = [
        "0", "-0", "+0", "1", "-1", "+1", "", "+", "-", "a", "1a", "a1", "١", "1 ", " 1",
        "9223372036854775806", "9223372036854775807", "9223372036854775808",
        "-9223372036854775807", "-9223372036854775808", "-9223372036854775809",
        "18446744073709551615", "18446744073709551616", "0000000000000000000000000",
        "00000000000000000000000009223372036854775807", "1_000", "0x10", "++1", "+-1",
    ];
    for sample in samples {
        assert_eq!(parse_i64(&chars(sample)), sample.parse::<i64>().ok(), "{:?}", sample);
    }
}

#[test]
fn white_space_agrees_with_the_standard_library() {
    for code in 0..=0x10FFFFu32 {
        if let Some(c) = char::from_u32(code) {
            assert_eq!(char_is_whitespace(c), c.is_whitespace(), "U+{:X}", code);
        }
    }
}

#[test]
fn trims_both_ends() {
    assert_eq!(trim_chars(&chars("  ab c \t\n")), chars("ab c"));
    assert_eq!(trim_chars(&chars("\u{a0}x\u{3000}")), chars("x"));
    assert_eq!(trim_chars(&chars(" \t ")), chars(""));
    assert_eq!(trim_chars(&chars("")), chars(""));
    assert_eq!(trim_chars(&chars("abc")), chars("abc"));
}

#[test]
fn replaces_pairs_from_left_to_right() {
    assert_eq!(replace_pair_chars(&chars("a\\nb"), '\\', 'n', '\n'), chars("a\nb"));
    assert_eq!(replace_pair_chars(&chars("\\n\\n"), '\\', 'n', '\n'), chars("\n\n"));
    assert_eq!(replace_pair_chars(&chars("\\\\n"), '\\', '\\', '\\'), chars("\\n"));
    assert_eq!(replace_pair_chars(&chars("\\\\\\"), '\\', '\\', '\\'), chars("\\\\"));
    assert_eq!(replace_pair_chars(&chars("aaa"), 'a', 'a', 'b'), chars("ba"));
    assert_eq!(replace_pair_chars(&chars("abc"), 'x', 'y', 'z'), chars("abc"));
    assert_eq!(replace_pair_chars(&chars(""), 'x', 'y', 'z'), chars(""));
    assert_eq!(replace_pair_chars(&chars("x"), 'x', 'y', 'z'), chars("x"));
}

#[test]
fn replacing_agrees_with_the_standard_library() {
    let samples = ["", "a", "aa", "aaa", "aaaa", "abab", "aab", "baa", "xaay", "ab\\n\\\\n"];
    for sample in samples {
        let ours: String = replace_pair_chars(&chars(sample), 'a', 'a', 'b').into_iter().collect();
        assert_eq!(ours, sample.replace("aa", "b"));
        let ours: String = replace_pair_chars(&chars(sample), 'a', 'b', 'a').into_iter().collect();
        assert_eq!(ours, sample.replace("ab", "a"));
        let ours: String =
            replace_pair_chars(&chars(sample), '\\', 'n', '\n').into_iter().collect();
        assert_eq!(ours, sample.replace("\\n", "\n"));
    }
}

#[test]
fn a_text_is_written_on_one_line() {
    let escaped = |text: &str| {
        let mut out = String::from("<");
        push_escaped_line(&mut out, text);
        out
    };
    assert_eq!(escaped(""), "<");
    assert_eq!(escaped("hi there"), "<hi there");
    assert_eq!(escaped("é! \"q\" 'c' \t"), "<é! \"q\" 'c' \t");
    assert_eq!(escaped("a\nb"), "<a\\nb");
    assert_eq!(escaped("a\r\nb"), "<a\\r\\nb");
    assert_eq!(escaped("a\\nb"), "<a\\\\nb");
    assert_eq!(escaped("\n\n"), "<\\n\\n");
    for text in ["", "x", "\n", "\r\n\\", "line\nfeed\n"] {
        assert!(!escaped(text).contains('\n'));
        assert!(!escaped(text).contains('\r'));
    }
}
