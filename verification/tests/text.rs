use statusbar::text::{
    chars, decimal_string, find, is_white_space, join, next_word, parse_u64, parse_u64_in,
    range_is, replace, skip_prefixes, skip_spaces, skip_spaces_back, skip_word, starts_with_at,
    take_lines, trim, NumberError,
};

#[test]
fn chars_are_the_characters_in_order() {
    assert_eq!(chars("a\u{f2db}b"), vec!['a', '\u{f2db}', 'b']);
    assert_eq!(chars(""), Vec::<char>::new());
}

#[test]
fn decimal_string_writes_like_std() {
    for n in [0u64, 1, 9, 10, 11, 42, 99, 100, 101, 1000, 65535, 4294967296, u64::MAX - 1, u64::MAX]
    {
        assert_eq!(decimal_string(n), n.to_string());
    }
    assert_eq!(decimal_string(0), "0");
    assert_eq!(decimal_string(1203), "1203");
    assert_eq!(decimal_string(u64::MAX), "18446744073709551615");
}

#[test]
fn parse_u64_reads_digits_with_or_without_plus() {
    assert_eq!(parse_u64("0"), Ok(0));
    assert_eq!(parse_u64("7"), Ok(7));
    assert_eq!(parse_u64("+7"), Ok(7));
    assert_eq!(parse_u64("007"), Ok(7));
    assert_eq!(parse_u64("16314332"), Ok(16314332));
    assert_eq!(parse_u64("18446744073709551615"), Ok(u64::MAX));
    assert_eq!(parse_u64("+18446744073709551615"), Ok(u64::MAX));
    assert_eq!(parse_u64("00000000000000000000000000018446744073709551615"), Ok(u64::MAX));
}

#[test]
fn parse_u64_says_what_is_wrong() {
    assert_eq!(parse_u64(""), Err(NumberError::Empty));
    assert_eq!(parse_u64("+"), Err(NumberError::InvalidDigit));
    assert_eq!(parse_u64("-"), Err(NumberError::InvalidDigit));
    assert_eq!(parse_u64("-1"), Err(NumberError::InvalidDigit));
    assert_eq!(parse_u64("++1"), Err(NumberError::InvalidDigit));
    assert_eq!(parse_u64("12a"), Err(NumberError::InvalidDigit));
    assert_eq!(parse_u64(" 1"), Err(NumberError::InvalidDigit));
    assert_eq!(parse_u64("1 "), Err(NumberError::InvalidDigit));
    assert_eq!(parse_u64("\u{661}"), Err(NumberError::InvalidDigit));
    assert_eq!(parse_u64("18446744073709551616"), Err(NumberError::Overflow));
    assert_eq!(parse_u64("99999999999999999999"), Err(NumberError::Overflow));
}

#[test]
fn parse_u64_reports_the_first_fault() {
    assert_eq!(parse_u64("99999999999999999999x"), Err(NumberError::Overflow));
    assert_eq!(parse_u64("9x9999999999999999999"), Err(NumberError::InvalidDigit));
}

#[test]
fn parse_u64_agrees_with_std() {
    for s in [
        "", "+", "-", "0", "+0", "-0", "42", "4 2", "1e3", "0x10", "18446744073709551615",
        "18446744073709551616", "184467440737095516150", "99999999999999999999x", "x1", "1_000",
    ] {
        match (parse_u64(s), s.parse::<u64>()) {
            (Ok(a), Ok(b)) => assert_eq!(a, b),
            (Err(e), Err(std_err)) => assert_eq!(e.message(), std_err.to_string()),
            (ours, theirs) => panic!("{s:?}: {ours:?} against {theirs:?}"),
        }
    }
}

#[test]
fn number_error_messages() {
    assert_eq!(NumberError::Empty.message(), "cannot parse integer from empty string");
    assert_eq!(NumberError::InvalidDigit.message(), "invalid digit found in string");
    assert_eq!(NumberError::Overflow.message(), "number too large to fit in target type");
}

#[test]
fn parse_u64_in_reads_a_range() {
    let v = chars("ab 123 cd");
    assert_eq!(parse_u64_in(&v, 3, 6), Ok(123));
    assert_eq!(parse_u64_in(&v, 3, 3), Err(NumberError::Empty));
    assert_eq!(parse_u64_in(&v, 2, 6), Err(NumberError::InvalidDigit));
    assert_eq!(parse_u64_in(&v, 4, 5), Ok(2));
}

#[test]
fn white_space_is_what_unicode_says() {
    let mut code: u32 = 0;
    while code <= 0x10ffff {
        if let Some(c) = char::from_u32(code) {
            assert_eq!(is_white_space(c), c.is_whitespace(), "U+{code:04X}");
        }
        code += 1;
    }
}

#[test]
fn trim_agrees_with_std() {
    for s in [
        "", " ", "a", " a", "a ", "  a b  ", "\t\n x \r\n", "\u{a0}x\u{3000}", "\u{f2db} 3%",
        "   ", "a\u{2003}", "\u{200b}a",
    ] {
        assert_eq!(trim(s), s.trim());
    }
    assert_eq!(trim("  87 \n"), "87");
}

#[test]
fn take_lines_keeps_line_feeds() {
    assert_eq!(take_lines("a\nb\nc", 0), "");
    assert_eq!(take_lines("a\nb\nc", 1), "a\n");
    assert_eq!(take_lines("a\nb\nc", 2), "a\nb\n");
    assert_eq!(take_lines("a\nb\nc", 3), "a\nb\nc");
    assert_eq!(take_lines("a\nb\nc", 4), "a\nb\nc");
    assert_eq!(take_lines("", 3), "");
    assert_eq!(take_lines("\n\n", 1), "\n");
    assert_eq!(take_lines("x\r\ny", 1), "x\r\n");
    assert_eq!(take_lines("\u{f2db}\n\u{f538}\n", 1), "\u{f2db}\n");
}

#[test]
fn scanning_finds_the_ends() {
    let v = chars("  ab  cd:e\nf");
    assert_eq!(skip_spaces(&v, 0, v.len()), 2);
    assert_eq!(skip_spaces(&v, 2, v.len()), 2);
    assert_eq!(skip_spaces(&v, 0, 1), 1);
    assert_eq!(skip_word(&v, 2, v.len()), 4);
    assert_eq!(skip_word(&v, 6, v.len()), 10);
    assert_eq!(skip_spaces_back(&v, 0, 6), 4);
    assert_eq!(skip_spaces_back(&v, 0, 2), 0);
    assert_eq!(find(&v, 0, v.len(), ':'), 8);
    assert_eq!(find(&v, 0, v.len(), '\n'), 10);
    assert_eq!(find(&v, 0, v.len(), '#'), v.len());
    assert_eq!(next_word(&v, 0, v.len()), (2, 4));
    assert_eq!(next_word(&v, 4, v.len()), (6, 10));
    assert_eq!(next_word(&v, 12, v.len()), (12, 12));
}

#[test]
fn prefixes_and_ranges() {
    let v = chars("cpucpu 12");
    let cpu = chars("cpu");
    assert!(starts_with_at(&v, 0, v.len(), &cpu));
    assert!(starts_with_at(&v, 3, v.len(), &cpu));
    assert!(starts_with_at(&v, 3, 6, &cpu));
    assert!(!starts_with_at(&v, 3, 5, &cpu));
    assert!(!starts_with_at(&v, 1, v.len(), &cpu));
    assert!(!starts_with_at(&v, 7, v.len(), &cpu));
    assert!(starts_with_at(&v, 9, 9, &Vec::new()));
    assert!(starts_with_at(&v, 2, 2, &Vec::new()));
    assert_eq!(skip_prefixes(&v, 0, v.len(), &cpu), 6);
    assert_eq!(skip_prefixes(&v, 0, 5, &cpu), 3);
    assert_eq!(skip_prefixes(&v, 0, 2, &cpu), 0);
    assert_eq!(skip_prefixes(&v, 1, v.len(), &cpu), 1);
    assert_eq!(skip_prefixes(&v, 0, v.len(), &Vec::new()), 0);
    assert!(range_is(&v, 0, 3, "cpu"));
    assert!(range_is(&v, 7, 9, "12"));
    assert!(!range_is(&v, 0, 4, "cpu"));
    assert!(!range_is(&v, 0, 3, "cpx"));
    assert!(range_is(&v, 2, 2, ""));
}

#[test]
fn replace_agrees_with_std() {
    for (template, marker, value) in [
        ("\u{f2db} {}%", "{}", "42"),
        ("a {} b {}", "{}", "X"),
        ("{}{}", "{}", ""),
        ("abc", "", "-"),
        ("", "", "-"),
        ("", "x", "-"),
        ("aaa", "aa", "b"),
        ("aaaa", "aa", "b"),
        ("x", "xyz", "q"),
        ("{} and {", "{}", "{}"),
        ("no marker", "{}", "v"),
        ("\u{f017} {}", "{}", "12:30"),
        ("ab", "b", "bb"),
    ] {
        assert_eq!(replace(template, marker, value), template.replace(marker, value));
    }
    assert_eq!(replace(" {}%", "{}", "42"), " 42%");
    assert_eq!(replace("abc", "", "-"), "-a-b-c-");
    assert_eq!(replace("aaa", "aa", "b"), "ba");
}

#[test]
fn join_puts_the_separator_between() {
    let parts = vec!["a".to_string(), "b".to_string(), "c".to_string()];
    assert_eq!(join(&parts, " | "), "a | b | c");
    assert_eq!(join(&parts, ""), "abc");
    assert_eq!(join(&parts[..1].to_vec(), ", "), "a");
    assert_eq!(join(&Vec::new(), ", "), "");
    let blanks = vec![String::new(), String::new()];
    assert_eq!(join(&blanks, "-"), "-");
    assert_eq!(join(&parts, " | "), parts.join(" | "));
}
