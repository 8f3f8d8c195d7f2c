use gpupeek::text::{
    chars_of, ends_with, format_signed, format_unsigned, has_char, is_white, joined, lines,
    parse_signed, parse_unsigned, same, same_text, split, starts_with, string_of, strip_suffixes,
    trim, Separator,
};

fn strings(parts: Vec<&[char]>) -> Vec<String> {
    parts.iter().map(|p| p.iter().collect()).collect()
}

const TEXTS: [&str; 14] = [
    "",
    "\n",
    "a",
    "a\n",
    "a\nb",
    "a\r\nb\r\n",
    "a\r\nb\r",
    "\n\na\n\n",
    "0: 500Mhz\n1: 2500Mhz *\n",
    "  padded \t\u{a0}",
    "\u{3000}wide\u{2003}",
    "one two  three\tfour",
    "01:00.0 \"VGA\" \"AMD\" \"Navi\" -rc8 \"\" \"\"",
    "+-12",
];

#[test]
fn white_space_is_that_of_unicode() {
    for c in (0..=0x10FFFFu32).filter_map(char::from_u32) {
        assert_eq!(is_white(c), c.is_whitespace(), "{:?}", c);
    }
}

#[test]
fn texts_come_apart_and_together() {
    for t in TEXTS {
        let chars = chars_of(t);
        assert_eq!(string_of(&chars), t);
        let trimmed: String = trim(&chars).iter().collect();
        assert_eq!(trimmed, t.trim());
        let expected: Vec<String> = t.lines().map(|l| l.to_string()).collect();
        assert_eq!(strings(lines(&chars)), expected, "{:?}", t);
        let expected: Vec<String> = t.split('"').map(|l| l.to_string()).collect();
        assert_eq!(strings(split(&chars, Separator::Char('"'))), expected);
        let words: Vec<String> = t.split_whitespace().map(|l| l.to_string()).collect();
        let found: Vec<String> =
            strings(split(&chars, Separator::White)).into_iter().filter(|w| !w.is_empty()).collect();
        assert_eq!(found, words);
    }
}

#[test]
fn beginnings_and_ends() {
    let chars = chars_of("card0-DP-1");
    assert!(starts_with(&chars, "card"));
    assert!(starts_with(&chars, ""));
    assert!(!starts_with(&chars, "cart"));
    assert!(!starts_with(&chars_of("car"), "card"));
    assert!(ends_with(&chars, "-1"));
    assert!(!ends_with(&chars, "-2"));
    assert!(has_char(&chars, '-'));
    assert!(!has_char(&chars, '+'));
    assert!(same(&chars_of("ab"), &chars_of("ab")));
    assert!(!same(&chars_of("ab"), &chars_of("abc")));
    assert!(same_text("edge", "edge"));
    assert!(!same_text("edge", "Edge"));
    assert_eq!(joined("vo ", "-50"), "vo -50");
}

#[test]
fn suffixes_are_taken_off_as_often_as_they_stand_there() {
    for t in ["2500Mhz", "MhzMhz", "2500MHzMhz", "2500MhzMHz", "", "Mh"] {
        let chars = chars_of(t);
        let found: String = strip_suffixes(strip_suffixes(&chars, "Mhz"), "MHz").iter().collect();
        assert_eq!(found, t.trim_end_matches("Mhz").trim_end_matches("MHz"));
    }
}

#[test]
fn integers_are_read_as_written() {
    for t in [
        "", "+", "-", "0", "+0", "-0", "007", "12", "+12", "-12", "++1", "1 ", " 1", "1_0", "1.0",
        "255", "4294967295", "4294967296", "2147483647", "2147483648", "-2147483648",
        "-2147483649", "18446744073709551615", "18446744073709551616",
        "99999999999999999999999999", "-99999999999999999999999999", "1x", "\u{661}",
    ] {
        let chars = chars_of(t);
        assert_eq!(parse_unsigned(&chars, u64::MAX), t.parse::<u64>().ok(), "{:?}", t);
        assert_eq!(
            parse_unsigned(&chars, u32::MAX as u64).map(|n| n as u32),
            t.parse::<u32>().ok(),
            "{:?}",
            t
        );
        assert_eq!(parse_signed(&chars), t.parse::<i32>().ok(), "{:?}", t);
    }
    assert_eq!(parse_unsigned(&chars_of("5"), 3), None);
}

#[test]
fn integers_come_back() {
    for n in [0u64, 9, 10, 99, 100, 255, 12345678901234567890, u64::MAX] {
        assert_eq!(format_unsigned(n), n.to_string());
        assert_eq!(parse_unsigned(&chars_of(&format_unsigned(n)), u64::MAX), Some(n));
    }
    for n in [0i32, -1, 7, -250, 250, i32::MIN, i32::MAX] {
        assert_eq!(format_signed(n), n.to_string());
        assert_eq!(parse_signed(&chars_of(&format_signed(n))), Some(n));
    }
}
