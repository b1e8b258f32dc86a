use together::text::{
    contains, decimal_string, last_split_segment, parse_usize, starts_with, str_equals,
    trim_end_matches, trim_start_matches,
};

#[test]
fn decimal_string_writes_digits() {
    assert_eq!(decimal_string(0), "0");
    assert_eq!(decimal_string(7), "7");
    assert_eq!(decimal_string(10), "10");
    assert_eq!(decimal_string(1234567890), "1234567890");
    assert_eq!(decimal_string(usize::MAX), usize::MAX.to_string());
}

#[test]
fn parse_usize_matches_std_parse() {
    let cases = [
        "", "+", "-", "0", "5", "+5", "-5", "007", "12a", " 1", "1 ", "++1",
        "18446744073709551615", "18446744073709551616", "99999999999999999999999",
    ];
    for c in cases {
        assert_eq!(parse_usize(c), c.parse::<usize>().ok(), "input {:?}", c);
    }
}

#[test]
fn parse_reads_back_decimal() {
    for n in [0usize, 1, 9, 10, 99, 100, 65535, usize::MAX] {
        assert_eq!(parse_usize(&decimal_string(n)), Some(n));
    }
}

#[test]
fn trim_start_removes_every_leading_copy() {
    assert_eq!(trim_start_matches("char_char_abc", "char_"), "abc");
    assert_eq!(trim_start_matches("abc", "char_"), "abc");
    assert_eq!(trim_start_matches("char_", "char_"), "");
    assert_eq!(trim_start_matches("vis-vis-3", "vis-"), "3");
    assert_eq!(trim_start_matches("xyz", ""), "xyz");
    for (s, p) in [("aaab", "a"), ("ababc", "ab"), ("abc", "abcd")] {
        assert_eq!(trim_start_matches(s, p), s.trim_start_matches(p));
    }
}

#[test]
fn trim_end_removes_every_trailing_copy() {
    assert_eq!(trim_end_matches("app.exe", ".exe"), "app");
    assert_eq!(trim_end_matches("app.exe.exe", ".exe"), "app");
    assert_eq!(trim_end_matches("app", ".exe"), "app");
    assert_eq!(trim_end_matches(".exe", ".exe"), "");
    for (s, p) in [("baaa", "a"), ("cabab", "ab"), ("abc", "zabc")] {
        assert_eq!(trim_end_matches(s, p), s.trim_end_matches(p));
    }
}

#[test]
fn last_segment_after_backslash() {
    assert_eq!(last_split_segment("C:\\Windows\\notepad.exe", '\\'), "notepad.exe");
    assert_eq!(last_split_segment("notepad.exe", '\\'), "notepad.exe");
    assert_eq!(last_split_segment("C:\\dir\\", '\\'), "");
    assert_eq!(last_split_segment("", '\\'), "");
}

#[test]
fn searching_and_comparing() {
    assert!(contains("watching youtube now", "youtube"));
    assert!(!contains("you tube", "youtube"));
    assert!(contains("abc", ""));
    assert!(!contains("ab", "abc"));
    assert!(starts_with("vis-3", "vis-"));
    assert!(!starts_with("vi", "vis-"));
    assert!(str_equals("캐릭터", "캐릭터"));
    assert!(!str_equals("a", "ab"));
}
