use clashrw::text::{
    chars_of, copy_texts, count_leading, decimal_text, find_from, find_text, holds_text,
    is_white_space, join_texts, lower_text, push_decimal, split_chars, text_of, text_of_range,
};

fn chars(s: &str) -> Vec<char> {
    s.chars().collect()
}

#[test]
fn chars_and_back() {
    assert_eq!(chars_of("héllo"), chars("héllo"));
    assert_eq!(text_of(&chars("héllo")), "héllo");
    assert_eq!(text_of_range(&chars("héllo"), 1, 3), "él");
    assert_eq!(text_of_range(&chars("héllo"), 2, 2), "");
}

#[test]
fn split_matches_the_standard_split() {
    for s in ["", ";", "a", "a;b", "a;;b;", ";a", "upload=1; total=2"] {
        let expected: Vec<Vec<char>> = s.split(';').map(chars).collect();
        assert_eq!(split_chars(&chars(s), ';'), expected);
    }
}

#[test]
fn join_puts_the_separator_between() {
    let texts = vec!["a".to_string(), "".to_string(), "bc".to_string()];
    assert_eq!(join_texts(&texts, ";"), "a;;bc");
    assert_eq!(join_texts(&texts, "; "), "a; ; bc");
    assert_eq!(join_texts(&vec!["x".to_string()], ";"), "x");
    assert_eq!(join_texts(&Vec::new(), ";"), "");
}

#[test]
fn white_space_is_what_the_standard_library_calls_so() {
    for code in 0..0x3100u32 {
        if let Some(c) = char::from_u32(code) {
            assert_eq!(is_white_space(c), c.is_whitespace());
        }
    }
    assert!(!is_white_space('\u{180e}'));
    assert!(!is_white_space('\u{feff}'));
    assert!(!is_white_space(char::MAX));
}

#[test]
fn leading_white_space_is_counted() {
    for s in ["", " ", "a", "  a b \t\n", "\u{3000}\u{a0}x ", " \r\n "] {
        assert_eq!(count_leading(&chars(s)), s.chars().count() - s.trim_start().chars().count());
    }
}

#[test]
fn decimal_writes_numbers() {
    assert_eq!(decimal_text(0), "0");
    assert_eq!(decimal_text(9), "9");
    assert_eq!(decimal_text(10), "10");
    assert_eq!(decimal_text(600), "600");
    assert_eq!(decimal_text(u64::MAX), "18446744073709551615");
    let mut out = chars("n=");
    push_decimal(&mut out, 407);
    assert_eq!(out, chars("n=407"));
}

#[test]
fn lower_changes_ascii_letters_only() {
    assert_eq!(lower_text("Rule"), "rule");
    assert_eq!(lower_text("GLOBAL-Ä[]@`z"), "global-Ä[]@`z");
    assert_eq!(lower_text(""), "");
}

#[test]
fn finding_characters_and_texts() {
    let v = chars("a=b=c");
    assert_eq!(find_from(&v, 0, '='), 1);
    assert_eq!(find_from(&v, 2, '='), 3);
    assert_eq!(find_from(&v, 4, '='), 5);
    let list = vec!["x".to_string(), "y".to_string(), "x".to_string()];
    assert_eq!(find_text(&list, "x"), 0);
    assert_eq!(find_text(&list, "y"), 1);
    assert_eq!(find_text(&list, "z"), 3);
    assert!(holds_text(&list, "y"));
    assert!(!holds_text(&list, ""));
    assert_eq!(copy_texts(&list), list);
}
