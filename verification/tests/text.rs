use watchlite::text::{
    chars_of, chars_trim, contains_text, find_bytes, parse_number, push_decimal, same_text,
    second_word, split_text, text_before,
};

#[test]
fn splitting_takes_the_first_mark() {
    assert_eq!(split_text("a>b>c", '>'), Some(("a", "b>c")));
    assert_eq!(split_text("\u{e9}>\u{e8}", '>'), Some(("\u{e9}", "\u{e8}")));
    assert_eq!(split_text("abc", '>'), None);
    assert_eq!(text_before("/a?b?c", '?'), "/a");
    assert_eq!(text_before("/a", '?'), "/a");
}

#[test]
fn white_space_is_unicode_white_space() {
    let all: Vec<char> = (0..=0x10ffffu32).filter_map(char::from_u32).collect();
    for c in all {
        assert_eq!(watchlite::text::char_is_space(c), c.is_whitespace());
    }
}

#[test]
fn trimming_and_words_agree_with_std() {
    for s in ["", " ", " a", "a ", " a b\t", "\u{85}x\u{3000}y z\u{a0}", "HTTP/1.1 200 OK\r\n"] {
        let chars = chars_of(s);
        let trimmed: String = chars_trim(&chars).iter().collect();
        assert_eq!(trimmed, s.trim());
        let second: Option<String> = second_word(&chars).map(|w| w.iter().collect());
        assert_eq!(second, s.split_whitespace().nth(1).map(|w| w.to_string()));
    }
}

#[test]
fn numbers_agree_with_std() {
    for s in ["", "+", "-", "0", "+0", "-0", "007", "12a", "1 2", "++1", "18446744073709551615", "18446744073709551616", "\u{661}"] {
        let chars = chars_of(s);
        assert_eq!(parse_number(&chars, 10, u64::MAX), s.parse::<u64>().ok());
        assert_eq!(parse_number(&chars, 16, u64::MAX), u64::from_str_radix(s, 16).ok());
    }
    assert_eq!(parse_number(&chars_of("fF"), 16, 255), Some(255));
    assert_eq!(parse_number(&chars_of("100"), 16, 255), None);
}

#[test]
fn decimals_are_written_and_read_back() {
    for n in [0u64, 9, 10, 99, 100, 1_000_000_007, u64::MAX] {
        let mut out = "n=".to_string();
        push_decimal(&mut out, n);
        assert_eq!(out, format!("n={}", n));
        assert_eq!(parse_number(&chars_of(&out[2..]), 10, u64::MAX), Some(n));
    }
}

#[test]
fn searching_finds_the_first_place() {
    assert_eq!(find_bytes(b"a\r\nb\r\n", b"\r\n"), Some(1));
    assert_eq!(find_bytes(b"\r", b"\r\n"), None);
    assert!(contains_text(&chars_of("xxabxx"), "ab"));
    assert!(!contains_text(&chars_of("a b"), "ab"));
    assert!(contains_text(&chars_of(""), ""));
}

#[test]
fn equal_text_is_equal() {
    assert!(same_text("\u{e9}t\u{e9}", "\u{e9}t\u{e9}"));
    assert!(!same_text("a", "b"));
    assert!(!same_text("a", "ab"));
}
