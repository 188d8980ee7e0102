//! Characters, numbers and pieces of text, held against the standard library.
use ebooksync::text::byte_len;
use ebooksync::text::contains_chars;
use ebooksync::text::decimal_text;
use ebooksync::text::integer_text;
use ebooksync::text::is_ascii_digit;
use ebooksync::text::is_whitespace;
use ebooksync::text::join_texts;
use ebooksync::text::len_utf8;
use ebooksync::text::parse_i64;
use ebooksync::text::same_text;
use ebooksync::text::split_text;
use ebooksync::text::strip_prefix;
use ebooksync::text::trimmed;

fn all_chars() -> impl Iterator<Item = char> {
    (0..=0x10ffffu32).filter_map(char::from_u32)
}

#[test]
fn character_classes_agree_with_std() {
    for c in all_chars() {
        assert_eq!(is_whitespace(c), c.is_whitespace(), "{:?}", c);
        assert_eq!(is_ascii_digit(c), c.is_ascii_digit(), "{:?}", c);
        assert_eq!(len_utf8(c), c.len_utf8(), "{:?}", c);
    }
}

#[test]
fn trimming_agrees_with_std() {
    for s in ["", " ", "a", "  a b\t", "\u{3000}第一章\u{3000}\n", "\u{85}x\u{a0}", "x\u{200b} "] {
        assert_eq!(trimmed(s), s.trim());
    }
}

#[test]
fn numerals_agree_with_std() {
    for n in [0, 1, 9, 10, 99, 100, 12345, u64::MAX] {
        assert_eq!(decimal_text(n), n.to_string());
    }
    for n in [0, 7, -7, 126510, i64::MAX, i64::MIN] {
        assert_eq!(integer_text(n), n.to_string());
        assert_eq!(parse_i64(&integer_text(n)), Some(n));
    }
}

#[test]
fn reading_numbers_agrees_with_std() {
    for s in [
        "", "+", "-", "0", "+0", "-0", "007", "12", "-12", "+12", " 12", "12 ", "1_2", "٣", "1e3",
        "9223372036854775807", "9223372036854775808", "-9223372036854775808",
        "-9223372036854775809", "99999999999999999999999", "--1", "+-1",
    ] {
        assert_eq!(parse_i64(s), s.parse::<i64>().ok(), "{:?}", s);
    }
}

#[test]
fn splitting_and_joining_undo_each_other() {
    for s in ["", "a", "a\nb", "\n", "a\n\nb\n"] {
        let pieces = split_text(s, '\n');
        let expected: Vec<String> = s.split('\n').map(|p| p.to_string()).collect();
        assert_eq!(pieces, expected);
        assert_eq!(join_texts(&pieces, 0, pieces.len(), '\n'), s);
    }
}

#[test]
fn prefixes_and_occurrences() {
    assert_eq!(strip_prefix("set_inc:EBOOK_FONT", "set_inc:"), Some("EBOOK_FONT".to_string()));
    assert_eq!(strip_prefix("set_dec:EBOOK_FONT", "set_inc:"), None);
    assert_eq!(strip_prefix("set", "set_inc:"), None);
    let hay: Vec<char> = "连接超时".chars().collect();
    let needle: Vec<char> = "超时".chars().collect();
    assert!(contains_chars(&hay, &needle));
    assert!(!contains_chars(&needle, &hay));
    assert!(same_text("弦", "弦") && !same_text("弦", "弦 "));
}

#[test]
fn byte_lengths_are_those_of_utf8() {
    for s in ["", "a", "é", "中文", "😀x"] {
        assert_eq!(byte_len(s), s.len());
    }
}
