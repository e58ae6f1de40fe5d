use grimoire::bytes::{byte_len, cut_to_bytes, cut_to_chars, len_of_char};
use grimoire::decimal::{parse_number, to_decimal, to_signed_decimal};
use grimoire::order::text_before;
use grimoire::pieces::{cut_once, has_text, join, replace, split_at_char, split_lines, split_words};
use grimoire::text::{after_prefix, has_prefix, holds, is_white, same, trim};

fn owned(list: &[&str]) -> Vec<String> {
    list.iter().map(|s| s.to_string()).collect()
}

#[test]
fn texts_are_trimmed_and_compared() {
    assert_eq!(trim(" \t\u{a0}a b\u{2003}\n"), "a b");
    assert_eq!(trim(" \u{3000} "), "");
    for n in 0..0x3100u32 {
        if let Some(c) = char::from_u32(n) {
            assert_eq!(is_white(c), c.is_whitespace(), "{:x}", n);
        }
    }
    assert!(same("é", "é"));
    assert!(!same("e", "é"));
    assert!(has_prefix("abc", "ab"));
    assert!(!has_prefix("ab", "abc"));
    assert_eq!(after_prefix("key: v", "key:").as_deref(), Some(" v"));
    assert_eq!(after_prefix("ke", "key:"), None);
    assert!(holds(&owned(&["a", "b"]), "b"));
    assert!(!holds(&owned(&["a", "b"]), "c"));
}

#[test]
fn texts_are_split_as_std_does() {
    for s in ["", "a", "a,b", ",a,,b,", "é,ü"] {
        assert_eq!(split_at_char(s, ','), s.split(',').collect::<Vec<_>>());
    }
    for s in ["", "\n", "a\nb", "a\r\nb\n", "a\n\nb", "\r", "a\r"] {
        assert_eq!(split_lines(s), s.lines().collect::<Vec<_>>(), "{:?}", s);
    }
    for s in ["", "  ", " a  b\tc ", "a\u{2003}b"] {
        assert_eq!(split_words(s), s.split_whitespace().collect::<Vec<_>>());
    }
    assert_eq!(cut_once("a=b=c", '='), Some(("a".to_string(), "b=c".to_string())));
    assert_eq!(cut_once("abc", '='), None);
    assert_eq!(join(&owned(&["a", "b", "c"]), ", "), "a, b, c");
    assert_eq!(join(&vec![], ", "), "");
    assert!(has_text("abcabd", "abd"));
    assert!(has_text("abc", ""));
    assert!(!has_text("abc", "ac"));
    for (s, p, w) in [("aaa", "aa", "b"), ("x{t}y{t}", "{t}", "1"), ("none", "{t}", "1"), ("", "a", "b")] {
        assert_eq!(replace(s, p, w), s.replace(p, w));
    }
}

#[test]
fn numbers_are_written_and_read() {
    for n in [0u64, 7, 10, 90, 12345, u64::MAX] {
        assert_eq!(to_decimal(n), n.to_string());
        assert_eq!(parse_number(&n.to_string(), u64::MAX), Some(n));
    }
    for n in [0i64, -1, 42, i64::MIN, i64::MAX] {
        assert_eq!(to_signed_decimal(n), n.to_string());
    }
    assert_eq!(parse_number("+7", 10), Some(7));
    assert_eq!(parse_number("007", 10), Some(7));
    assert_eq!(parse_number("11", 10), None);
    assert_eq!(parse_number("-1", 10), None);
    assert_eq!(parse_number("", 10), None);
    assert_eq!(parse_number("+", 10), None);
    assert_eq!(parse_number("1a", 10), None);
    assert_eq!(parse_number("18446744073709551616", u64::MAX), None);
}

#[test]
fn bytes_are_counted_and_cut_between_characters() {
    for c in ['a', 'é', '€', '😀'] {
        assert_eq!(len_of_char(c), c.len_utf8());
    }
    assert_eq!(byte_len("aé€😀"), "aé€😀".len());
    assert_eq!(cut_to_bytes("aé€", 3), "aé");
    assert_eq!(cut_to_bytes("aé€", 2), "a");
    assert_eq!(cut_to_bytes("aé€", 99), "aé€");
    assert_eq!(cut_to_chars("aé€", 2), "aé");
    assert_eq!(cut_to_chars("aé€", 9), "aé€");
}

#[test]
fn texts_are_ordered_as_std_does() {
    let list = ["", "a", "ab", "b", "é", "€", "😀", "\u{ffff}"];
    for a in list {
        for b in list {
            assert_eq!(text_before(a, b), a <= b, "{:?} {:?}", a, b);
        }
    }
}
