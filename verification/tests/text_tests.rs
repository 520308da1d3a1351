use mailbox::text::{chars_of, join_str, eq_ignore_case, is_white_char, lower_char, str_lt, trim_end_str, trim_str, Trim};

#[test]
fn whitespace_matches_std() {
    for n in 0u32..0x3100 {
        if let Some(c) = char::from_u32(n) {
            assert_eq!(is_white_char(c), c.is_whitespace(), "code point {n:#x}");
        }
    }
    assert!(!is_white_char('\u{10FFFF}'));
}

#[test]
fn trim_matches_std() {
    let samples = ["  a b  ", "\t\n x\u{3000}", "", "   ", "\"\"q\"", "##fff", "x"];
    for s in samples {
        assert_eq!(trim_str(s, Trim::Whitespace), s.trim());
        assert_eq!(trim_str(s, Trim::Exactly('"')), s.trim_matches('"'));
        assert_eq!(trim_end_str(s, Trim::Exactly('=')), s.trim_end_matches('='));
    }
    assert_eq!(trim_end_str("abc==", Trim::Exactly('=')), "abc");
}

#[test]
fn ascii_case_folding() {
    assert!(eq_ignore_case("Text/Plain", "text/plain"));
    assert!(eq_ignore_case("FROM", "from"));
    assert!(!eq_ignore_case("from", "fro"));
    assert!(!eq_ignore_case("Ä", "ä"));
    assert_eq!(lower_char('Q'), 'q');
    assert_eq!(lower_char('7'), '7');
}

#[test]
fn string_order_matches_std() {
    let words = ["", "a", "ab", "b", "Zed", "zed", "é", "aé", "\u{10000}", "\u{FFFF}"];
    for x in words {
        for y in words {
            assert_eq!(str_lt(&chars_of(x), &chars_of(y)), x < y, "{x:?} < {y:?}");
        }
    }
}

#[test]
fn concatenation() {
    assert_eq!(join_str("temp:", "42"), "temp:42");
    assert_eq!(chars_of("héllo"), vec!['h', 'é', 'l', 'l', 'o']);
}

