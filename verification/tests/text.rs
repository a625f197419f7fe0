use bot_harness::text::{
    cut, first_line, is_control, is_space, lines, number, parse_signed, parse_unsigned,
    signed_number, text_before, trim, MAX_TEXT,
};
use bot_harness::toolcall::error_line;

#[test]
fn cut_text() {
    assert_eq!(cut("a\nb\tc"), "a b c");
    let long = "x".repeat(300);
    let c = cut(&long);
    assert_eq!(c.chars().count(), MAX_TEXT);
    assert!(c.ends_with('…'));
    assert_eq!(
        cut("::error::x\r\n::warning::y"),
        "::error::x  ::warning::y"
    );
}

#[test]
fn error_lines() {
    for (text, want) in [
        (
            "Exit code 1\nsudo: a password is required",
            "sudo: a password is required",
        ),
        ("\n\nboom\nmore", "boom"),
        ("Exit code 2", ""),
        (
            "```\nUser refused permission\n```",
            "User refused permission",
        ),
        ("", ""),
    ] {
        assert_eq!(error_line(text), want, "{text:?}");
    }
}

#[test]
fn character_classes_are_those_of_std() {
    for c in '\0'..=char::MAX {
        assert_eq!(is_space(c), c.is_whitespace(), "{c:?}");
        assert_eq!(is_control(c), c.is_control(), "{c:?}");
    }
}

#[test]
fn cutting_a_cut_text_changes_nothing() {
    for text in ["", "short", "a\u{7f}b\u{85}", &"é\n".repeat(150), &"x".repeat(200), &"x".repeat(201)] {
        let once = cut(text);
        assert_eq!(cut(&once), once);
        assert!(once.chars().count() <= MAX_TEXT);
        assert!(!once.chars().any(char::is_control));
    }
    assert_eq!(cut(&"x".repeat(200)), "x".repeat(200));
    assert_eq!(cut(&"x".repeat(201)), "x".repeat(199) + "…");
}

#[test]
fn lines_are_those_of_std() {
    for text in ["", "a", "a\n", "a\r\nb", "\n\n", "a\rb\n\r\n", "x\n\ny\r", "\r"] {
        let want: Vec<&str> = text.lines().collect();
        assert_eq!(lines(text), want, "{text:?}");
        let first = text.lines().find(|l| !l.trim().is_empty()).unwrap_or("");
        assert_eq!(first_line(text), first, "{text:?}");
        assert_eq!(trim(text), text.trim(), "{text:?}");
    }
    assert_eq!(trim(" \u{a0}a b\t\n"), "a b");
}

#[test]
fn numbers_are_those_of_std() {
    for n in [0u64, 7, 10, 99, 12345678901234567890, u64::MAX] {
        assert_eq!(number(n), n.to_string());
        assert_eq!(parse_unsigned(&n.to_string(), u64::MAX), Some(n));
    }
    for n in [0i64, -1, 42, i64::MAX, i64::MIN] {
        assert_eq!(signed_number(n), n.to_string());
        assert_eq!(parse_signed(&n.to_string()), Some(n));
    }
    for text in ["", "+", "-", "+7", "-7", "1x", " 1", "18446744073709551616", "0018", "٣"] {
        assert_eq!(parse_unsigned(text, u64::MAX), text.parse::<u64>().ok(), "{text:?}");
        assert_eq!(parse_unsigned(text, u32::MAX as u64), text.parse::<u32>().ok().map(u64::from));
        assert_eq!(parse_signed(text), text.parse::<i64>().ok(), "{text:?}");
    }
    assert_eq!(parse_signed("-9223372036854775809"), None);
}

#[test]
fn texts_are_ordered_as_in_std() {
    let texts = ["", "a", "ab", "b", "Z", "é", "\u{ffff}", "\u{10000}"];
    for a in texts {
        for b in texts {
            assert_eq!(text_before(a, b), a < b, "{a:?} {b:?}");
        }
    }
}
