use quicksupport::text::{
    decimal_string, find_first, from_chars, lines, parse_u16, rsplit_once, same_text, split_once,
    to_ascii_uppercase, to_chars, trim, white_space,
};

fn trimmed(s: &str) -> String {
    from_chars(trim(&to_chars(s)))
}

#[test]
fn white_space_is_the_unicode_property() {
    for n in 0..=0x10ffffu32 {
        if let Some(c) = char::from_u32(n) {
            assert_eq!(white_space(c), c.is_whitespace(), "U+{n:04X}");
        }
    }
}

#[test]
fn trimming_removes_white_space_at_both_ends_only() {
    let samples = [
        "", " ", "a", " a", "a ", "  a b  ", "\t\r\na\u{a0}", "\u{3000}x\u{2003}", "a\nb", "\u{200b}a",
    ];
    for s in samples {
        assert_eq!(trimmed(s), s.trim());
        assert_eq!(trimmed(&trimmed(s)), s.trim());
    }
}

#[test]
fn lines_end_with_a_line_feed_or_with_both() {
    let samples = [
        "", "\n", "a", "a\n", "a\nb", "a\r\nb\r\n", "a\r", "a\r\r\n", "\r\n", "\n\n", "a\n\nb", "a\rb\n",
        "\u{e9}\n\u{4e2d}\r\n",
    ];
    for s in samples {
        let chars = to_chars(s);
        let got: Vec<String> = lines(&chars).iter().map(|l| from_chars(l)).collect();
        let want: Vec<String> = s.lines().map(|l| l.to_string()).collect();
        assert_eq!(got, want, "{s:?}");
    }
}

#[test]
fn splitting_takes_the_first_or_the_last_separator() {
    for s in ["", "=", "a=b", "a=b=c", "=b", "a=", "none", "=="] {
        let chars = to_chars(s);
        let first = split_once(&chars, '=').map(|(a, b)| (from_chars(a), from_chars(b)));
        let last = rsplit_once(&chars, '=').map(|(a, b)| (from_chars(a), from_chars(b)));
        let own = |p: (&str, &str)| (p.0.to_string(), p.1.to_string());
        assert_eq!(first, s.split_once('=').map(own));
        assert_eq!(last, s.rsplit_once('=').map(own));
        assert_eq!(find_first(&chars, '='), s.find('=').unwrap_or(s.len()));
    }
}

#[test]
fn decimal_notation() {
    for n in [0u64, 9, 10, 99, 100, 21116, 100_000_000, 999_999_999, u64::MAX] {
        assert_eq!(decimal_string(n), n.to_string());
    }
}

#[test]
fn port_numbers_are_read_as_the_standard_library_reads_them() {
    let samples = [
        "", "0", "1", "00080", "65535", "65536", "99999999999999999999", "+", "+1", "++1", "-1", " 1",
        "1 ", "1a", "\u{661}", "+65535", "+65536", "0x10", "1_0",
    ];
    for s in samples {
        assert_eq!(parse_u16(&to_chars(s)), s.parse::<u16>().ok(), "{s:?}");
    }
    for n in 0..70_000u32 {
        let s = n.to_string();
        assert_eq!(parse_u16(&to_chars(&s)), s.parse::<u16>().ok());
    }
}

#[test]
fn upper_case_is_ascii_only() {
    for s in ["", "yes", "Yes", "tRuE1", "\u{e9}t\u{e9}", "z{`@[a"] {
        assert_eq!(to_ascii_uppercase(&to_chars(s)), s.to_ascii_uppercase());
    }
}

#[test]
fn texts_are_compared_by_their_characters() {
    assert!(same_text("", ""));
    assert!(same_text("salt", "salt"));
    assert!(!same_text("salt", "Salt"));
    assert!(!same_text("salt", "sal"));
}
