use bluerat::text::{
    after_last, contains, eq_ignore_ascii_case, find, lines, pad, parse_byte, replace_char,
    split_once, starts_with, strip_prefix, take_digits, to_decimal, trim, up_to_char,
};

#[test]
fn lines_split_as_the_standard_library_does() {
    for s in vec!["", "\n", "a", "a\n", "a\nb", "a\r\nb\n\nc", "\r\n", "a\rb\n", "x\r"] {
        let want: Vec<String> = s.lines().map(|l| l.to_string()).collect();
        assert_eq!(lines(s), want, "{:?}", s);
    }
}

#[test]
fn trimming_agrees_with_the_standard_library() {
    for s in vec!["", "  ", " a b ", "\t\u{a0}x\u{3000}\n", "\u{200b}x", "\u{1680}y\u{85}"] {
        assert_eq!(trim(s), s.trim(), "{:?}", s);
    }
}

#[test]
fn searching_agrees_with_the_standard_library() {
    for (s, p) in vec![("abcabc", "ca"), ("abc", ""), ("", "a"), ("aab", "ab"), ("äöü", "ö")] {
        assert_eq!(contains(s, p), s.contains(p));
        assert_eq!(find(s, p), s.find(p).map(|i| s[..i].chars().count()));
        assert_eq!(starts_with(s, p), s.starts_with(p));
        assert_eq!(strip_prefix(s, p).as_deref(), s.strip_prefix(p));
    }
}

#[test]
fn splitting_and_cutting() {
    assert_eq!(split_once("a:b:c", ':'), Some(("a".to_string(), "b:c".to_string())));
    assert_eq!(split_once("abc", ':'), None);
    assert_eq!(up_to_char("a)b)", ')'), "a");
    assert_eq!(up_to_char("ab", ')'), "ab");
    assert_eq!(after_last("a(b(c", '('), "c");
    assert_eq!(after_last("ab", '('), "ab");
    assert_eq!(replace_char("a:b:", ':', '_'), "a_b_");
    assert_eq!(take_digits("12a3"), "12");
    assert!(eq_ignore_ascii_case("AbC", "aBc"));
    assert!(!eq_ignore_ascii_case("Ä", "ä"));
}

#[test]
fn numbers_are_written_and_read() {
    for n in vec![0u128, 9, 10, 255, 18446744073709551616] {
        assert_eq!(to_decimal(n), n.to_string());
    }
    for s in vec!["0", "+7", "255", "256", "", "+", "-1", "1a", "00012", " 1"] {
        assert_eq!(parse_byte(s), s.parse::<u8>().ok(), "{:?}", s);
    }
    assert_eq!(pad("ab", 4), "ab  ");
    assert_eq!(pad("abcde", 4), "abcde");
}
