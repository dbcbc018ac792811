use reliquary_archiver_mac::text::{
    chars_of, chain, contains, eq_ignore_ascii_case, is_ascii_hexdigit, is_white_space, join,
    lines, rest_after, same, split_whitespace, starts_with, strip_prefix, trim,
};

const SAMPLES: [&str; 14] = [
    "",
    " ",
    "\n",
    "\r\n",
    "one",
    "one\ntwo",
    "one\r\ntwo\r\n",
    "one\n\n\ttwo \r",
    "foo\r\nbar\n\nbaz\r",
    "  padded\u{a0}\u{3000}",
    "\u{2003}wide \u{85}words\u{1680}here ",
    "caf\u{e9} \u{2022} udid: 1",
    "\r\r\n\r",
    "a  b\tc\u{200b}d",
];

#[test]
fn white_space_is_the_unicode_property() {
    for code in 0..=0x10ffffu32 {
        if let Some(c) = char::from_u32(code) {
            assert_eq!(is_white_space(c), c.is_whitespace(), "U+{:04X}", code);
        }
    }
}

#[test]
fn hexdigits_are_ascii_hexdigits() {
    for code in 0..0x3000u32 {
        if let Some(c) = char::from_u32(code) {
            assert_eq!(is_ascii_hexdigit(c), c.is_ascii_hexdigit());
        }
    }
}

#[test]
fn lines_words_and_trimming_agree_with_std() {
    for s in SAMPLES {
        assert_eq!(lines(s), s.lines().collect::<Vec<_>>(), "{:?}", s);
        assert_eq!(split_whitespace(s), s.split_whitespace().collect::<Vec<_>>(), "{:?}", s);
        assert_eq!(trim(s), s.trim(), "{:?}", s);
        assert_eq!(chars_of(s), s.chars().collect::<Vec<_>>());
    }
}

#[test]
fn carriage_return_at_the_end_without_line_feed_stays() {
    assert_eq!(lines("foo\r\nbar\n\nbaz\r"), vec!["foo", "bar", "", "baz\r"]);
}

#[test]
fn occurrences_agree_with_std() {
    for hay in SAMPLES {
        for needle in ["", "o", "one", "two", "\n", "\r\n", "udid: ", "\u{2022}", "absent"] {
            assert_eq!(contains(hay, needle), hay.contains(needle));
            assert_eq!(starts_with(hay, needle), hay.starts_with(needle));
            assert_eq!(strip_prefix(hay, needle), hay.strip_prefix(needle));
            assert_eq!(rest_after(hay, needle), hay.split_once(needle).map(|(_, rest)| rest));
            assert_eq!(same(hay, needle), hay == needle);
        }
    }
}

#[test]
fn first_occurrence_counts() {
    assert_eq!(rest_after("aXbXc", "X"), Some("bXc"));
    assert_eq!(rest_after("abc", "X"), None);
}

#[test]
fn ascii_case_is_ignored_and_no_other() {
    assert!(eq_ignore_ascii_case("iPhone RVI", "IPHONE rvi"));
    assert!(!eq_ignore_ascii_case("\u{c9}", "\u{e9}"));
    assert!(!eq_ignore_ascii_case("@", "`"));
    assert!(!eq_ignore_ascii_case("[", "{"));
    assert!(!eq_ignore_ascii_case("a", "ab"));
}

#[test]
fn joining_puts_the_separator_between() {
    let parts: Vec<String> = vec!["a".to_string(), "".to_string(), "c".to_string()];
    assert_eq!(join(&parts, ", "), "a, , c");
    assert_eq!(join(&Vec::new(), ", "), "");
    assert_eq!(join(&vec!["x".to_string()], ", "), "x");
    assert_eq!(chain("ab", "\u{e9}"), "ab\u{e9}");
}
