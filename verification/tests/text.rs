use drill::text;

#[test]
fn white_space_is_what_char_says() {
    for n in 0..=0x10ffffu32 {
        if let Some(c) = char::from_u32(n) {
            assert_eq!(text::white_space(c), c.is_whitespace(), "{:x}", n);
        }
    }
}

#[test]
fn words_are_split_at_white_space() {
    let words = text::words_of(" one\ttwo\r\n\u{3000}one  thr\u{e9}e");
    assert_eq!(words.len(), 3);
    assert!(words.contains("one"));
    assert!(words.contains("two"));
    assert!(words.contains("thr\u{e9}e"));
    assert!(!words.contains(""));
    assert_eq!(text::words_of("").len(), 0);
    assert_eq!(text::words_of(" \n").len(), 0);
    assert!(text::words_of("x").contains("x"));
}

#[test]
fn sameness() {
    assert!(text::same("", ""));
    assert!(text::same("a\u{e9}", "a\u{e9}"));
    assert!(!text::same("a", "b"));
    assert!(!text::same("a", "ab"));
    assert!(text::same_ignoring_ascii_case("X-Forwarded-For", "x-forwarded-for"));
    assert!(!text::same_ignoring_ascii_case("\u{c4}", "\u{e4}"));
    assert!(!text::same_ignoring_ascii_case("Host", "Hosts"));
}

#[test]
fn split_before_the_first() {
    assert_eq!(text::split_before("a.b.c", '.'), Some("a"));
    assert_eq!(text::split_before(".b", '.'), Some(""));
    assert_eq!(text::split_before("\u{e9}\u{20ac}.b", '.'), Some("\u{e9}\u{20ac}"));
    assert_eq!(text::split_before("abc", '.'), None);
    assert_eq!(text::split_before("", '.'), None);
}

#[test]
fn capitals() {
    assert_eq!(text::capitalize("botname"), "Botname");
    assert_eq!(text::capitalize("Botname"), "Botname");
    assert_eq!(text::capitalize(""), "");
    assert_eq!(text::capitalize("\u{e9}a"), "\u{e9}a");
    assert_eq!(text::capitalize("1a"), "1a");
    assert_eq!(text::capitalize("zZ"), "ZZ");
}

#[test]
fn containment() {
    assert!(text::contains("Account system denies login!", "system"));
    assert!(text::contains("abc", ""));
    assert!(text::contains("", ""));
    assert!(text::contains("abc", "abc"));
    assert!(text::contains("aab", "ab"));
    assert!(!text::contains("abc", "ac"));
    assert!(!text::contains("ab", "abc"));
    assert!(!text::contains("ABC", "abc"));
}

#[test]
fn decoding() {
    assert_eq!(text::decode(b"a\xc3\xa9"), Some("a\u{e9}"));
    assert_eq!(text::decode(b""), Some(""));
    assert_eq!(text::decode(b"\xc3"), None);
    assert_eq!(text::decode(b"\xed\xa0\x80"), None);
}

#[test]
fn joining() {
    assert_eq!(text::join("https://", "\u{e9}"), "https://\u{e9}");
    assert_eq!(text::chars_of("a\u{20ac}"), vec!['a', '\u{20ac}']);
}
