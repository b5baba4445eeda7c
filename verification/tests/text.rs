use pindash_news::text::{
    contains_char, ends_with, is_whitespace, same, starts_with, strip_suffix, trim,
    trim_end_matches, trim_start_matches,
};

#[test]
fn prefix_and_suffix() {
    assert!(starts_with("https://example.com/a", "https://example.com"));
    assert!(!starts_with("http://example.com/a", "https://example.com"));
    assert!(starts_with("abc", ""));
    assert!(!starts_with("ab", "abc"));
    assert!(ends_with("https://example.com/feed.xml", ".xml"));
    assert!(!ends_with("https://example.com/feed.xml", ".atom"));
    assert!(ends_with("abc", ""));
    assert!(!ends_with("bc", "abc"));
    assert!(ends_with("日本語", "本語"));
}

#[test]
fn equality_of_texts() {
    assert!(same("self", "self"));
    assert!(!same("self", "Self"));
    assert!(same("", ""));
}

#[test]
fn trailing_and_leading_characters() {
    assert_eq!(trim_end_matches("https://example.com///", '/'), "https://example.com");
    assert_eq!(trim_end_matches("https://example.com", '/'), "https://example.com");
    assert_eq!(trim_end_matches("///", '/'), "");
    assert_eq!(trim_start_matches("//a/b/", '/'), "a/b/");
    assert_eq!(trim_start_matches("a", '/'), "a");
    assert_eq!(trim_start_matches("", '/'), "");
}

#[test]
fn repeated_suffix_is_removed() {
    assert_eq!(strip_suffix("https://example.com/rssrss", "rss"), "https://example.com/");
    assert_eq!(strip_suffix("https://example.com/feed/", "feed"), "https://example.com/feed/");
    assert_eq!(strip_suffix("abab", "abab"), "");
    assert_eq!(strip_suffix("abc", ""), "abc");
    assert_eq!(strip_suffix("ab", "abc"), "ab");
}

#[test]
fn white_space_is_trimmed() {
    assert_eq!(trim("  \t Title of the day \r\n"), "Title of the day");
    assert_eq!(trim("\u{3000}\u{00A0}x\u{2003}"), "x");
    assert_eq!(trim("   "), "");
    assert_eq!(trim(""), "");
    assert_eq!(trim("a b"), "a b");
    assert_eq!(trim("\u{200B}x"), "\u{200B}x");
}

#[test]
fn white_space_agrees_with_the_standard_library() {
    let mut n: u32 = 0;
    while n < 0x3100 {
        if let Some(c) = char::from_u32(n) {
            assert_eq!(is_whitespace(c), c.is_whitespace());
        }
        n += 1;
    }
}

#[test]
fn occurrence_of_a_character() {
    assert!(contains_char("tag:example.com,2005:feed", ','));
    assert!(!contains_char("https://example.com/", ','));
    assert!(!contains_char("", ','));
}
