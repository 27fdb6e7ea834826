use redtake::text::{
    contains_char, contains_text, format_nat, from_chars, starts_with, to_chars, trim_leading,
};

#[test]
fn numbers_are_written_in_decimal() {
    assert_eq!(format_nat(0), "0");
    assert_eq!(format_nat(7), "7");
    assert_eq!(format_nat(10), "10");
    assert_eq!(format_nat(1080), "1080");
    assert_eq!(format_nat(u128::MAX), "340282366920938463463374607431768211455");
}

#[test]
fn characters_survive_the_way_there_and_back() {
    let chars = to_chars("a\u{e9}\u{1f600}z");
    assert_eq!(chars, vec!['a', '\u{e9}', '\u{1f600}', 'z']);
    assert_eq!(from_chars(&chars), "a\u{e9}\u{1f600}z");
    assert_eq!(to_chars(""), Vec::<char>::new());
}

#[test]
fn prefixes_are_found_at_the_start_only() {
    assert!(starts_with("color=white", "color="));
    assert!(starts_with("color=", "color="));
    assert!(starts_with("anything", ""));
    assert!(!starts_with("colo", "color="));
    assert!(!starts_with("a color=white", "color="));
    assert!(!starts_with("", "color="));
}

#[test]
fn substrings_are_found_anywhere() {
    assert!(contains_text("this was [removed] by", "[removed]"));
    assert!(contains_text("[deleted]", "[deleted]"));
    assert!(contains_text("tail [deleted]", "[deleted]"));
    assert!(contains_text("abc", ""));
    assert!(contains_text("", ""));
    assert!(!contains_text("[remove]d", "[removed]"));
    assert!(!contains_text("", "[removed]"));
    assert!(!contains_text("short", "much longer than the text"));
}

#[test]
fn single_characters_are_found() {
    assert!(contains_char("a b", ' '));
    assert!(contains_char("a;b", ';'));
    assert!(!contains_char("ab", ' '));
    assert!(!contains_char("", ';'));
}

#[test]
fn leading_repetitions_are_all_removed() {
    assert_eq!(trim_leading("audio/title.mp3", "audio/"), "title.mp3");
    assert_eq!(trim_leading("audio/audio/title.mp3", "audio/"), "title.mp3");
    assert_eq!(trim_leading("title.mp3", "audio/"), "title.mp3");
    assert_eq!(trim_leading("sub/audio/title.mp3", "audio/"), "sub/audio/title.mp3");
    assert_eq!(trim_leading("audio/", "audio/"), "");
    assert_eq!(trim_leading("audio", "audio/"), "audio");
    assert_eq!(trim_leading("abc", ""), "abc");
}
