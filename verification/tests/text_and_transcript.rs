use siren::error::DomainError;
use siren::text::{decimal_string, is_whitespace, join, str_eq, strip_prefix, trim};
use siren::transcript::Transcript;
use siren::tts::punctuate;

#[test]
fn trim_removes_unicode_white_space_at_both_ends() {
    assert_eq!(trim("  hello world \n\t"), "hello world");
    assert_eq!(trim("\u{3000}\u{a0}x\u{2009}"), "x");
    assert_eq!(trim("   "), "");
    assert_eq!(trim(""), "");
    assert_eq!(trim("a b"), "a b");
}

#[test]
fn whitespace_matches_std() {
    for c in ['\t', '\n', ' ', '\u{85}', '\u{a0}', '\u{1680}', '\u{2000}', '\u{200a}', '\u{2028}', '\u{2029}', '\u{202f}', '\u{205f}', '\u{3000}', 'a', '\u{200b}', '\u{180e}', '0'] {
        assert_eq!(is_whitespace(c), c.is_whitespace(), "{:?}", c);
    }
}

#[test]
fn string_helpers() {
    assert!(str_eq("abc", "abc"));
    assert!(!str_eq("abc", "abd"));
    assert!(!str_eq("abc", "ab"));
    assert_eq!(strip_prefix("data: x", "data:"), Some(" x"));
    assert_eq!(strip_prefix("dat", "data:"), None);
    assert_eq!(decimal_string(-32601), "-32601");
    assert_eq!(decimal_string(0), "0");
    assert_eq!(decimal_string(i64::MIN), i64::MIN.to_string());
    assert_eq!(decimal_string(i64::MAX), i64::MAX.to_string());
    assert_eq!(join(&["a", "b", "c"], ", "), "a, b, c");
    assert_eq!(join(&[], ", "), "");
}

#[test]
fn transcript_joins_trimmed_segments_with_single_spaces() {
    let mut t = Transcript::default();
    assert!(t.is_empty());
    t.push_segment("  hello ");
    assert_eq!(t.text(), "hello");
    t.push_segment("   ");
    assert_eq!(t.text(), "hello");
    t.push_segment("\nworld\n");
    assert_eq!(t.text(), "hello world");
    assert!(!t.is_empty());
}

#[test]
fn transcript_blank_text_is_empty() {
    assert!(Transcript::new(String::from(" \n\t ")).is_empty());
    assert!(!Transcript::new(String::from(" x ")).is_empty());
    assert_eq!(Transcript::new(String::from(" x ")).text(), " x ");
}

#[test]
fn punctuate_adds_a_full_stop_only_where_needed() {
    assert_eq!(punctuate("  selamat pagi  "), "selamat pagi.");
    assert_eq!(punctuate("apa kabar?"), "apa kabar?");
    for mark in [".", "!", "?", ",", ";", ":"] {
        let text = format!("halo{mark}");
        assert_eq!(punctuate(&text), text);
    }
    assert_eq!(punctuate(""), ".");
    assert_eq!(punctuate("   "), ".");
}

#[test]
fn domain_errors_show_their_kind() {
    assert_eq!(DomainError::audio(String::from("no device")).message(), "audio error: no device");
    assert_eq!(DomainError::model(String::from("m")).message(), "model error: m");
    assert_eq!(DomainError::inference(String::from("i")).message(), "inference error: i");
    assert_eq!(DomainError::io(String::from("disk")).message(), "io error: disk");
    assert_eq!(DomainError::unsupported(String::from("u")).message(), "unsupported: u");
    assert_eq!(DomainError::io(String::from("x")), DomainError::Io(String::from("x")));
}
