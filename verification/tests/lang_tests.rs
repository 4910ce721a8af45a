//! Tests for the codepoint-range language classifier.

use lyrics_filter::lang::{classify_lang, Lang};

#[test]
fn short_text_is_unsupported_regardless_of_script() {
    // 10 Japanese characters alone are below the minimum length.
    assert_eq!(classify_lang("\u{3042}\u{3044}\u{3046}\u{3048}\u{304A}\u{304B}\u{304D}\u{304F}\u{3051}\u{3053}"), None);
    assert_eq!(classify_lang(""), None);
    assert_eq!(classify_lang("hi"), None);
}

#[test]
fn ten_japanese_characters_classify_as_japanese() {
    // Exactly 10 hiragana, padded with spaces past the length floor.
    let text = format!("\u{3042}\u{3044}\u{3046}\u{3048}\u{304A}\u{304B}\u{304D}\u{304F}\u{3051}\u{3053}{}", " ".repeat(25));
    assert_eq!(classify_lang(&text), Some(Lang::Ja));
}

#[test]
fn nine_japanese_characters_do_not_classify_as_japanese() {
    let text = format!("\u{3042}\u{3044}\u{3046}\u{3048}\u{304A}\u{304B}\u{304D}\u{304F}\u{3051}{}", " ".repeat(26));
    assert_eq!(classify_lang(&text), None);
}

#[test]
fn ten_korean_characters_classify_as_korean() {
    let text = format!("{}{}", "\u{AC00}".repeat(10), " ".repeat(25));
    assert_eq!(classify_lang(&text), Some(Lang::Ko));
}

#[test]
fn thirty_latin_letters_classify_as_english() {
    assert_eq!(
        classify_lang("the quick brown fox jumps over the lazy dog"),
        Some(Lang::En),
    );
}

#[test]
fn twenty_nine_latin_letters_are_not_english() {
    // 29 letters and enough spaces to pass the length floor.
    let text = format!("{}{}", "a".repeat(29), " ".repeat(10));
    assert_eq!(classify_lang(&text), None);
}

#[test]
fn mostly_excluded_script_is_unsupported() {
    // 51 Cyrillic characters exceed the excluded-script cap.
    let text = "\u{0430}".repeat(51);
    assert_eq!(classify_lang(&text), None);
}

#[test]
fn katakana_counts_as_japanese() {
    let text = format!("{}{}", "\u{30A2}".repeat(10), " ".repeat(25));
    assert_eq!(classify_lang(&text), Some(Lang::Ja));
}
