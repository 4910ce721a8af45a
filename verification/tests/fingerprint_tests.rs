//! Tests for fingerprint normalization and the content digest.

use lyrics_filter::fingerprint::lyrics_fingerprint;
use lyrics_filter::text::chars_of;

#[test]
fn fingerprint_is_md5_of_normalized_text() {
    // The text "hello" survives normalization unchanged; its MD5 digest
    // is 5d41402abc4b2a76b9719d911017c592, read little-endian.
    let expected = u128::from_le_bytes([
        0x5d, 0x41, 0x40, 0x2a, 0xbc, 0x4b, 0x2a, 0x76, 0xb9, 0x71, 0x9d, 0x91, 0x10, 0x17, 0xc5,
        0x92,
    ]);
    assert_eq!(lyrics_fingerprint(&chars_of("hello")), Some(expected));
}

#[test]
fn fingerprint_folds_case() {
    assert_eq!(
        lyrics_fingerprint(&chars_of("HeLLo")),
        lyrics_fingerprint(&chars_of("hello")),
    );
}

#[test]
fn fingerprint_ignores_punctuation_and_spacing() {
    assert_eq!(
        lyrics_fingerprint(&chars_of("he l-lo!")),
        lyrics_fingerprint(&chars_of("hello")),
    );
}

#[test]
fn fingerprint_removes_parenthetical_asides() {
    assert_eq!(
        lyrics_fingerprint(&chars_of("hello (radio edit)")),
        lyrics_fingerprint(&chars_of("hello")),
    );
}

#[test]
fn different_text_gives_different_fingerprint() {
    assert_ne!(
        lyrics_fingerprint(&chars_of("hello")),
        lyrics_fingerprint(&chars_of("goodbye")),
    );
}

#[test]
fn empty_normalization_gives_no_fingerprint() {
    assert_eq!(lyrics_fingerprint(&chars_of("")), None);
    assert_eq!(lyrics_fingerprint(&chars_of("!!! ---")), None);
    assert_eq!(lyrics_fingerprint(&chars_of("(aside)")), None);
}
