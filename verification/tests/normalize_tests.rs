//! Tests for the text normalizer: time markers, identity names, and the
//! quality-gate measurements.

use lyrics_filter::text::{chars_of, line_count, normalize_name, strip_time_markers, trimmed_len};

fn s2v(s: &str) -> Vec<char> {
    chars_of(s)
}

#[test]
fn strips_a_single_time_marker() {
    let out = strip_time_markers(&s2v("[00:12.34]Hello"));
    assert_eq!(out, s2v("Hello"));
}

#[test]
fn strips_many_markers_and_keeps_text_between() {
    let out = strip_time_markers(&s2v("[00:01.00]La la[00:02.50]\n[01:10]more"));
    assert_eq!(out, s2v("La la\nmore"));
}

#[test]
fn empty_brackets_are_not_markers() {
    let out = strip_time_markers(&s2v("a[]b"));
    assert_eq!(out, s2v("a[]b"));
}

#[test]
fn brackets_with_letters_are_not_markers() {
    let out = strip_time_markers(&s2v("[chorus] la"));
    assert_eq!(out, s2v("[chorus] la"));
}

#[test]
fn unclosed_marker_is_kept() {
    let out = strip_time_markers(&s2v("[00:12 la"));
    assert_eq!(out, s2v("[00:12 la"));
}

#[test]
fn nested_bracket_marker_inside() {
    // The inner bracketed time code is a marker; the outer bracket is not.
    let out = strip_time_markers(&s2v("[[00:12]]"));
    assert_eq!(out, s2v("[]"));
}

#[test]
fn trimmed_len_ignores_surrounding_whitespace() {
    assert_eq!(trimmed_len(&s2v("  hello \n")), 5);
    assert_eq!(trimmed_len(&s2v("   \n\t ")), 0);
    assert_eq!(trimmed_len(&s2v("")), 0);
    assert_eq!(trimmed_len(&s2v("a")), 1);
}

#[test]
fn line_count_is_newlines_plus_one() {
    assert_eq!(line_count(&s2v("")), 1);
    assert_eq!(line_count(&s2v("one")), 1);
    assert_eq!(line_count(&s2v("one\ntwo\nthree")), 3);
    assert_eq!(line_count(&s2v("a\n\n\nb")), 4);
}

#[test]
fn normalize_name_lowercases() {
    assert_eq!(normalize_name("The Beatles"), s2v("the beatles"));
}

#[test]
fn normalize_name_removes_parenthetical_annotation() {
    assert_eq!(normalize_name("Song Title (Remastered 2009)"), s2v("song title"));
}

#[test]
fn normalize_name_removes_fullwidth_bracket_annotation() {
    assert_eq!(normalize_name("\u{66F2}\u{540D}\u{3010}Live\u{3011}"), s2v("\u{66F2}\u{540D}"));
}

#[test]
fn normalize_name_removes_feat_suffix() {
    assert_eq!(normalize_name("Great Song feat Someone Else"), s2v("great song"));
    assert_eq!(normalize_name("Great Song ft Someone"), s2v("great song"));
    assert_eq!(normalize_name("Great Song with Someone"), s2v("great song"));
}

#[test]
fn normalize_name_keeps_feat_without_following_space() {
    // "feat" must be followed by whitespace to count as a credit.
    assert_eq!(normalize_name("Defeated"), s2v("defeated"));
}

#[test]
fn normalize_name_strips_punctuation() {
    assert_eq!(normalize_name("AC/DC"), s2v("acdc"));
    assert_eq!(normalize_name("Don't Stop!"), s2v("dont stop"));
}

#[test]
fn normalize_name_collapses_whitespace() {
    assert_eq!(normalize_name("  A   B  "), s2v("a b"));
}

#[test]
fn normalize_name_empty_input() {
    assert_eq!(normalize_name(""), s2v(""));
}
