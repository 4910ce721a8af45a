//! Language classification: a codepoint-range histogram classifier
//! deciding among three supported languages or rejection.
//!
//! A single scan maintains four counters: Japanese-script,
//! Korean-script, Latin-script and excluded-script characters. The scan
//! exits early as soon as a decision is forced, and the spec mirrors the
//! scan exactly, so an early exit and a full scan agree.

use vstd::prelude::*;

use crate::text::chars_of;

verus! {

/// The three supported languages; anything else is rejected.
#[derive(Clone, Copy, Debug, PartialEq, Eq, Structural)]
pub enum Lang {
    Ja,
    Ko,
    En,
}

/// Minimum classified-text length, in characters.
pub const MIN_CLASSIFY_LEN: usize = 30;

/// Japanese script: hiragana or katakana.
pub open spec fn is_ja_char(c: char) -> bool {
    let u = c as u32;
    (0x3040 <= u && u <= 0x309F) || (0x30A0 <= u && u <= 0x30FF)
}

/// Korean script: precomposed hangul syllables.
pub open spec fn is_ko_char(c: char) -> bool {
    let u = c as u32;
    0xAC00 <= u && u <= 0xD7AF
}

/// Latin script: ASCII letters plus Latin-1 and Latin Extended letters.
pub open spec fn is_latin_char(c: char) -> bool {
    let u = c as u32;
    (0x41 <= u && u <= 0x5A) || (0x61 <= u && u <= 0x7A) || (0xC0 <= u && u <= 0x24F)
}

/// Excluded scripts: Arabic, Cyrillic, Devanagari or Thai codepoint
/// ranges. Text dominated by these is rejected outright.
pub open spec fn is_excluded_char(c: char) -> bool {
    let u = c as u32;
    (0x600 <= u && u <= 0x6FF) || (0x400 <= u && u <= 0x4FF) || (0x900 <= u && u <= 0x97F) || (
    0xE00 <= u && u <= 0xE7F)
}

fn exec_is_ja_char(c: char) -> (r: bool)
    ensures
        r == is_ja_char(c),
{
    let u = c as u32;
    (0x3040 <= u && u <= 0x309F) || (0x30A0 <= u && u <= 0x30FF)
}

fn exec_is_ko_char(c: char) -> (r: bool)
    ensures
        r == is_ko_char(c),
{
    let u = c as u32;
    0xAC00 <= u && u <= 0xD7AF
}

fn exec_is_latin_char(c: char) -> (r: bool)
    ensures
        r == is_latin_char(c),
{
    let u = c as u32;
    (0x41 <= u && u <= 0x5A) || (0x61 <= u && u <= 0x7A) || (0xC0 <= u && u <= 0x24F)
}

fn exec_is_excluded_char(c: char) -> (r: bool)
    ensures
        r == is_excluded_char(c),
{
    let u = c as u32;
    (0x600 <= u && u <= 0x6FF) || (0x400 <= u && u <= 0x4FF) || (0x900 <= u && u <= 0x97F) || (
    0xE00 <= u && u <= 0xE7F)
}

/// One step of the classifying scan, with the counters accumulated so
/// far. Decisions are made as early as the scan can force them:
/// 10 Japanese or Korean characters decide immediately, more than 50
/// excluded characters reject immediately; otherwise the end-of-text
/// rules apply.
pub open spec fn classify_step(
    s: Seq<char>,
    i: int,
    ja: int,
    ko: int,
    latin: int,
    excl: int,
) -> Option<Lang>
    decreases s.len() - i,
{
    if i < 0 || i >= s.len() {
        if excl > 50 && excl > latin {
            None
        } else if latin >= 30 {
            Some(Lang::En)
        } else {
            None
        }
    } else {
        let c = s[i];
        if is_ja_char(c) {
            if ja + 1 >= 10 {
                Some(Lang::Ja)
            } else {
                classify_step(s, i + 1, ja + 1, ko, latin, excl)
            }
        } else if is_ko_char(c) {
            if ko + 1 >= 10 {
                Some(Lang::Ko)
            } else {
                classify_step(s, i + 1, ja, ko + 1, latin, excl)
            }
        } else if is_latin_char(c) {
            classify_step(s, i + 1, ja, ko, latin + 1, excl)
        } else if is_excluded_char(c) {
            if excl + 1 > 50 {
                None
            } else {
                classify_step(s, i + 1, ja, ko, latin, excl + 1)
            }
        } else {
            classify_step(s, i + 1, ja, ko, latin, excl)
        }
    }
}

/// The classification of a text: `None` for anything shorter than the
/// minimum length, otherwise the result of the scan started with all
/// counters at zero.
pub open spec fn classify_spec(s: Seq<char>) -> Option<Lang> {
    if s.len() < MIN_CLASSIFY_LEN {
        None
    } else {
        classify_step(s, 0, 0, 0, 0, 0)
    }
}

/// Classify time-marker-stripped lyric text as one of the three
/// supported languages, or `None` for unsupported. Total over any text;
/// anything shorter than the minimum length is unsupported, whatever its
/// script mixture.
pub fn classify_lang(text_no_ts: &str) -> (r: Option<Lang>)
    ensures
        r == classify_spec(text_no_ts@),
{
    let v = chars_of(text_no_ts);
    classify_chars(&v)
}

/// Classify text already split into characters.
pub fn classify_chars(v: &Vec<char>) -> (r: Option<Lang>)
    ensures
        r == classify_spec(v@),
{
    let ghost s = v@;
    let len = v.len();
    if len < MIN_CLASSIFY_LEN {
        return None;
    }
    let mut ja: usize = 0;
    let mut ko: usize = 0;
    let mut latin: usize = 0;
    let mut excl: usize = 0;
    let mut i: usize = 0;
    while i < len
        invariant
            v@ == s,
            s.len() >= MIN_CLASSIFY_LEN,
            len == s.len(),
            i <= len,
            ja < 10,
            ko < 10,
            excl <= 50,
            latin <= i,
            classify_step(s, 0, 0, 0, 0, 0) == classify_step(
                s,
                i as int,
                ja as int,
                ko as int,
                latin as int,
                excl as int,
            ),
        decreases len - i,
    {
        let c = v[i];
        if exec_is_ja_char(c) {
            if ja + 1 >= 10 {
                return Some(Lang::Ja);
            }
            ja = ja + 1;
        } else if exec_is_ko_char(c) {
            if ko + 1 >= 10 {
                return Some(Lang::Ko);
            }
            ko = ko + 1;
        } else if exec_is_latin_char(c) {
            latin = latin + 1;
        } else if exec_is_excluded_char(c) {
            if excl + 1 > 50 {
                return None;
            }
            excl = excl + 1;
        }
        i = i + 1;
    }
    if excl > 50 && excl > latin {
        None
    } else if latin >= 30 {
        Some(Lang::En)
    } else {
        None
    }
}

} // verus!
