//! Text normalization: stripping inline time markers from lyric text, and
//! stripping/lowercasing decorative punctuation and parenthetical asides
//! from lyric text and from free-form artist/track names.
//!
//! Every transformation is specified character by character over
//! `Seq<char>`. Length thresholds elsewhere in the crate are measured in
//! characters (Unicode scalar values), a deliberate, uniform choice of
//! length metric across scripts.

use vstd::prelude::*;

verus! {

// ----------------------------------------------------------------------
// Character classes
// ----------------------------------------------------------------------

/// Whitespace, following the Unicode White_Space property.
pub open spec fn is_space(c: char) -> bool {
    let u = c as u32;
    u == 0x09 || u == 0x0A || u == 0x0B || u == 0x0C || u == 0x0D || u == 0x20 || u == 0x85
        || u == 0xA0 || u == 0x1680 || (0x2000 <= u && u <= 0x200A) || u == 0x2028 || u == 0x2029
        || u == 0x202F || u == 0x205F || u == 0x3000
}

/// A "word" character kept by fingerprint and identity normalization:
/// ASCII letters, digits and underscore, plus letters of the scripts this
/// corpus is classified over (Latin-1/Extended without the multiplication
/// and division signs, Greek, Cyrillic, Arabic, Devanagari, Thai, kana and
/// the kana iteration marks, CJK ideographs, Hangul, and the fullwidth
/// letter and digit forms).
pub open spec fn is_word_char(c: char) -> bool {
    let u = c as u32;
    (0x30 <= u && u <= 0x39) || (0x41 <= u && u <= 0x5A) || (0x61 <= u && u <= 0x7A) || u == 0x5F
        || (0xC0 <= u && u <= 0x24F && u != 0xD7 && u != 0xF7) || (0x370 <= u && u <= 0x3FF) || (
    0x400 <= u && u <= 0x4FF) || (0x600 <= u && u <= 0x6FF) || (0x900 <= u && u <= 0x97F) || (0xE00
        <= u && u <= 0xE7F) || (0x3040 <= u && u <= 0x309F) || (0x30A0 <= u && u <= 0x30FF) || u
        == 0x3005 || (0x3400 <= u && u <= 0x4DBF) || (0x4E00 <= u && u <= 0x9FFF) || (0xAC00 <= u
        && u <= 0xD7AF) || (0xFF10 <= u && u <= 0xFF19) || (0xFF21 <= u && u <= 0xFF3A) || (0xFF41
        <= u && u <= 0xFF5A)
}

/// A character allowed inside an inline time marker: a decimal digit, a
/// colon, or a period.
pub open spec fn is_marker_char(c: char) -> bool {
    let u = c as u32;
    (0x30 <= u && u <= 0x39) || u == 0x3A || u == 0x2E
}

pub fn exec_is_space(c: char) -> (r: bool)
    ensures
        r == is_space(c),
{
    let u = c as u32;
    u == 0x09 || u == 0x0A || u == 0x0B || u == 0x0C || u == 0x0D || u == 0x20 || u == 0x85
        || u == 0xA0 || u == 0x1680 || (0x2000 <= u && u <= 0x200A) || u == 0x2028 || u == 0x2029
        || u == 0x202F || u == 0x205F || u == 0x3000
}

pub fn exec_is_word_char(c: char) -> (r: bool)
    ensures
        r == is_word_char(c),
{
    let u = c as u32;
    (0x30 <= u && u <= 0x39) || (0x41 <= u && u <= 0x5A) || (0x61 <= u && u <= 0x7A) || u == 0x5F
        || (0xC0 <= u && u <= 0x24F && u != 0xD7 && u != 0xF7) || (0x370 <= u && u <= 0x3FF) || (
    0x400 <= u && u <= 0x4FF) || (0x600 <= u && u <= 0x6FF) || (0x900 <= u && u <= 0x97F) || (0xE00
        <= u && u <= 0xE7F) || (0x3040 <= u && u <= 0x309F) || (0x30A0 <= u && u <= 0x30FF) || u
        == 0x3005 || (0x3400 <= u && u <= 0x4DBF) || (0x4E00 <= u && u <= 0x9FFF) || (0xAC00 <= u
        && u <= 0xD7AF) || (0xFF10 <= u && u <= 0xFF19) || (0xFF21 <= u && u <= 0xFF3A) || (0xFF41
        <= u && u <= 0xFF5A)
}

fn exec_is_marker_char(c: char) -> (r: bool)
    ensures
        r == is_marker_char(c),
{
    let u = c as u32;
    (0x30 <= u && u <= 0x39) || u == 0x3A || u == 0x2E
}

// ----------------------------------------------------------------------
// From &str to Vec<char>
// ----------------------------------------------------------------------

/// Collect the characters of a string slice into a vector.
pub fn chars_of(s: &str) -> (v: Vec<char>)
    ensures
        v@ == s@,
{
    broadcast use vstd::string::axiom_spec_iter;

    let mut v: Vec<char> = Vec::new();
    for c in it: s.chars()
        invariant
            it.seq() == s@,
            v@ == it.history(),
    {
        v.push(c);
    }
    assert(v@ =~= s@);
    v
}

// ----------------------------------------------------------------------
// Inline time markers
// ----------------------------------------------------------------------

/// Length of the run of marker characters starting at `j`.
pub open spec fn marker_run(s: Seq<char>, j: int) -> int
    decreases s.len() - j,
{
    if j < 0 || j >= s.len() {
        0
    } else if is_marker_char(s[j]) {
        1 + marker_run(s, j + 1)
    } else {
        0
    }
}

/// An inline time marker starts at `i`: an opening square bracket, a
/// non-empty run of digits, colons and periods, and a closing square
/// bracket.
pub open spec fn marker_at(s: Seq<char>, i: int) -> bool {
    &&& 0 <= i < s.len()
    &&& s[i] == '['
    &&& marker_run(s, i + 1) >= 1
    &&& i + 1 + marker_run(s, i + 1) < s.len()
    &&& s[i + 1 + marker_run(s, i + 1)] == ']'
}

/// Total length of the marker starting at `i` (brackets included).
pub open spec fn marker_len(s: Seq<char>, i: int) -> int {
    marker_run(s, i + 1) + 2
}

/// Left-to-right scan from position `i`: markers are skipped, all other
/// characters are appended to `out`.
pub open spec fn strip_markers_from(s: Seq<char>, i: int, out: Seq<char>) -> Seq<char>
    decreases s.len() - i,
{
    if i < 0 || i >= s.len() {
        out
    } else if marker_at(s, i) {
        strip_markers_from(s, i + marker_len(s, i), out)
    } else {
        strip_markers_from(s, i + 1, out.push(s[i]))
    }
}

/// The text with every inline time marker removed.
pub open spec fn strip_time_markers_spec(s: Seq<char>) -> Seq<char> {
    strip_markers_from(s, 0, Seq::empty())
}

proof fn lemma_marker_run_exact(s: Seq<char>, a: int, b: int)
    requires
        0 <= a <= b <= s.len(),
        forall|k: int| a <= k < b ==> is_marker_char(s[k]),
        b == s.len() || !is_marker_char(s[b]),
    ensures
        marker_run(s, a) == b - a,
    decreases b - a,
{
    if a < b {
        lemma_marker_run_exact(s, a + 1, b);
    }
}

/// Remove every inline time marker (bracketed numeric time code) from the
/// text. Pure and total.
pub fn strip_time_markers(text: &Vec<char>) -> (out: Vec<char>)
    ensures
        out@ == strip_time_markers_spec(text@),
{
    let ghost s = text@;
    let n = text.len();
    let mut out: Vec<char> = Vec::new();
    let mut i: usize = 0;
    while i < n
        invariant
            n == s.len(),
            text@ == s,
            i <= n,
            strip_markers_from(s, 0, Seq::empty()) == strip_markers_from(s, i as int, out@),
        decreases n - i,
    {
        if text[i] == '[' {
            // Scan the run of marker characters after the bracket.
            let mut j: usize = i + 1;
            while j < n && exec_is_marker_char(text[j])
                invariant
                    n == s.len(),
                    text@ == s,
                    i + 1 <= j <= n,
                    forall|k: int| i + 1 <= k < j ==> is_marker_char(s[k]),
                decreases n - j,
            {
                j = j + 1;
            }
            proof {
                lemma_marker_run_exact(s, i + 1, j as int);
            }
            if j > i + 1 && j < n && text[j] == ']' {
                // A complete marker: skip it.
                assert(marker_at(s, i as int));
                i = j + 1;
            } else {
                assert(!marker_at(s, i as int));
                out.push(text[i]);
                i = i + 1;
            }
        } else {
            assert(!marker_at(s, i as int));
            out.push(text[i]);
            i = i + 1;
        }
    }
    out
}

// ----------------------------------------------------------------------
// Trimming and line counting
// ----------------------------------------------------------------------

/// The text with leading whitespace removed.
pub open spec fn trim_front(s: Seq<char>) -> Seq<char>
    decreases s.len(),
{
    if s.len() > 0 && is_space(s[0]) {
        trim_front(s.drop_first())
    } else {
        s
    }
}

/// The text with trailing whitespace removed.
pub open spec fn trim_back(s: Seq<char>) -> Seq<char>
    decreases s.len(),
{
    if s.len() > 0 && is_space(s[s.len() - 1]) {
        trim_back(s.drop_last())
    } else {
        s
    }
}

/// The text with whitespace removed from both ends.
pub open spec fn trimmed(s: Seq<char>) -> Seq<char> {
    trim_back(trim_front(s))
}

proof fn lemma_trim_front_exact(s: Seq<char>, a: int)
    requires
        0 <= a <= s.len(),
        forall|k: int| 0 <= k < a ==> is_space(s[k]),
        a == s.len() || !is_space(s[a]),
    ensures
        trim_front(s) == s.skip(a),
    decreases a,
{
    if a > 0 {
        lemma_trim_front_exact(s.drop_first(), a - 1);
        assert(s.drop_first().skip(a - 1) =~= s.skip(a));
    } else {
        assert(s.skip(0) =~= s);
    }
}

proof fn lemma_trim_back_exact(s: Seq<char>, b: int)
    requires
        0 <= b <= s.len(),
        forall|k: int| b <= k < s.len() ==> is_space(s[k]),
        b == 0 || !is_space(s[b - 1]),
    ensures
        trim_back(s) == s.take(b),
    decreases s.len() - b,
{
    if b < s.len() {
        lemma_trim_back_exact(s.drop_last(), b);
        assert(s.drop_last().take(b) =~= s.take(b));
    } else {
        assert(s.take(s.len() as int) =~= s);
    }
}

/// Number of characters left after trimming whitespace from both ends.
pub fn trimmed_len(text: &Vec<char>) -> (n: usize)
    ensures
        n == trimmed(text@).len(),
{
    let ghost s = text@;
    let len = text.len();
    let mut a: usize = 0;
    while a < len && exec_is_space(text[a])
        invariant
            text@ == s,
            len == s.len(),
            a <= len,
            forall|k: int| 0 <= k < a ==> is_space(s[k]),
        decreases len - a,
    {
        a = a + 1;
    }
    proof {
        lemma_trim_front_exact(s, a as int);
    }
    if a == len {
        // All whitespace: the trimmed text is empty.
        assert(trimmed(s) =~= Seq::<char>::empty());
        return 0;
    }
    let mut b: usize = len;
    while b > a && exec_is_space(text[b - 1])
        invariant
            text@ == s,
            len == s.len(),
            a <= b <= len,
            forall|k: int| b <= k < len ==> is_space(s[k]),
        decreases b,
    {
        b = b - 1;
    }
    // b > a here: s[a] is not whitespace, so the scan stops at or after a+1.
    proof {
        let t = s.skip(a as int);
        lemma_trim_back_exact(t, b - a);
        assert(trimmed(s) == t.take(b - a));
    }
    b - a
}

/// Number of newline characters in `s` from position `i` on.
pub open spec fn newline_count_from(s: Seq<char>, i: int) -> int
    decreases s.len() - i,
{
    if i < 0 || i >= s.len() {
        0
    } else {
        (if s[i] == '\n' {
            1int
        } else {
            0int
        }) + newline_count_from(s, i + 1)
    }
}

/// Number of newline-separated segments of the text: one more than the
/// number of newline characters.
pub open spec fn line_count_spec(s: Seq<char>) -> int {
    newline_count_from(s, 0) + 1
}

pub proof fn lemma_newline_count_from_bounds(s: Seq<char>, i: int)
    requires
        0 <= i <= s.len(),
    ensures
        0 <= newline_count_from(s, i) <= s.len() - i,
    decreases s.len() - i,
{
    if i < s.len() {
        lemma_newline_count_from_bounds(s, i + 1);
    }
}

/// Count of newline-separated segments in the text.
pub fn line_count(text: &Vec<char>) -> (n: usize)
    requires
        text@.len() < usize::MAX,
    ensures
        n == line_count_spec(text@),
{
    let ghost s = text@;
    let len = text.len();
    let mut cnt: usize = 0;
    let mut i: usize = 0;
    proof {
        lemma_newline_count_from_bounds(s, 0);
    }
    while i < len
        invariant
            text@ == s,
            len == s.len() < usize::MAX,
            i <= len,
            cnt == newline_count_from(s, 0) - newline_count_from(s, i as int),
            0 <= newline_count_from(s, i as int) <= s.len() - i,
            0 <= newline_count_from(s, 0) <= s.len(),
        decreases len - i,
    {
        proof {
            lemma_newline_count_from_bounds(s, i + 1);
        }
        if text[i] == '\n' {
            cnt = cnt + 1;
        }
        i = i + 1;
    }
    cnt + 1
}

// ----------------------------------------------------------------------
// Case folding (trusted)
// ----------------------------------------------------------------------

pub uninterp spec fn lower_of(s: Seq<char>) -> Seq<char>;

/// Relies on str::to_lowercase from std: the lowercased text is a function
/// of the input characters alone. An empty input gives an empty result; a
/// non-empty input gives a non-empty result, since every character maps to
/// one or more lowercase characters.
#[verifier::external_body]
pub(crate) fn lowercase_chars(s: &Vec<char>) -> (r: Vec<char>)
    ensures
        r@ == lower_of(s@),
        s@.len() == 0 ==> r@.len() == 0,
        s@.len() > 0 ==> r@.len() > 0,
{
    let owned: String = s.iter().collect();
    owned.to_lowercase().chars().collect()
}

// ----------------------------------------------------------------------
// Bracketed annotation groups in names
// ----------------------------------------------------------------------

/// An opening bracket of an annotation group in a name: plain or fullwidth
/// parenthesis, square bracket, or black lenticular bracket.
pub open spec fn is_id_opener(c: char) -> bool {
    let u = c as u32;
    u == 0x28 || u == 0xFF08 || u == 0x5B || u == 0x3010
}

/// A closing bracket of an annotation group in a name.
pub open spec fn is_id_closer(c: char) -> bool {
    let u = c as u32;
    u == 0x29 || u == 0xFF09 || u == 0x5D || u == 0x3011
}

fn exec_is_id_opener(c: char) -> (r: bool)
    ensures
        r == is_id_opener(c),
{
    let u = c as u32;
    u == 0x28 || u == 0xFF08 || u == 0x5B || u == 0x3010
}

fn exec_is_id_closer(c: char) -> (r: bool)
    ensures
        r == is_id_closer(c),
{
    let u = c as u32;
    u == 0x29 || u == 0xFF09 || u == 0x5D || u == 0x3011
}

/// Length of the run of whitespace characters starting at `j`.
pub open spec fn space_run(s: Seq<char>, j: int) -> int
    decreases s.len() - j,
{
    if j < 0 || j >= s.len() {
        0
    } else if is_space(s[j]) {
        1 + space_run(s, j + 1)
    } else {
        0
    }
}

proof fn lemma_space_run_exact(s: Seq<char>, a: int, b: int)
    requires
        0 <= a <= b <= s.len(),
        forall|k: int| a <= k < b ==> is_space(s[k]),
        b == s.len() || !is_space(s[b]),
    ensures
        space_run(s, a) == b - a,
    decreases b - a,
{
    if a < b {
        lemma_space_run_exact(s, a + 1, b);
    }
}

/// Index of the first closing bracket at or after `j`, or the length of
/// the text when there is none.
pub open spec fn id_closer_from(s: Seq<char>, j: int) -> int
    decreases s.len() - j,
{
    if j < 0 || j >= s.len() {
        s.len() as int
    } else if is_id_closer(s[j]) {
        j
    } else {
        id_closer_from(s, j + 1)
    }
}

proof fn lemma_id_closer_from_exact(s: Seq<char>, a: int, b: int)
    requires
        0 <= a <= b <= s.len(),
        forall|k: int| a <= k < b ==> !is_id_closer(s[k]),
        b == s.len() || is_id_closer(s[b]),
    ensures
        id_closer_from(s, a) == b,
    decreases b - a,
{
    if a < b {
        lemma_id_closer_from_exact(s, a + 1, b);
    }
}

/// Length of the annotation group starting at `i`, or 0 when none starts
/// there. A group is a run of whitespace, an opening bracket, at least one
/// arbitrary character, and the first closing bracket after those.
pub open spec fn bracket_group_len(s: Seq<char>, i: int) -> int {
    let j = i + space_run(s, i);
    if j < s.len() && is_id_opener(s[j]) {
        let k = id_closer_from(s, j + 2);
        if k < s.len() {
            k + 1 - i
        } else {
            0
        }
    } else {
        0
    }
}

/// Left-to-right scan removing annotation groups; all other characters
/// are appended to `out`.
pub open spec fn strip_brackets_from(s: Seq<char>, i: int, out: Seq<char>) -> Seq<char>
    decreases s.len() - i,
{
    if i < 0 || i >= s.len() {
        out
    } else if bracket_group_len(s, i) > 0 {
        strip_brackets_from(s, i + bracket_group_len(s, i), out)
    } else {
        strip_brackets_from(s, i + 1, out.push(s[i]))
    }
}

/// The name with every bracketed annotation group removed, along with the
/// whitespace just before it.
pub open spec fn strip_brackets(s: Seq<char>) -> Seq<char> {
    strip_brackets_from(s, 0, Seq::empty())
}

/// Compute `bracket_group_len(text@, i)` at runtime.
fn exec_bracket_group_len(text: &Vec<char>, i: usize) -> (g: usize)
    requires
        i < text@.len(),
    ensures
        g == bracket_group_len(text@, i as int),
        i + g <= text@.len(),
{
    let ghost s = text@;
    let len = text.len();
    let mut j: usize = i;
    while j < len && exec_is_space(text[j])
        invariant
            text@ == s,
            len == s.len(),
            i <= j <= len,
            forall|k: int| i <= k < j ==> is_space(s[k]),
        decreases len - j,
    {
        j = j + 1;
    }
    proof {
        lemma_space_run_exact(s, i as int, j as int);
    }
    if j < len && exec_is_id_opener(text[j]) {
        if len - j < 3 {
            assert(id_closer_from(s, j + 2) == s.len());
            return 0;
        }
        let mut k: usize = j + 2;
        while k < len && !exec_is_id_closer(text[k])
            invariant
                text@ == s,
                len == s.len(),
                j + 2 <= k <= len,
                forall|m: int| j + 2 <= m < k ==> !is_id_closer(s[m]),
            decreases len - k,
        {
            k = k + 1;
        }
        proof {
            lemma_id_closer_from_exact(s, j + 2, k as int);
        }
        if k < len {
            k + 1 - i
        } else {
            0
        }
    } else {
        0
    }
}

// ----------------------------------------------------------------------
// Trailing featured-credit suffixes in names
// ----------------------------------------------------------------------

/// A featured-credit word starts at `j`: "feat", "ft" or "with" followed
/// by at least one whitespace character. Names are lowercased before this
/// runs.
pub open spec fn feat_marker_at(s: Seq<char>, j: int) -> bool {
    ||| (0 <= j && j + 4 < s.len() && s[j] == 'f' && s[j + 1] == 'e' && s[j + 2] == 'a' && s[j + 3]
        == 't' && is_space(s[j + 4]))
    ||| (0 <= j && j + 2 < s.len() && s[j] == 'f' && s[j + 1] == 't' && is_space(s[j + 2]))
    ||| (0 <= j && j + 4 < s.len() && s[j] == 'w' && s[j + 1] == 'i' && s[j + 2] == 't' && s[j + 3]
        == 'h' && is_space(s[j + 4]))
}

/// A featured-credit suffix starts at `i`: optional whitespace, then a
/// credit word. Everything from `i` to the end of the name is removed.
pub open spec fn feat_starts_at(s: Seq<char>, i: int) -> bool {
    feat_marker_at(s, i + space_run(s, i))
}

/// Left-to-right scan: characters are kept until the first position where
/// a featured-credit suffix starts; the rest is dropped.
pub open spec fn strip_feat_from(s: Seq<char>, i: int, out: Seq<char>) -> Seq<char>
    decreases s.len() - i,
{
    if i < 0 || i >= s.len() {
        out
    } else if feat_starts_at(s, i) {
        out
    } else {
        strip_feat_from(s, i + 1, out.push(s[i]))
    }
}

/// The name with a trailing "feat/ft/with ..." credit removed.
pub open spec fn strip_feat(s: Seq<char>) -> Seq<char> {
    strip_feat_from(s, 0, Seq::empty())
}

/// Decide `feat_starts_at(text@, i)` at runtime.
fn exec_feat_starts_at(text: &Vec<char>, i: usize) -> (r: bool)
    requires
        i < text@.len(),
    ensures
        r == feat_starts_at(text@, i as int),
{
    let ghost s = text@;
    let len = text.len();
    let mut j: usize = i;
    while j < len && exec_is_space(text[j])
        invariant
            text@ == s,
            len == s.len(),
            i <= j <= len,
            forall|k: int| i <= k < j ==> is_space(s[k]),
        decreases len - j,
    {
        j = j + 1;
    }
    proof {
        lemma_space_run_exact(s, i as int, j as int);
    }
    if len - j > 4 && text[j] == 'f' && text[j + 1] == 'e' && text[j + 2] == 'a' && text[j + 3]
        == 't' && exec_is_space(text[j + 4]) {
        return true;
    }
    if len - j > 2 && text[j] == 'f' && text[j + 1] == 't' && exec_is_space(text[j + 2]) {
        return true;
    }
    if len - j > 4 && text[j] == 'w' && text[j + 1] == 'i' && text[j + 2] == 't' && text[j + 3]
        == 'h' && exec_is_space(text[j + 4]) {
        return true;
    }
    false
}

// ----------------------------------------------------------------------
// Symbol removal and whitespace collapsing
// ----------------------------------------------------------------------

/// Left-to-right scan keeping word characters and whitespace only.
pub open spec fn strip_symbols_from(s: Seq<char>, i: int, out: Seq<char>) -> Seq<char>
    decreases s.len() - i,
{
    if i < 0 || i >= s.len() {
        out
    } else if is_word_char(s[i]) || is_space(s[i]) {
        strip_symbols_from(s, i + 1, out.push(s[i]))
    } else {
        strip_symbols_from(s, i + 1, out)
    }
}

/// The name with every character that is neither a word character nor
/// whitespace removed.
pub open spec fn strip_symbols(s: Seq<char>) -> Seq<char> {
    strip_symbols_from(s, 0, Seq::empty())
}

/// Left-to-right scan mapping every whitespace run to a single space and
/// dropping leading whitespace; may leave one trailing space.
pub open spec fn squash_spaces_from(s: Seq<char>, i: int, out: Seq<char>) -> Seq<char>
    decreases s.len() - i,
{
    if i < 0 || i >= s.len() {
        out
    } else if is_space(s[i]) {
        if out.len() > 0 && out[out.len() - 1] != ' ' {
            squash_spaces_from(s, i + 1, out.push(' '))
        } else {
            squash_spaces_from(s, i + 1, out)
        }
    } else {
        squash_spaces_from(s, i + 1, out.push(s[i]))
    }
}

/// Internal whitespace runs collapsed to single spaces, ends trimmed.
pub open spec fn collapse_spaces(s: Seq<char>) -> Seq<char> {
    let t = squash_spaces_from(s, 0, Seq::empty());
    if t.len() > 0 && t[t.len() - 1] == ' ' {
        t.drop_last()
    } else {
        t
    }
}

// ----------------------------------------------------------------------
// Identity-name normalization
// ----------------------------------------------------------------------

/// Normalization applied to a lowercased artist or track name: bracketed
/// annotation groups removed, a trailing featured-credit suffix removed,
/// remaining punctuation stripped, and whitespace runs collapsed.
pub open spec fn normalize_name_spec(low: Seq<char>) -> Seq<char> {
    collapse_spaces(strip_symbols(strip_feat(strip_brackets(low))))
}

/// Normalize a free-form artist or track name for the metadata identity
/// key: lowercase, then remove annotation groups, a featured-credit
/// suffix and punctuation, and collapse whitespace.
pub fn normalize_name(name: &str) -> (r: Vec<char>)
    ensures
        r@ == normalize_name_spec(lower_of(name@)),
{
    let raw = chars_of(name);
    let low = lowercase_chars(&raw);
    let ghost s = low@;

    // Remove bracketed annotation groups.
    let len = low.len();
    let mut nb: Vec<char> = Vec::new();
    let mut i: usize = 0;
    while i < len
        invariant
            low@ == s,
            len == s.len(),
            i <= len,
            strip_brackets(s) == strip_brackets_from(s, i as int, nb@),
        decreases len - i,
    {
        let g = exec_bracket_group_len(&low, i);
        if g > 0 {
            i = i + g;
        } else {
            nb.push(low[i]);
            i = i + 1;
        }
    }

    // Remove a trailing featured-credit suffix.
    let ghost sb = nb@;
    let lenb = nb.len();
    let mut nf: Vec<char> = Vec::new();
    let mut i2: usize = 0;
    let mut stopped = false;
    while i2 < lenb && !stopped
        invariant
            nb@ == sb,
            lenb == sb.len(),
            i2 <= lenb,
            !stopped ==> strip_feat(sb) == strip_feat_from(sb, i2 as int, nf@),
            stopped ==> nf@ == strip_feat(sb),
        decreases lenb - i2, 1int - (if stopped { 1int } else { 0int }),
    {
        if exec_feat_starts_at(&nb, i2) {
            stopped = true;
        } else {
            nf.push(nb[i2]);
            i2 = i2 + 1;
        }
    }

    // Strip symbols.
    let ghost sf = nf@;
    let lenf = nf.len();
    let mut ns: Vec<char> = Vec::new();
    let mut i3: usize = 0;
    while i3 < lenf
        invariant
            nf@ == sf,
            lenf == sf.len(),
            i3 <= lenf,
            strip_symbols(sf) == strip_symbols_from(sf, i3 as int, ns@),
        decreases lenf - i3,
    {
        let c = nf[i3];
        if exec_is_word_char(c) || exec_is_space(c) {
            ns.push(c);
        }
        i3 = i3 + 1;
    }

    // Collapse whitespace runs and trim.
    let ghost ss = ns@;
    let lens = ns.len();
    let mut out: Vec<char> = Vec::new();
    let mut i4: usize = 0;
    while i4 < lens
        invariant
            ns@ == ss,
            lens == ss.len(),
            i4 <= lens,
            squash_spaces_from(ss, 0, Seq::empty()) == squash_spaces_from(ss, i4 as int, out@),
        decreases lens - i4,
    {
        let c = ns[i4];
        if exec_is_space(c) {
            if out.len() > 0 && out[out.len() - 1] != ' ' {
                out.push(' ');
            }
        } else {
            out.push(c);
        }
        i4 = i4 + 1;
    }
    if out.len() > 0 && out[out.len() - 1] == ' ' {
        out.pop();
    }
    out
}

} // verus!
