//! Content fingerprinting: a 128-bit digest over fully normalized lyric
//! text, and a growing index of the digests seen so far. The index
//! enforces at most one retained copy of identical content for the whole
//! run; it never removes entries, so first-seen-wins is permanent.

use vstd::prelude::*;

use crate::text::{exec_is_word_char, is_word_char, lower_of};
use md5::Digest;
use std::collections::HashSet;

verus! {

// ----------------------------------------------------------------------
// Parenthetical asides
// ----------------------------------------------------------------------

/// An opening parenthesis of an aside: plain or fullwidth. This set is
/// narrower than the bracket set used for identity names.
pub open spec fn is_fp_opener(c: char) -> bool {
    let u = c as u32;
    u == 0x28 || u == 0xFF08
}

/// A closing parenthesis of an aside: plain or fullwidth.
pub open spec fn is_fp_closer(c: char) -> bool {
    let u = c as u32;
    u == 0x29 || u == 0xFF09
}

/// Any parenthesis character, opening or closing.
pub open spec fn is_fp_paren(c: char) -> bool {
    is_fp_opener(c) || is_fp_closer(c)
}

fn exec_is_fp_opener(c: char) -> (r: bool)
    ensures
        r == is_fp_opener(c),
{
    let u = c as u32;
    u == 0x28 || u == 0xFF08
}

fn exec_is_fp_closer(c: char) -> (r: bool)
    ensures
        r == is_fp_closer(c),
{
    let u = c as u32;
    u == 0x29 || u == 0xFF09
}

fn exec_is_fp_paren(c: char) -> (r: bool)
    ensures
        r == is_fp_paren(c),
{
    exec_is_fp_opener(c) || exec_is_fp_closer(c)
}

/// Length of the run of non-parenthesis characters starting at `j`.
pub open spec fn nonparen_run(s: Seq<char>, j: int) -> int
    decreases s.len() - j,
{
    if j < 0 || j >= s.len() {
        0
    } else if !is_fp_paren(s[j]) {
        1 + nonparen_run(s, j + 1)
    } else {
        0
    }
}

proof fn lemma_nonparen_run_exact(s: Seq<char>, a: int, b: int)
    requires
        0 <= a <= b <= s.len(),
        forall|k: int| a <= k < b ==> !is_fp_paren(s[k]),
        b == s.len() || is_fp_paren(s[b]),
    ensures
        nonparen_run(s, a) == b - a,
    decreases b - a,
{
    if a < b {
        lemma_nonparen_run_exact(s, a + 1, b);
    }
}

/// Length of the parenthetical aside starting at `i`, or 0 when none
/// starts there. An aside is an opening parenthesis, a possibly empty run
/// of non-parenthesis characters, and a closing parenthesis.
pub open spec fn paren_group_len(s: Seq<char>, i: int) -> int {
    if 0 <= i < s.len() && is_fp_opener(s[i]) {
        let m = nonparen_run(s, i + 1);
        if i + 1 + m < s.len() && is_fp_closer(s[i + 1 + m]) {
            m + 2
        } else {
            0
        }
    } else {
        0
    }
}

/// Left-to-right scan removing parenthetical asides; all other characters
/// are appended to `out`.
pub open spec fn strip_parens_from(s: Seq<char>, i: int, out: Seq<char>) -> Seq<char>
    decreases s.len() - i,
{
    if i < 0 || i >= s.len() {
        out
    } else if paren_group_len(s, i) > 0 {
        strip_parens_from(s, i + paren_group_len(s, i), out)
    } else {
        strip_parens_from(s, i + 1, out.push(s[i]))
    }
}

/// The text with every parenthetical aside removed.
pub open spec fn strip_parens(s: Seq<char>) -> Seq<char> {
    strip_parens_from(s, 0, Seq::empty())
}

/// Left-to-right scan keeping word characters only.
pub open spec fn strip_nonword_from(s: Seq<char>, i: int, out: Seq<char>) -> Seq<char>
    decreases s.len() - i,
{
    if i < 0 || i >= s.len() {
        out
    } else if is_word_char(s[i]) {
        strip_nonword_from(s, i + 1, out.push(s[i]))
    } else {
        strip_nonword_from(s, i + 1, out)
    }
}

/// The text with every non-word character removed.
pub open spec fn strip_nonword(s: Seq<char>) -> Seq<char> {
    strip_nonword_from(s, 0, Seq::empty())
}

// ----------------------------------------------------------------------
// The digest
// ----------------------------------------------------------------------

pub uninterp spec fn md5_of(s: Seq<char>) -> u128;

/// Relies on Md5::digest of the md-5 crate: the digest is a function of
/// the input bytes alone. The result is the 128-bit MD5 digest of the
/// text's UTF-8 encoding, read as a little-endian integer.
#[verifier::external_body]
fn md5_chars(s: &Vec<char>) -> (r: u128)
    ensures
        r == md5_of(s@),
{
    let owned: String = s.iter().collect();
    let digest = md5::Md5::digest(owned.as_bytes());
    let mut bytes = [0u8; 16];
    bytes.copy_from_slice(&digest);
    u128::from_le_bytes(bytes)
}

/// Lyric text normalized for fingerprinting: parenthetical asides
/// removed, every non-word character removed, and the rest lowercased.
/// May be empty.
pub open spec fn fp_text(no_ts: Seq<char>) -> Seq<char> {
    lower_of(strip_nonword(strip_parens(no_ts)))
}

/// The fingerprint of time-marker-stripped lyric text, or `None` when the
/// text normalizes to nothing.
pub open spec fn fingerprint_of(no_ts: Seq<char>) -> Option<u128> {
    if fp_text(no_ts).len() == 0 {
        None
    } else {
        Some(md5_of(fp_text(no_ts)))
    }
}

/// Compute the content fingerprint of time-marker-stripped lyric text.
/// Returns `None` exactly when the normalized text is empty.
pub fn lyrics_fingerprint(text_no_ts: &Vec<char>) -> (r: Option<u128>)
    ensures
        r == fingerprint_of(text_no_ts@),
{
    let ghost s = text_no_ts@;

    // Remove parenthetical asides.
    let len = text_no_ts.len();
    let mut np: Vec<char> = Vec::new();
    let mut i: usize = 0;
    while i < len
        invariant
            text_no_ts@ == s,
            len == s.len(),
            i <= len,
            strip_parens(s) == strip_parens_from(s, i as int, np@),
        decreases len - i,
    {
        let g = exec_paren_group_len(text_no_ts, i);
        if g > 0 {
            i = i + g;
        } else {
            np.push(text_no_ts[i]);
            i = i + 1;
        }
    }

    // Keep word characters only.
    let ghost sp = np@;
    let lenp = np.len();
    let mut nw: Vec<char> = Vec::new();
    let mut i2: usize = 0;
    while i2 < lenp
        invariant
            np@ == sp,
            lenp == sp.len(),
            i2 <= lenp,
            strip_nonword(sp) == strip_nonword_from(sp, i2 as int, nw@),
        decreases lenp - i2,
    {
        if exec_is_word_char(np[i2]) {
            nw.push(np[i2]);
        }
        i2 = i2 + 1;
    }

    // Lowercase, then hash unless empty.
    let low = crate::text::lowercase_chars(&nw);
    if low.len() == 0 {
        None
    } else {
        Some(md5_chars(&low))
    }
}

/// Compute `paren_group_len(text@, i)` at runtime.
fn exec_paren_group_len(text: &Vec<char>, i: usize) -> (g: usize)
    requires
        i < text@.len(),
    ensures
        g == paren_group_len(text@, i as int),
        i + g <= text@.len(),
{
    let ghost s = text@;
    let len = text.len();
    if !exec_is_fp_opener(text[i]) {
        return 0;
    }
    let mut k: usize = i + 1;
    while k < len && !exec_is_fp_paren(text[k])
        invariant
            text@ == s,
            len == s.len(),
            i + 1 <= k <= len,
            forall|m: int| i + 1 <= m < k ==> !is_fp_paren(s[m]),
        decreases len - k,
    {
        k = k + 1;
    }
    proof {
        lemma_nonparen_run_exact(s, i + 1, k as int);
    }
    if k < len && exec_is_fp_closer(text[k]) {
        k + 1 - i
    } else {
        0
    }
}

// ----------------------------------------------------------------------
// The index
// ----------------------------------------------------------------------

/// The growing set of content fingerprints seen so far in the run.
pub struct FingerprintIndex {
    seen: HashSet<u128>,
}

impl FingerprintIndex {
    /// The set of digests this index holds.
    pub closed spec fn view(&self) -> Set<u128> {
        self.seen@
    }

    /// An empty index.
    pub fn new() -> (idx: FingerprintIndex)
        ensures
            idx@ == Set::<u128>::empty(),
    {
        FingerprintIndex { seen: HashSet::new() }
    }

    /// Record a fingerprint. Returns `true` when it was already present
    /// (the record is a content duplicate), `false` when it is new; either
    /// way the fingerprint is in the index afterwards.
    pub fn check_and_insert(&mut self, fp: u128) -> (dup: bool)
        ensures
            final(self)@ == old(self)@.insert(fp),
            dup == old(self)@.contains(fp),
    {
        broadcast use vstd::std_specs::hash::group_hash_axioms;

        !self.seen.insert(fp)
    }
}

} // verus!
