//! The filtering/deduplication engine: one irrevocable keep/drop decision
//! per record, made in a single forward pass over the stream.
//!
//! Each record runs through the quality gate, the language classifier,
//! the content-fingerprint index and the metadata identity index, in that
//! order, short-circuiting on the first rejection. The engine owns the two
//! indices and the run counters; every storage effect is returned to the
//! caller as a [`Decision`], so all I/O stays outside the crate.

use vstd::prelude::*;

use crate::duration_bucket_spec;
use crate::fingerprint::{fingerprint_of, fp_text, FingerprintIndex};
use crate::lang::{classify_chars, classify_spec, Lang, MIN_CLASSIFY_LEN};
use crate::meta::{MetaIndex, MetaOutcome};
use crate::text::{
    chars_of, line_count, line_count_spec, lower_of, normalize_name, normalize_name_spec,
    strip_time_markers, strip_time_markers_spec, trimmed, trimmed_len,
};

verus! {

/// Minimum line count a record must have to pass the quality gate.
pub const MIN_LINES: usize = 10;

/// Minimum trimmed, time-marker-stripped text length (in characters) a
/// record must have to pass the quality gate.
pub const MIN_TEXT_LEN: usize = 100;

/// One immutable source record, as read from the input store.
pub struct SourceRecord {
    /// Opaque 64-bit external identity.
    pub id: i64,
    pub track_name: String,
    pub artist_name: String,
    pub album_name: Option<String>,
    /// Duration in milliseconds, when the store has one.
    pub duration_ms: Option<u64>,
    /// Lyric text with inline time markers and embedded newlines.
    pub lyrics: String,
}

/// The mathematical view of a source record.
pub struct RecView {
    pub id: i64,
    pub track: Seq<char>,
    pub artist: Seq<char>,
    pub album: Option<Seq<char>>,
    pub duration_ms: Option<u64>,
    pub lyrics: Seq<char>,
}

impl View for SourceRecord {
    type V = RecView;

    open spec fn view(&self) -> RecView {
        RecView {
            id: self.id,
            track: self.track_name@,
            artist: self.artist_name@,
            album: match self.album_name {
                Some(a) => Some(a@),
                None => None,
            },
            duration_ms: self.duration_ms,
            lyrics: self.lyrics@,
        }
    }
}

/// The engine's decision for one record. Anything but `Keep` means the
/// record is dropped; `Keep` carries the assigned language tag and, when
/// a stored record is superseded, the external id whose output row the
/// caller must delete.
#[derive(Clone, Copy, Debug, PartialEq, Eq)]
pub enum Decision {
    /// Too few lines or too little text.
    QualityReject,
    /// No supported language.
    LanguageReject,
    /// Identical normalized content was seen earlier in the stream.
    ContentDuplicate,
    /// A record with at least as many lines already holds this metadata
    /// identity key.
    MetadataDuplicate,
    /// The record is written to the output store.
    Keep { lang: Lang, supersedes: Option<i64> },
}

/// The run counters. `kept` is net accounting: it rises on acceptance and
/// falls when a previously kept record is superseded.
#[derive(Clone, Copy, Debug, PartialEq, Eq, Structural)]
pub struct RunStats {
    pub quality_rejected: u64,
    pub language_rejected: u64,
    pub content_duplicates: u64,
    pub metadata_duplicates: u64,
    pub kept: u64,
}

/// The mathematical state of a run: the two index models and the
/// counters.
#[verifier::ext_equal]
pub struct EngineModel {
    pub fps: Set<u128>,
    pub meta: Map<(Seq<char>, Seq<char>, u64), (i64, usize)>,
    pub quality_rejected: int,
    pub language_rejected: int,
    pub content_duplicates: int,
    pub metadata_duplicates: int,
    pub kept: int,
    pub processed: int,
}

/// The duration in milliseconds, with a missing duration as zero.
pub open spec fn ms_or_zero(d: Option<u64>) -> u64 {
    match d {
        Some(ms) => ms,
        None => 0u64,
    }
}

/// The record's lyric text with inline time markers removed.
pub open spec fn no_ts_of(lyrics: Seq<char>) -> Seq<char> {
    strip_time_markers_spec(lyrics)
}

/// The quality gate: at least `MIN_LINES` newline-separated segments and
/// at least `MIN_TEXT_LEN` characters of trimmed, marker-stripped text.
pub open spec fn quality_ok(lyrics: Seq<char>) -> bool {
    &&& line_count_spec(lyrics) >= MIN_LINES
    &&& trimmed(no_ts_of(lyrics)).len() >= MIN_TEXT_LEN
}

/// The language assigned to the record's marker-stripped text, if any.
pub open spec fn lang_of(lyrics: Seq<char>) -> Option<Lang> {
    classify_spec(no_ts_of(lyrics))
}

/// The record's content fingerprint, if its normalized text is non-empty.
pub open spec fn fp_of(lyrics: Seq<char>) -> Option<u128> {
    fingerprint_of(no_ts_of(lyrics))
}

/// The record's metadata identity key: normalized artist and track names
/// and the duration bucket.
pub open spec fn meta_key_of(r: RecView) -> (Seq<char>, Seq<char>, u64) {
    (
        normalize_name_spec(lower_of(r.artist)),
        normalize_name_spec(lower_of(r.track)),
        duration_bucket_spec(ms_or_zero(r.duration_ms)),
    )
}

/// Whether the record's fingerprint is already in the index.
pub open spec fn is_content_dup(m: EngineModel, r: RecView) -> bool {
    match fp_of(r.lyrics) {
        Some(d) => m.fps.contains(d),
        None => false,
    }
}

/// The decision the engine makes for record `r` in state `m`: the stages
/// run in pipeline order and the first rejection wins.
pub open spec fn decide(m: EngineModel, r: RecView) -> Decision {
    if !quality_ok(r.lyrics) {
        Decision::QualityReject
    } else {
        match lang_of(r.lyrics) {
            None => Decision::LanguageReject,
            Some(l) => {
                if is_content_dup(m, r) {
                    Decision::ContentDuplicate
                } else {
                    let k = meta_key_of(r);
                    if m.meta.dom().contains(k) {
                        if m.meta[k].1 >= line_count_spec(r.lyrics) {
                            Decision::MetadataDuplicate
                        } else {
                            Decision::Keep { lang: l, supersedes: Some(m.meta[k].0) }
                        }
                    } else {
                        Decision::Keep { lang: l, supersedes: None }
                    }
                }
            },
        }
    }
}

/// The fingerprint set after processing `r`: a fingerprint is recorded as
/// soon as the record passes the quality gate and the classifier, whether
/// or not the record is kept, and never removed.
pub open spec fn fps_after(m: EngineModel, r: RecView) -> Set<u128> {
    if quality_ok(r.lyrics) && lang_of(r.lyrics) is Some {
        match fp_of(r.lyrics) {
            Some(d) => m.fps.insert(d),
            None => m.fps,
        }
    } else {
        m.fps
    }
}

/// The engine state after processing record `r` in state `m`.
pub open spec fn next(m: EngineModel, r: RecView) -> EngineModel {
    let base = EngineModel { fps: fps_after(m, r), processed: m.processed + 1, ..m };
    match decide(m, r) {
        Decision::QualityReject => EngineModel {
            quality_rejected: m.quality_rejected + 1,
            ..base
        },
        Decision::LanguageReject => EngineModel {
            language_rejected: m.language_rejected + 1,
            ..base
        },
        Decision::ContentDuplicate => EngineModel {
            content_duplicates: m.content_duplicates + 1,
            ..base
        },
        Decision::MetadataDuplicate => EngineModel {
            metadata_duplicates: m.metadata_duplicates + 1,
            ..base
        },
        Decision::Keep { lang, supersedes } => {
            let meta2 = m.meta.insert(
                meta_key_of(r),
                (r.id, line_count_spec(r.lyrics) as usize),
            );
            match supersedes {
                None => EngineModel { meta: meta2, kept: m.kept + 1, ..base },
                Some(_) => EngineModel {
                    meta: meta2,
                    metadata_duplicates: m.metadata_duplicates + 1,
                    ..base
                },
            }
        },
    }
}

// ----------------------------------------------------------------------
// Laws of the engine
// ----------------------------------------------------------------------

/// A record with fewer than `MIN_LINES` lines, or whose trimmed,
/// marker-stripped text is shorter than `MIN_TEXT_LEN`, is quality-
/// rejected in every state: only the quality counter moves, neither index
/// changes, and the record is never kept.
pub proof fn lemma_quality_gate(m: EngineModel, r: RecView)
    requires
        line_count_spec(r.lyrics) < MIN_LINES || trimmed(no_ts_of(r.lyrics)).len() < MIN_TEXT_LEN,
    ensures
        decide(m, r) == Decision::QualityReject,
        next(m, r).quality_rejected == m.quality_rejected + 1,
        next(m, r).fps == m.fps,
        next(m, r).meta == m.meta,
        next(m, r).kept == m.kept,
        next(m, r).language_rejected == m.language_rejected,
        next(m, r).content_duplicates == m.content_duplicates,
        next(m, r).metadata_duplicates == m.metadata_duplicates,
{
}

/// Every kept record carries the tag the classifier assigned, one of the
/// three supported languages.
pub proof fn lemma_kept_language(m: EngineModel, r: RecView, lang: Lang, sup: Option<i64>)
    requires
        decide(m, r) == (Decision::Keep { lang, supersedes: sup }),
    ensures
        lang_of(r.lyrics) == Some(lang),
        lang == Lang::Ja || lang == Lang::Ko || lang == Lang::En,
{
}

/// Text shorter than the minimum classified length is unsupported,
/// whatever its script mixture, so such a record is never kept.
pub proof fn lemma_short_text_unsupported(m: EngineModel, r: RecView)
    requires
        no_ts_of(r.lyrics).len() < MIN_CLASSIFY_LEN,
    ensures
        lang_of(r.lyrics) is None,
        !(decide(m, r) is Keep),
{
}

/// Content deduplication: once a record is kept, any later record whose
/// fingerprint-normalized lyric text is identical (and non-empty) is
/// dropped as a content duplicate, whatever its metadata: only the
/// content-duplicate counter moves and the metadata index is untouched.
pub proof fn lemma_content_dedup(m: EngineModel, r1: RecView, r2: RecView, lang: Lang, sup: Option<
    i64,
>)
    requires
        decide(m, r1) == (Decision::Keep { lang, supersedes: sup }),
        fp_text(no_ts_of(r1.lyrics)) == fp_text(no_ts_of(r2.lyrics)),
        fp_text(no_ts_of(r2.lyrics)).len() > 0,
        quality_ok(r2.lyrics),
        lang_of(r2.lyrics) is Some,
    ensures
        decide(next(m, r1), r2) == Decision::ContentDuplicate,
        next(next(m, r1), r2).content_duplicates == next(m, r1).content_duplicates + 1,
        next(next(m, r1), r2).meta == next(m, r1).meta,
        next(next(m, r1), r2).kept == next(m, r1).kept,
{
    let m1 = next(m, r1);
    assert(fp_of(r1.lyrics) == Some(md5_of_text(r1)));
    assert(m1.fps.contains(md5_of_text(r2)));
}

/// Supersession: after a record is kept under a fresh identity key, a
/// later record with the same key, strictly more lines and new content is
/// kept in its place. The decision carries the first record's id for
/// deletion, the key now maps to the second record, the metadata-
/// duplicate counter moves, and the kept count still shows exactly one
/// net retained record for the key.
pub proof fn lemma_supersession(m: EngineModel, r1: RecView, r2: RecView, l1: Lang, l2: Lang)
    requires
        decide(m, r1) == (Decision::Keep { lang: l1, supersedes: None::<i64> }),
        meta_key_of(r2) == meta_key_of(r1),
        quality_ok(r2.lyrics),
        lang_of(r2.lyrics) == Some(l2),
        !is_content_dup(next(m, r1), r2),
        line_count_spec(r1.lyrics) < line_count_spec(r2.lyrics),
        r1.lyrics.len() < usize::MAX,
        r2.lyrics.len() < usize::MAX,
    ensures
        decide(next(m, r1), r2) == (Decision::Keep { lang: l2, supersedes: Some(r1.id) }),
        next(next(m, r1), r2).meta[meta_key_of(r2)] == (
            r2.id,
            line_count_spec(r2.lyrics) as usize,
        ),
        next(next(m, r1), r2).kept == m.kept + 1,
        next(next(m, r1), r2).metadata_duplicates == next(m, r1).metadata_duplicates + 1,
{
    lemma_line_count_nonneg(r1.lyrics);
    lemma_line_count_nonneg(r2.lyrics);
}

/// The tie-break in the other direction: a later record with the same
/// identity key and fewer or equal lines is dropped, the stored record
/// stays, and only the metadata-duplicate counter moves.
pub proof fn lemma_reject_shorter(m: EngineModel, r1: RecView, r2: RecView, l1: Lang, l2: Lang)
    requires
        decide(m, r1) == (Decision::Keep { lang: l1, supersedes: None::<i64> }),
        meta_key_of(r2) == meta_key_of(r1),
        quality_ok(r2.lyrics),
        lang_of(r2.lyrics) == Some(l2),
        !is_content_dup(next(m, r1), r2),
        line_count_spec(r2.lyrics) <= line_count_spec(r1.lyrics),
        r1.lyrics.len() < usize::MAX,
        r2.lyrics.len() < usize::MAX,
    ensures
        decide(next(m, r1), r2) == Decision::MetadataDuplicate,
        next(next(m, r1), r2).meta == next(m, r1).meta,
        next(next(m, r1), r2).meta[meta_key_of(r1)] == (
            r1.id,
            line_count_spec(r1.lyrics) as usize,
        ),
        next(next(m, r1), r2).metadata_duplicates == next(m, r1).metadata_duplicates + 1,
        next(next(m, r1), r2).kept == next(m, r1).kept,
{
    lemma_line_count_nonneg(r1.lyrics);
    lemma_line_count_nonneg(r2.lyrics);
}

/// The fingerprint index never removes entries: first-seen-wins is
/// permanent for the whole run, even when the record that introduced a
/// fingerprint is later superseded by metadata deduplication.
pub proof fn lemma_fps_monotone(m: EngineModel, r: RecView)
    ensures
        m.fps.subset_of(next(m, r).fps),
{
}

/// The metadata index only grows, and the line count stored for a key
/// never decreases: whatever record a step processes, every key present
/// before is present after, with at least the line count it had.
pub proof fn lemma_meta_monotone(m: EngineModel, r: RecView)
    requires
        r.lyrics.len() < usize::MAX,
    ensures
        forall|k: (Seq<char>, Seq<char>, u64)|
            m.meta.dom().contains(k) ==> #[trigger] next(m, r).meta.dom().contains(k) && next(
                m,
                r,
            ).meta[k].1 >= m.meta[k].1,
{
    lemma_line_count_nonneg(r.lyrics);
}

/// Once a record reaches the metadata stage, its identity key maps to a
/// record with at least its line count: combined with the monotonicity
/// above, at the end of a run each retained record carries the maximum
/// line count among the candidates that shared its key.
pub proof fn lemma_meta_dominates(m: EngineModel, r: RecView)
    requires
        r.lyrics.len() < usize::MAX,
        decide(m, r) is Keep || decide(m, r) is MetadataDuplicate,
    ensures
        next(m, r).meta.dom().contains(meta_key_of(r)),
        next(m, r).meta[meta_key_of(r)].1 >= line_count_spec(r.lyrics),
{
    lemma_line_count_nonneg(r.lyrics);
}

/// Net accounting of the kept counter: whenever it equals the number of
/// identity keys retained so far, it still does after any record, so at
/// the end of a run the kept count is exactly the number of records in
/// the output store — acceptances raise it and supersessions, which
/// delete one row and write one, leave it unchanged.
pub proof fn lemma_kept_counts_retained(m: EngineModel, r: RecView)
    requires
        m.meta.dom().finite(),
        m.kept == m.meta.dom().len(),
    ensures
        next(m, r).meta.dom().finite(),
        next(m, r).kept == next(m, r).meta.dom().len(),
{
    broadcast use vstd::set::axiom_set_insert_len;

    if decide(m, r) is Keep {
        assert(next(m, r).meta.dom() =~= m.meta.dom().insert(meta_key_of(r)));
    }
}

/// The digest a record's non-empty normalized text hashes to.
pub open spec fn md5_of_text(r: RecView) -> u128 {
    crate::fingerprint::md5_of(fp_text(no_ts_of(r.lyrics)))
}

/// Line counts are at least one.
proof fn lemma_line_count_nonneg(s: Seq<char>)
    ensures
        1 <= line_count_spec(s) <= s.len() + 1,
{
    crate::text::lemma_newline_count_from_bounds(s, 0);
}

/// The streaming engine: the two indices and the run counters.
pub struct FilterEngine {
    fps: FingerprintIndex,
    meta: MetaIndex,
    stats: RunStats,
    processed: u64,
}

impl FilterEngine {
    /// The mathematical state of this engine.
    pub closed spec fn model(&self) -> EngineModel {
        EngineModel {
            fps: self.fps@,
            meta: self.meta.model(),
            quality_rejected: self.stats.quality_rejected as int,
            language_rejected: self.stats.language_rejected as int,
            content_duplicates: self.stats.content_duplicates as int,
            metadata_duplicates: self.stats.metadata_duplicates as int,
            kept: self.stats.kept as int,
            processed: self.processed as int,
        }
    }

    /// Internal shape: the metadata index holds each key once, and no
    /// counter can outrun the number of records processed.
    pub closed spec fn wf(&self) -> bool {
        &&& self.meta.wf()
        &&& self.stats.quality_rejected <= self.processed
        &&& self.stats.language_rejected <= self.processed
        &&& self.stats.content_duplicates <= self.processed
        &&& self.stats.metadata_duplicates <= self.processed
        &&& self.stats.kept <= self.processed
    }

    /// A fresh engine: empty indices, all counters zero.
    pub fn new() -> (e: FilterEngine)
        ensures
            e.wf(),
            e.model().fps == Set::<u128>::empty(),
            e.model().meta == Map::<(Seq<char>, Seq<char>, u64), (i64, usize)>::empty(),
            e.model().quality_rejected == 0,
            e.model().language_rejected == 0,
            e.model().content_duplicates == 0,
            e.model().metadata_duplicates == 0,
            e.model().kept == 0,
            e.model().processed == 0,
    {
        FilterEngine {
            fps: FingerprintIndex::new(),
            meta: MetaIndex::new(),
            stats: RunStats {
                quality_rejected: 0,
                language_rejected: 0,
                content_duplicates: 0,
                metadata_duplicates: 0,
                kept: 0,
            },
            processed: 0,
        }
    }

    /// The run counters so far.
    pub fn stats(&self) -> (s: RunStats)
        ensures
            s.quality_rejected as int == self.model().quality_rejected,
            s.language_rejected as int == self.model().language_rejected,
            s.content_duplicates as int == self.model().content_duplicates,
            s.metadata_duplicates as int == self.model().metadata_duplicates,
            s.kept as int == self.model().kept,
    {
        self.stats
    }

    /// How many records this engine has processed.
    pub fn processed_count(&self) -> (n: u64)
        ensures
            n as int == self.model().processed,
    {
        self.processed
    }

    /// Process one record: run it through the quality gate, the language
    /// classifier, the fingerprint index and the metadata identity index,
    /// updating the counters, and return the decision. The decision and
    /// the new state are exactly `decide` and `next` on the old state.
    pub fn process_record(&mut self, rec: &SourceRecord) -> (d: Decision)
        requires
            old(self).wf(),
            old(self).model().processed < u64::MAX,
            rec.lyrics@.len() < usize::MAX,
        ensures
            final(self).wf(),
            d == decide(old(self).model(), rec@),
            final(self).model() == next(old(self).model(), rec@),
    {
        let ghost m0 = self.model();
        let ghost rv = rec@;
        self.processed = self.processed + 1;

        // Quality gate.
        let lyr = chars_of(rec.lyrics.as_str());
        let lines = line_count(&lyr);
        if lines < MIN_LINES {
            self.stats.quality_rejected = self.stats.quality_rejected + 1;
            proof {
                assert(self.model() =~= next(m0, rv));
            }
            return Decision::QualityReject;
        }
        let no_ts = strip_time_markers(&lyr);
        if trimmed_len(&no_ts) < MIN_TEXT_LEN {
            self.stats.quality_rejected = self.stats.quality_rejected + 1;
            proof {
                assert(self.model() =~= next(m0, rv));
            }
            return Decision::QualityReject;
        }
        // Language classification.
        let lang = match classify_chars(&no_ts) {
            None => {
                self.stats.language_rejected = self.stats.language_rejected + 1;
                proof {
                    assert(self.model() =~= next(m0, rv));
                }
                return Decision::LanguageReject;
            },
            Some(l) => l,
        };

        // Content-fingerprint deduplication.
        if let Some(digest) = crate::fingerprint::lyrics_fingerprint(&no_ts) {
            let dup = self.fps.check_and_insert(digest);
            if dup {
                self.stats.content_duplicates = self.stats.content_duplicates + 1;
                proof {
                    assert(self.model() =~= next(m0, rv));
                }
                return Decision::ContentDuplicate;
            }
        }

        // Metadata identity deduplication.
        let artist_n = normalize_name(rec.artist_name.as_str());
        let track_n = normalize_name(rec.track_name.as_str());
        let bucket = crate::duration_bucket(rec.duration_ms);
        match self.meta.resolve(artist_n, track_n, bucket, rec.id, lines) {
            MetaOutcome::Insert => {
                self.stats.kept = self.stats.kept + 1;
                proof {
                    assert(self.model() =~= next(m0, rv));
                }
                Decision::Keep { lang, supersedes: None }
            },
            MetaOutcome::Supersede(prev_id) => {
                self.stats.metadata_duplicates = self.stats.metadata_duplicates + 1;
                proof {
                    assert(self.model() =~= next(m0, rv));
                }
                Decision::Keep { lang, supersedes: Some(prev_id) }
            },
            MetaOutcome::RejectAsShorter => {
                self.stats.metadata_duplicates = self.stats.metadata_duplicates + 1;
                proof {
                    assert(self.model() =~= next(m0, rv));
                }
                Decision::MetadataDuplicate
            },
        }
    }
}

/// The coarse pre-filter pushed down to the input store: records whose
/// duration is present and below 60 seconds are excluded before any other
/// stage.
pub fn passes_duration_prefilter(duration_ms: Option<u64>) -> (r: bool)
    ensures
        r == (match duration_ms {
            Some(ms) => ms >= 60000,
            None => true,
        }),
{
    match duration_ms {
        Some(ms) => ms >= 60000,
        None => true,
    }
}

/// A batch boundary of the output store's transactional writes: a commit
/// happens whenever the running kept count reaches a multiple of 100000.
pub fn batch_boundary(kept: u64) -> (r: bool)
    ensures
        r == (kept % 100000 == 0),
{
    kept % 100000 == 0
}

} // verus!
