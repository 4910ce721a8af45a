//! Tests for the streaming engine: the quality gate, both deduplication
//! strategies, duration bucketing, and the end-to-end scenario.

use lyrics_filter::duration_bucket;
use lyrics_filter::engine::{
    batch_boundary, passes_duration_prefilter, Decision, FilterEngine, SourceRecord,
};
use lyrics_filter::lang::Lang;

/// An English lyric text with the given number of lines; `seed` makes
/// texts differ in content without changing their line counts.
fn english_lyrics(lines: usize, seed: &str) -> String {
    let mut out = String::new();
    for i in 0..lines {
        if i > 0 {
            out.push('\n');
        }
        out.push_str("the quick brown fox jumps over the lazy dog ");
        out.push_str(seed);
    }
    out
}

/// A Japanese lyric text with the given number of lines.
fn japanese_lyrics(lines: usize) -> String {
    let mut out = String::new();
    for i in 0..lines {
        if i > 0 {
            out.push('\n');
        }
        out.push_str("\u{3042}\u{3044}\u{3046}\u{3048}\u{304A}\u{304B}\u{304D}\u{304F}\u{3051}\u{3053}");
    }
    out
}

fn record(id: i64, artist: &str, track: &str, secs: Option<u64>, lyrics: String) -> SourceRecord {
    SourceRecord {
        id,
        track_name: track.to_string(),
        artist_name: artist.to_string(),
        album_name: None,
        duration_ms: secs.map(|s| s * 1000),
        lyrics,
    }
}

#[test]
fn duration_bucketing_tolerance() {
    // 186 s and 194 s share bucket 19; 184 s and 196 s do not.
    assert_eq!(duration_bucket(Some(186_000)), 19);
    assert_eq!(duration_bucket(Some(194_000)), 19);
    assert_eq!(duration_bucket(Some(184_000)), 18);
    assert_eq!(duration_bucket(Some(196_000)), 20);
}

#[test]
fn duration_bucket_rounds_half_up() {
    assert_eq!(duration_bucket(Some(185_000)), 19);
    assert_eq!(duration_bucket(Some(4_999)), 0);
    assert_eq!(duration_bucket(Some(5_000)), 1);
}

#[test]
fn duration_bucket_missing_and_extreme() {
    assert_eq!(duration_bucket(None), 0);
    assert_eq!(duration_bucket(Some(0)), 0);
    assert_eq!(duration_bucket(Some(u64::MAX)), u64::MAX / 10_000);
}

#[test]
fn prefilter_excludes_short_durations_only() {
    assert!(passes_duration_prefilter(None));
    assert!(passes_duration_prefilter(Some(60_000)));
    assert!(!passes_duration_prefilter(Some(59_999)));
}

#[test]
fn batch_boundaries_fall_on_multiples() {
    assert!(batch_boundary(0));
    assert!(batch_boundary(100_000));
    assert!(batch_boundary(200_000));
    assert!(!batch_boundary(5));
    assert!(!batch_boundary(100_001));
}

#[test]
fn too_few_lines_is_quality_rejected() {
    let mut e = FilterEngine::new();
    let r = record(1, "Artist", "Track", Some(200), english_lyrics(3, "x"));
    assert_eq!(e.process_record(&r), Decision::QualityReject);
    let st = e.stats();
    assert_eq!(st.quality_rejected, 1);
    assert_eq!(st.kept, 0);
}

#[test]
fn too_little_text_is_quality_rejected() {
    let mut e = FilterEngine::new();
    // 10 lines but under 100 characters of trimmed text.
    let lyrics = vec!["ab"; 10].join("\n");
    let r = record(1, "Artist", "Track", Some(200), lyrics);
    assert_eq!(e.process_record(&r), Decision::QualityReject);
    assert_eq!(e.stats().quality_rejected, 1);
}

#[test]
fn time_markers_do_not_count_toward_text_length() {
    let mut e = FilterEngine::new();
    // Ten lines of bare time markers with two letters each: enough lines,
    // far too little text once markers are stripped.
    let lyrics = vec!["[00:01.00]ab"; 10].join("\n");
    let r = record(1, "Artist", "Track", Some(200), lyrics);
    assert_eq!(e.process_record(&r), Decision::QualityReject);
}

#[test]
fn unsupported_language_is_rejected() {
    let mut e = FilterEngine::new();
    // Cyrillic text passes the quality gate but no supported language.
    let lyrics = vec!["\u{0430}".repeat(12); 10].join("\n");
    let r = record(1, "Artist", "Track", Some(200), lyrics);
    assert_eq!(e.process_record(&r), Decision::LanguageReject);
    let st = e.stats();
    assert_eq!(st.language_rejected, 1);
    assert_eq!(st.kept, 0);
}

#[test]
fn accepted_record_carries_its_language() {
    let mut e = FilterEngine::new();
    let r = record(1, "Artist", "Track", Some(200), japanese_lyrics(12));
    assert_eq!(e.process_record(&r), Decision::Keep { lang: Lang::Ja, supersedes: None });
    assert_eq!(e.stats().kept, 1);
}

#[test]
fn identical_content_is_deduplicated_across_metadata() {
    let mut e = FilterEngine::new();
    let lyrics = english_lyrics(12, "same");
    let r1 = record(1, "Artist One", "Track One", Some(200), lyrics.clone());
    let r2 = record(2, "Totally Different", "Other Track", Some(320), lyrics);
    assert_eq!(e.process_record(&r1), Decision::Keep { lang: Lang::En, supersedes: None });
    assert_eq!(e.process_record(&r2), Decision::ContentDuplicate);
    let st = e.stats();
    assert_eq!(st.content_duplicates, 1);
    assert_eq!(st.kept, 1);
}

#[test]
fn longer_record_supersedes_shorter_under_same_key() {
    let mut e = FilterEngine::new();
    let r1 = record(1, "Artist A", "Track X", Some(200), english_lyrics(40, "first"));
    let r2 = record(2, "artist a", "track x", Some(204), english_lyrics(60, "second"));
    assert_eq!(e.process_record(&r1), Decision::Keep { lang: Lang::En, supersedes: None });
    assert_eq!(e.process_record(&r2), Decision::Keep { lang: Lang::En, supersedes: Some(1) });
    let st = e.stats();
    assert_eq!(st.metadata_duplicates, 1);
    // Exactly one net retained record for the key.
    assert_eq!(st.kept, 1);
}

#[test]
fn shorter_record_is_rejected_under_same_key() {
    let mut e = FilterEngine::new();
    let r1 = record(1, "Artist A", "Track X", Some(200), english_lyrics(40, "first"));
    let r2 = record(2, "artist a", "track x", Some(204), english_lyrics(30, "second"));
    assert_eq!(e.process_record(&r1), Decision::Keep { lang: Lang::En, supersedes: None });
    assert_eq!(e.process_record(&r2), Decision::MetadataDuplicate);
    let st = e.stats();
    assert_eq!(st.metadata_duplicates, 1);
    assert_eq!(st.kept, 1);
}

#[test]
fn equal_line_counts_keep_the_first_record() {
    let mut e = FilterEngine::new();
    let r1 = record(1, "Artist A", "Track X", Some(200), english_lyrics(40, "first"));
    let r2 = record(2, "artist a", "track x", Some(204), english_lyrics(40, "second"));
    assert_eq!(e.process_record(&r1), Decision::Keep { lang: Lang::En, supersedes: None });
    assert_eq!(e.process_record(&r2), Decision::MetadataDuplicate);
}

#[test]
fn different_duration_buckets_are_different_identities() {
    let mut e = FilterEngine::new();
    let r1 = record(1, "Artist A", "Track X", Some(184), english_lyrics(12, "first"));
    let r2 = record(2, "Artist A", "Track X", Some(196), english_lyrics(20, "second"));
    assert_eq!(e.process_record(&r1), Decision::Keep { lang: Lang::En, supersedes: None });
    assert_eq!(e.process_record(&r2), Decision::Keep { lang: Lang::En, supersedes: None });
    assert_eq!(e.stats().kept, 2);
}

#[test]
fn empty_normalized_content_skips_fingerprinting() {
    let mut e = FilterEngine::new();
    // All lyric content sits inside one parenthetical aside, so the
    // fingerprint normalization is empty and content dedup is skipped;
    // both records are kept under their different identity keys.
    let lyrics = format!("({})", japanese_lyrics(12));
    let r1 = record(1, "Artist One", "Track One", Some(200), lyrics.clone());
    let r2 = record(2, "Artist Two", "Track Two", Some(320), lyrics);
    assert_eq!(e.process_record(&r1), Decision::Keep { lang: Lang::Ja, supersedes: None });
    assert_eq!(e.process_record(&r2), Decision::Keep { lang: Lang::Ja, supersedes: None });
    let st = e.stats();
    assert_eq!(st.content_duplicates, 0);
    assert_eq!(st.kept, 2);
}

#[test]
fn end_to_end_five_row_scenario() {
    let mut e = FilterEngine::new();
    let ja = japanese_lyrics(50);
    let rows = vec![
        record(1, "Someone", "Something", Some(200), english_lyrics(3, "short")),
        record(2, "Artist J", "Track J", Some(200), ja.clone()),
        record(3, "Other Artist", "Other Track", Some(320), ja),
        record(4, "Artist A", "Track X", Some(200), english_lyrics(40, "forty")),
        record(5, "artist a", "track x", Some(204), english_lyrics(60, "sixty")),
    ];

    // The test doubles as the sink writer: kept ids, with supersession
    // deletes applied.
    let mut output: Vec<(i64, Lang)> = Vec::new();
    for row in &rows {
        match e.process_record(row) {
            Decision::Keep { lang, supersedes } => {
                if let Some(prior) = supersedes {
                    output.retain(|&(id, _)| id != prior);
                }
                output.push((row.id, lang));
            }
            _ => {}
        }
    }

    let st = e.stats();
    assert_eq!(st.quality_rejected, 1);
    assert_eq!(st.language_rejected, 0);
    assert_eq!(st.content_duplicates, 1);
    assert_eq!(st.metadata_duplicates, 1);
    assert_eq!(st.kept, 2);
    assert_eq!(output, vec![(2, Lang::Ja), (5, Lang::En)]);
}
