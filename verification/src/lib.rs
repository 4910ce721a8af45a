//! A single-pass filtering and deduplication engine for a corpus of
//! song-lyric records.
//!
//! The engine reduces a large stream of source records to a smaller,
//! higher-quality corpus restricted to three target languages. Each record
//! runs through a fixed pipeline: a quality gate (line count and length),
//! a codepoint-range language classifier, a content-fingerprint
//! deduplication index, and a metadata-identity deduplication index with a
//! longer-lyric-wins supersession policy. Every stage is a pure decision
//! over plain values; all storage I/O stays outside this crate.

use vstd::prelude::*;

pub mod engine;
pub mod fingerprint;
pub mod lang;
pub mod meta;
pub mod text;

verus! {

/// Bucket a duration, given in milliseconds, to the nearest 10-second unit.
///
/// Durations that differ by roughly 5 seconds or less fall into the same
/// bucket, which makes the metadata identity key tolerate minor metadata
/// noise. Ties at exactly half a bucket round up (away from zero), an
/// explicit choice documented here because the bucket boundary depends on it.
pub open spec fn duration_bucket_spec(ms: u64) -> u64 {
    if ms % 10000 >= 5000 {
        (ms / 10000 + 1) as u64
    } else {
        ms / 10000
    }
}

/// Executable duration bucketing; a missing duration counts as zero.
pub fn duration_bucket(duration_ms: Option<u64>) -> (b: u64)
    ensures
        b == duration_bucket_spec(match duration_ms {
            Some(ms) => ms,
            None => 0u64,
        }),
{
    let ms: u64 = match duration_ms {
        Some(ms) => ms,
        None => 0,
    };
    let base: u64 = ms / 10000;
    if ms % 10000 >= 5000 {
        base + 1
    } else {
        base
    }
}

} // verus!
