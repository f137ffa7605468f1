//! The skimmer quality engine.

use dxfeed::domain::OriginatorKind;
use dxfeed::model::SkimQualityTag;
use dxfeed::skimmer::config::SkimmerQualityConfig;
use dxfeed::skimmer::quality::{SkimmerQualityEngine, levenshtein};
use dxfeed::time::Timestamp;

/// A fixed point in time.
fn now() -> Timestamp {
    Timestamp::from_secs(1_700_000_000)
}

fn default_engine() -> SkimmerQualityEngine {
    SkimmerQualityEngine::new(SkimmerQualityConfig::default())
}

fn now_plus_secs(base: Timestamp, secs: i64) -> Timestamp {
    base.plus_secs(secs).unwrap()
}

// Levenshtein distance

#[test]
fn levenshtein_identical() {
    assert_eq!(levenshtein("W1AW", "W1AW"), 0);
}

#[test]
fn levenshtein_one_char_diff() {
    assert_eq!(levenshtein("W1AW", "W1AX"), 1);
    assert_eq!(levenshtein("W1AW", "K1AW"), 1);
}

#[test]
fn levenshtein_two_char_diff() {
    assert_eq!(levenshtein("W1AW", "K1AX"), 2);
}

#[test]
fn levenshtein_different_lengths() {
    assert_eq!(levenshtein("W1AW", "W1AWX"), 1);
    assert_eq!(levenshtein("W1AW", "W1A"), 1);
}

#[test]
fn levenshtein_empty() {
    assert_eq!(levenshtein("", ""), 0);
    assert_eq!(levenshtein("W1AW", ""), 4);
    assert_eq!(levenshtein("", "W1AW"), 4);
}

// SkimUnknown (below threshold)

#[test]
fn single_report_is_unknown() {
    let mut engine = default_engine();
    let now = now();

    engine.record_observation("JA1ABC", 14_025_000, "W3LPL-2", now);
    let tag = engine.compute_tag("JA1ABC", 14_025_000, now);

    assert_eq!(tag, SkimQualityTag::Unknown);
}

#[test]
fn two_reports_still_unknown() {
    let mut engine = default_engine();
    let now = now();

    engine.record_observation("JA1ABC", 14_025_000, "W3LPL-2", now);
    engine.record_observation("JA1ABC", 14_025_100, "DK8JP-1", now);
    let tag = engine.compute_tag("JA1ABC", 14_025_000, now);

    assert_eq!(tag, SkimQualityTag::Unknown);
}

// SkimValid (corroborated)

#[test]
fn three_distinct_skimmers_is_valid() {
    let mut engine = default_engine();
    let now = now();

    engine.record_observation("JA1ABC", 14_025_000, "W3LPL-2", now);
    engine.record_observation("JA1ABC", 14_025_050, "DK8JP-1", now);
    engine.record_observation("JA1ABC", 14_025_100, "VE3NEA-3", now);
    let tag = engine.compute_tag("JA1ABC", 14_025_000, now);

    assert_eq!(tag, SkimQualityTag::Valid);
}

#[test]
fn same_skimmer_twice_does_not_count_as_two() {
    let mut engine = default_engine();
    let now = now();

    engine.record_observation("JA1ABC", 14_025_000, "W3LPL-2", now);
    engine.record_observation("JA1ABC", 14_025_050, "W3LPL-2", now); // same skimmer
    engine.record_observation("JA1ABC", 14_025_100, "DK8JP-1", now);
    let tag = engine.compute_tag("JA1ABC", 14_025_000, now);

    assert_eq!(tag, SkimQualityTag::Unknown); // only 2 distinct
}

#[test]
fn reports_outside_freq_window_not_counted() {
    let mut engine = default_engine();
    let now = now();

    // Default freq window is 300 Hz
    engine.record_observation("JA1ABC", 14_025_000, "W3LPL-2", now);
    engine.record_observation("JA1ABC", 14_025_050, "DK8JP-1", now);
    engine.record_observation("JA1ABC", 14_026_000, "VE3NEA-3", now); // 1000 Hz away
    let tag = engine.compute_tag("JA1ABC", 14_025_000, now);

    assert_eq!(tag, SkimQualityTag::Unknown); // only 2 within window
}

// SkimQsy

#[test]
fn valid_then_different_freq_is_qsy() {
    let mut engine = default_engine();
    let now = now();

    // First: become valid on 20m
    engine.record_observation("JA1ABC", 14_025_000, "W3LPL-2", now);
    engine.record_observation("JA1ABC", 14_025_050, "DK8JP-1", now);
    engine.record_observation("JA1ABC", 14_025_100, "VE3NEA-3", now);
    let tag1 = engine.compute_tag("JA1ABC", 14_025_000, now);
    assert_eq!(tag1, SkimQualityTag::Valid);

    // Then: new reports on 15m (far from verified freq)
    let later = now_plus_secs(now, 60);
    engine.record_observation("JA1ABC", 21_025_000, "W3LPL-2", later);
    engine.record_observation("JA1ABC", 21_025_050, "DK8JP-1", later);
    engine.record_observation("JA1ABC", 21_025_100, "VE3NEA-3", later);
    let tag2 = engine.compute_tag("JA1ABC", 21_025_000, later);
    assert_eq!(tag2, SkimQualityTag::Qsy);
}

// SkimBusted

#[test]
fn similar_call_near_verified_freq_is_busted() {
    let mut engine = default_engine();
    let now = now();

    // Verify "W1AW" at 14025000
    engine.record_observation("W1AW", 14_025_000, "W3LPL-2", now);
    engine.record_observation("W1AW", 14_025_050, "DK8JP-1", now);
    engine.record_observation("W1AW", 14_025_100, "VE3NEA-3", now);
    engine.compute_tag("W1AW", 14_025_000, now);

    // New call "W1AX" at nearby freq (edit distance 1)
    engine.record_observation("W1AX", 14_025_020, "K1TTT-2", now);
    let tag = engine.compute_tag("W1AX", 14_025_020, now);
    assert_eq!(tag, SkimQualityTag::Busted);
}

#[test]
fn dissimilar_call_not_busted() {
    let mut engine = default_engine();
    let now = now();

    // Verify "W1AW"
    engine.record_observation("W1AW", 14_025_000, "W3LPL-2", now);
    engine.record_observation("W1AW", 14_025_050, "DK8JP-1", now);
    engine.record_observation("W1AW", 14_025_100, "VE3NEA-3", now);
    engine.compute_tag("W1AW", 14_025_000, now);

    // Very different call at nearby freq
    engine.record_observation("JA1ABC", 14_025_020, "K1TTT-2", now);
    let tag = engine.compute_tag("JA1ABC", 14_025_020, now);
    assert_eq!(tag, SkimQualityTag::Unknown); // edit distance too large
}

// Gating (should_emit)

#[test]
fn gate_blocks_unknown_skimmer() {
    let engine = default_engine(); // gate enabled, allow_unknown = false
    assert!(!engine.should_emit(SkimQualityTag::Unknown, OriginatorKind::Skimmer));
}

#[test]
fn gate_allows_valid_skimmer() {
    let engine = default_engine(); // allow_valid = true
    assert!(engine.should_emit(SkimQualityTag::Valid, OriginatorKind::Skimmer));
}

#[test]
fn gate_blocks_busted_skimmer() {
    let engine = default_engine(); // allow_busted = false
    assert!(!engine.should_emit(SkimQualityTag::Busted, OriginatorKind::Skimmer));
}

#[test]
fn gate_blocks_qsy_by_default() {
    let engine = default_engine(); // allow_qsy = false
    assert!(!engine.should_emit(SkimQualityTag::Qsy, OriginatorKind::Skimmer));
}

#[test]
fn gate_allows_qsy_when_configured() {
    let mut config = SkimmerQualityConfig::default();
    config.allow_qsy = true;
    let engine = SkimmerQualityEngine::new(config);
    assert!(engine.should_emit(SkimQualityTag::Qsy, OriginatorKind::Skimmer));
}

#[test]
fn human_always_passes_gating() {
    let engine = default_engine();
    assert!(engine.should_emit(SkimQualityTag::Unknown, OriginatorKind::Human));
    assert!(engine.should_emit(SkimQualityTag::Busted, OriginatorKind::Human));
}

#[test]
fn gate_disabled_allows_everything() {
    let mut config = SkimmerQualityConfig::default();
    config.gate_skimmer_output = false;
    let engine = SkimmerQualityEngine::new(config);
    assert!(engine.should_emit(SkimQualityTag::Unknown, OriginatorKind::Skimmer));
    assert!(engine.should_emit(SkimQualityTag::Busted, OriginatorKind::Skimmer));
}

#[test]
fn engine_disabled_allows_everything() {
    let mut config = SkimmerQualityConfig::default();
    config.enabled = false;
    let engine = SkimmerQualityEngine::new(config);
    assert!(engine.should_emit(SkimQualityTag::Unknown, OriginatorKind::Skimmer));
}

// Lookback window expiry

#[test]
fn old_observations_not_counted() {
    let mut engine = default_engine(); // lookback = 180s
    let now = now();
    let old = now.plus_secs(-300).unwrap(); // 5 min ago

    // Old observations
    engine.record_observation("JA1ABC", 14_025_000, "W3LPL-2", old);
    engine.record_observation("JA1ABC", 14_025_050, "DK8JP-1", old);
    engine.record_observation("JA1ABC", 14_025_100, "VE3NEA-3", old);

    // These are outside the lookback window
    let tag = engine.compute_tag("JA1ABC", 14_025_000, now);
    assert_eq!(tag, SkimQualityTag::Unknown);
}

#[test]
fn evict_expired_removes_old() {
    let mut engine = default_engine();
    let now = now();
    let old = now.plus_secs(-300).unwrap();

    engine.record_observation("JA1ABC", 14_025_000, "W3LPL-2", old);
    assert_eq!(engine.total_observations(), 1);

    engine.evict_expired(now);
    assert_eq!(engine.total_observations(), 0);
    assert!(engine.tracked_calls() == 0);
}

// Detail reporting

#[test]
fn valid_detail_has_corroborating_count() {
    let mut engine = default_engine();
    let now = now();

    engine.record_observation("JA1ABC", 14_025_000, "W3LPL-2", now);
    engine.record_observation("JA1ABC", 14_025_050, "DK8JP-1", now);
    engine.record_observation("JA1ABC", 14_025_100, "VE3NEA-3", now);

    let (tag, detail) = engine.compute_tag_with_detail("JA1ABC", 14_025_000, now);
    assert_eq!(tag, SkimQualityTag::Valid);
    assert_eq!(detail.corroborating_skimmers, 3);
    assert!(detail.similar_call.is_none());
    assert!(detail.previous_freq_hz.is_none());
}

#[test]
fn qsy_detail_has_previous_freq() {
    let mut engine = default_engine();
    let now = now();

    // Verify on 20m
    engine.record_observation("JA1ABC", 14_025_000, "W3LPL-2", now);
    engine.record_observation("JA1ABC", 14_025_050, "DK8JP-1", now);
    engine.record_observation("JA1ABC", 14_025_100, "VE3NEA-3", now);
    engine.compute_tag("JA1ABC", 14_025_000, now);

    // QSY to 15m
    let later = now_plus_secs(now, 60);
    engine.record_observation("JA1ABC", 21_025_000, "W3LPL-2", later);
    engine.record_observation("JA1ABC", 21_025_050, "DK8JP-1", later);
    engine.record_observation("JA1ABC", 21_025_100, "VE3NEA-3", later);

    let (tag, detail) = engine.compute_tag_with_detail("JA1ABC", 21_025_000, later);
    assert_eq!(tag, SkimQualityTag::Qsy);
    assert_eq!(detail.previous_freq_hz, Some(14_025_000));
}

#[test]
fn busted_detail_has_similar_call() {
    let mut engine = default_engine();
    let now = now();

    // Verify "W1AW"
    engine.record_observation("W1AW", 14_025_000, "W3LPL-2", now);
    engine.record_observation("W1AW", 14_025_050, "DK8JP-1", now);
    engine.record_observation("W1AW", 14_025_100, "VE3NEA-3", now);
    engine.compute_tag("W1AW", 14_025_000, now);

    // Busted call
    engine.record_observation("W1AX", 14_025_020, "K1TTT-2", now);
    let (tag, detail) = engine.compute_tag_with_detail("W1AX", 14_025_020, now);
    assert_eq!(tag, SkimQualityTag::Busted);
    assert_eq!(detail.similar_call.as_deref(), Some("W1AW"));
    assert_eq!(detail.edit_distance, Some(1));
}
