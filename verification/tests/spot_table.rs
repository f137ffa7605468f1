//! The spot table.

use dxfeed::aggregator::spot_table::{IngestInput, SpotTable, SpotTableConfig, SpotTableResult};
use dxfeed::domain::{DxMode, OriginatorKind};
use dxfeed::freq::{freq_bucket, freq_to_band};
use dxfeed::model::{OriginatorId, SourceId, SpotKey, SpotObservation};
use dxfeed::time::{Duration, Timestamp};

/// A fixed point in time.
fn now() -> Timestamp {
    Timestamp::from_secs(1_700_000_000)
}

fn make_key(dx_call: &str, freq_hz: u64, mode: DxMode) -> SpotKey {
    SpotKey {
        dx_call_norm: dx_call.to_uppercase(),
        band: freq_to_band(freq_hz),
        mode,
        freq_bucket_hz: freq_bucket(freq_hz, mode, 10, 1000, 100),
    }
}

fn make_obs(
    originator: &str,
    source: &str,
    kind: OriginatorKind,
    time: Timestamp,
) -> SpotObservation {
    SpotObservation {
        source: SourceId(source.into()),
        originator: OriginatorId(originator.into()),
        originator_kind: kind,
        snr_db: None,
        wpm: None,
        obs_time: time,
        }
}

fn make_input(
    dx_call: &str,
    freq_hz: u64,
    mode: DxMode,
    originator: &str,
    source: &str,
    kind: OriginatorKind,
    time: Timestamp,
) -> IngestInput {
    IngestInput {
        key: make_key(dx_call, freq_hz, mode),
        dx_call: dx_call.into(),
        freq_hz,
        band: freq_to_band(freq_hz),
        mode,
        comment: None,
        observation: make_obs(originator, source, kind, time),
    }
}

fn default_table() -> SpotTable {
    SpotTable::new(SpotTableConfig::default())
}

// Basic ingest

#[test]
fn ingest_first_observation_is_new_spot() {
    let mut table = default_table();
    let now = now();
    let input = make_input("JA1ABC", 14_025_000, DxMode::CW, "W1AW", "src1", OriginatorKind::Human, now);
    let result = table.ingest(input);

    assert!(matches!(result, SpotTableResult::NewSpot(_)));
    assert_eq!(table.len(), 1);
}

#[test]
fn ingest_same_key_is_updated_spot() {
    let mut table = default_table();
    let now = now();

    let input1 = make_input("JA1ABC", 14_025_000, DxMode::CW, "W1AW", "src1", OriginatorKind::Human, now);
    let input2 = make_input("JA1ABC", 14_025_005, DxMode::CW, "VE3NEA", "src1", OriginatorKind::Human, now);

    table.ingest(input1);
    let result = table.ingest(input2);

    assert!(matches!(result, SpotTableResult::UpdatedSpot(_)));
    assert_eq!(table.len(), 1);

    let key = make_key("JA1ABC", 14_025_000, DxMode::CW);
    let state = table.get(&key).unwrap();
    assert_eq!(state.spot.observations.len(), 2);
}

#[test]
fn ingest_different_key_is_second_new_spot() {
    let mut table = default_table();
    let now = now();

    let input1 = make_input("JA1ABC", 14_025_000, DxMode::CW, "W1AW", "src1", OriginatorKind::Human, now);
    let input2 = make_input("DL1ABC", 21_025_000, DxMode::CW, "W1AW", "src1", OriginatorKind::Human, now);

    let r1 = table.ingest(input1);
    let r2 = table.ingest(input2);

    assert!(matches!(r1, SpotTableResult::NewSpot(_)));
    assert!(matches!(r2, SpotTableResult::NewSpot(_)));
    assert_eq!(table.len(), 2);
}

// TTL eviction

#[test]
fn evict_expired_removes_old_spots() {
    let mut table = SpotTable::new(SpotTableConfig {
        ttl: Duration::from_secs(60),
        ..Default::default()
    });

    let now = now();
    let old_time = now.plus_secs(-120).unwrap();

    let input = make_input("JA1ABC", 14_025_000, DxMode::CW, "W1AW", "src1", OriginatorKind::Human, old_time);
    table.ingest(input);
    assert_eq!(table.len(), 1);

    let expired = table.evict_expired(now);
    assert_eq!(expired.len(), 1);
    assert_eq!(table.len(), 0);
}

#[test]
fn evict_expired_keeps_fresh_spots() {
    let mut table = SpotTable::new(SpotTableConfig {
        ttl: Duration::from_secs(60),
        ..Default::default()
    });

    let now = now();

    let input = make_input("JA1ABC", 14_025_000, DxMode::CW, "W1AW", "src1", OriginatorKind::Human, now);
    table.ingest(input);

    let expired = table.evict_expired(now);
    assert!(expired.is_empty());
    assert_eq!(table.len(), 1);
}

// Observation cap

#[test]
fn observation_cap_enforced() {
    let mut table = SpotTable::new(SpotTableConfig {
        max_observations_per_spot: 5,
        ..Default::default()
    });

    let now = now();

    for i in 0..10 {
        let input = make_input(
            "JA1ABC",
            14_025_000,
            DxMode::CW,
            &format!("SKIM-{i}"),
            "src1",
            OriginatorKind::Skimmer,
            now,
        );
        table.ingest(input);
    }

    let key = make_key("JA1ABC", 14_025_000, DxMode::CW);
    let state = table.get(&key).unwrap();
    assert_eq!(state.spot.observations.len(), 5);

    // The oldest observations should have been dropped; most recent kept
    assert_eq!(state.spot.observations[0].originator.0, "SKIM-5");
    assert_eq!(state.spot.observations[4].originator.0, "SKIM-9");
}

// Unique originator / source tracking

#[test]
fn unique_originators_counted() {
    let mut table = default_table();
    let now = now();

    for call in ["W1AW", "VE3NEA", "DL1ABC"] {
        let input = make_input("JA1ABC", 14_025_000, DxMode::CW, call, "src1", OriginatorKind::Human, now);
        table.ingest(input);
    }

    let key = make_key("JA1ABC", 14_025_000, DxMode::CW);
    let state = table.get(&key).unwrap();
    assert_eq!(state.spot.unique_originators, 3);
    assert_eq!(state.originator_set.len(), 3);
}

#[test]
fn unique_human_originators_tracked() {
    let mut table = default_table();
    let now = now();

    let human = make_input("JA1ABC", 14_025_000, DxMode::CW, "W1AW", "src1", OriginatorKind::Human, now);
    let skim = make_input("JA1ABC", 14_025_000, DxMode::CW, "DK8JP-1", "src1", OriginatorKind::Skimmer, now);

    table.ingest(human);
    table.ingest(skim);

    let key = make_key("JA1ABC", 14_025_000, DxMode::CW);
    let state = table.get(&key).unwrap();
    assert_eq!(state.originator_set.len(), 2);
    assert_eq!(state.human_originator_set.len(), 1);
}

#[test]
fn unique_sources_counted() {
    let mut table = default_table();
    let now = now();

    let input1 = make_input("JA1ABC", 14_025_000, DxMode::CW, "W1AW", "rbn-east", OriginatorKind::Skimmer, now);
    let input2 = make_input("JA1ABC", 14_025_005, DxMode::CW, "VE3NEA", "rbn-west", OriginatorKind::Skimmer, now);

    table.ingest(input1);
    table.ingest(input2);

    let key = make_key("JA1ABC", 14_025_000, DxMode::CW);
    let state = table.get(&key).unwrap();
    assert_eq!(state.spot.unique_sources, 2);
    assert_eq!(state.source_set.len(), 2);
}

#[test]
fn duplicate_originator_not_double_counted() {
    let mut table = default_table();
    let now = now();

    // Same spotter reports twice
    for _ in 0..3 {
        let input = make_input("JA1ABC", 14_025_000, DxMode::CW, "W1AW", "src1", OriginatorKind::Human, now);
        table.ingest(input);
    }

    let key = make_key("JA1ABC", 14_025_000, DxMode::CW);
    let state = table.get(&key).unwrap();
    assert_eq!(state.spot.unique_originators, 1);
    assert_eq!(state.spot.observations.len(), 3);
}

// Frequency bucketing integration

#[test]
fn cw_spots_5hz_apart_same_bucket() {
    // CW bucket = 10 Hz, so 14025100 and 14025105 → same bucket 14025100
    let key1 = make_key("JA1ABC", 14_025_100, DxMode::CW);
    let key2 = make_key("JA1ABC", 14_025_105, DxMode::CW);
    assert_eq!(key1, key2);
}

#[test]
fn cw_spots_15hz_apart_different_buckets() {
    // CW bucket = 10 Hz, so 14025100 and 14025115 → buckets 14025100 vs 14025110
    let key1 = make_key("JA1ABC", 14_025_100, DxMode::CW);
    let key2 = make_key("JA1ABC", 14_025_115, DxMode::CW);
    assert_ne!(key1, key2);
}

#[test]
fn ssb_spots_500hz_apart_same_bucket() {
    // SSB bucket = 1000 Hz, so 14200500 and 14200999 → same bucket 14200000
    let key1 = make_key("W1AW", 14_200_500, DxMode::SSB);
    let key2 = make_key("W1AW", 14_200_999, DxMode::SSB);
    assert_eq!(key1, key2);
}

#[test]
fn dig_spots_50hz_apart_same_bucket() {
    // DIG bucket = 100 Hz, so 14074050 and 14074099 → same bucket 14074000
    let key1 = make_key("W1AW", 14_074_050, DxMode::DIG);
    let key2 = make_key("W1AW", 14_074_099, DxMode::DIG);
    assert_eq!(key1, key2);
}

// Revision tracking

#[test]
fn revision_increments_on_each_observation() {
    let mut table = default_table();
    let now = now();

    for i in 0..5 {
        let input = make_input(
            "JA1ABC",
            14_025_000,
            DxMode::CW,
            &format!("SPOTTER-{i}"),
            "src1",
            OriginatorKind::Human,
            now,
        );
        table.ingest(input);
    }

    let key = make_key("JA1ABC", 14_025_000, DxMode::CW);
    let state = table.get(&key).unwrap();
    assert_eq!(state.revision, 5);
}

// Edge cases

#[test]
fn empty_table() {
    let table = default_table();
    assert!(table.is_empty());
    assert_eq!(table.len(), 0);
}

#[test]
fn evict_on_empty_table() {
    let mut table = default_table();
    let expired = table.evict_expired(now());
    assert!(expired.is_empty());
}

#[test]
fn comment_updated_on_subsequent_observation() {
    let mut table = default_table();
    let now = now();

    let mut input1 = make_input("JA1ABC", 14_025_000, DxMode::CW, "W1AW", "src1", OriginatorKind::Human, now);
    input1.comment = Some("CQ".into());
    table.ingest(input1);

    let mut input2 = make_input("JA1ABC", 14_025_005, DxMode::CW, "VE3NEA", "src1", OriginatorKind::Human, now);
    input2.comment = Some("CQ TEST".into());
    table.ingest(input2);

    let key = make_key("JA1ABC", 14_025_000, DxMode::CW);
    let state = table.get(&key).unwrap();
    assert_eq!(state.spot.comment.as_deref(), Some("CQ TEST"));
}

#[test]
fn none_comment_does_not_overwrite() {
    let mut table = default_table();
    let now = now();

    let mut input1 = make_input("JA1ABC", 14_025_000, DxMode::CW, "W1AW", "src1", OriginatorKind::Human, now);
    input1.comment = Some("CQ".into());
    table.ingest(input1);

    // Second observation has no comment
    let input2 = make_input("JA1ABC", 14_025_005, DxMode::CW, "VE3NEA", "src1", OriginatorKind::Human, now);
    table.ingest(input2);

    let key = make_key("JA1ABC", 14_025_000, DxMode::CW);
    let state = table.get(&key).unwrap();
    assert_eq!(state.spot.comment.as_deref(), Some("CQ"));
}
