//! The aggregation pipeline.

use dxfeed::aggregator::pipeline::{Aggregator, AggregatorConfig, IncomingObservation};
use dxfeed::domain::{Band, DxMode, OriginatorKind};
use dxfeed::filter::compiled::FilterConfig;
use dxfeed::filter::config::FilterConfigSerde;
use dxfeed::model::{DxEvent, SourceId, SpotEventKind};
use dxfeed::parser::spot::ParsedSpot;
use dxfeed::skimmer::config::SkimmerQualityConfig;
use dxfeed::time::{Duration, Timestamp};

/// A fixed point in time.
fn now() -> Timestamp {
    Timestamp::from_secs(1_700_000_000)
}

fn default_filter() -> FilterConfig {
    FilterConfigSerde::default().validate_and_compile().unwrap()
}

fn make_obs(
    dx_call: &str,
    spotter: &str,
    freq_hz: u64,
    source: &str,
    kind: OriginatorKind,
) -> IncomingObservation {
    IncomingObservation {
        parsed: ParsedSpot {
            spotter_call: spotter.into(),
            dx_call: dx_call.into(),
            freq_hz,
            comment: None,
            utc_time: None,
        },
        source_id: SourceId(source.into()),
        originator_kind: kind,
        received_at: now(),
        skimmer_fields: None,
    }
}

fn make_obs_at(
    dx_call: &str,
    spotter: &str,
    freq_hz: u64,
    source: &str,
    kind: OriginatorKind,
    time: Timestamp,
) -> IncomingObservation {
    IncomingObservation {
        parsed: ParsedSpot {
            spotter_call: spotter.into(),
            dx_call: dx_call.into(),
            freq_hz,
            comment: None,
            utc_time: None,
        },
        source_id: SourceId(source.into()),
        originator_kind: kind,
        received_at: time,
        skimmer_fields: None,
    }
}

fn default_aggregator() -> Aggregator {
    Aggregator::new(default_filter(), None, AggregatorConfig::default(), None, None)
}

// Basic emission

#[test]
fn single_observation_emits_new() {
    let mut agg = default_aggregator();
    let obs = make_obs("JA1ABC", "W1AW", 14_025_000, "src1", OriginatorKind::Human);

    let events = agg.process_observation(obs);
    assert_eq!(events.len(), 1);

    if let DxEvent::Spot(e) = &events[0] {
        assert_eq!(e.kind, SpotEventKind::New);
        assert_eq!(e.spot.dx_call, "JA1ABC");
        assert_eq!(e.revision, 1);
    } else {
        panic!("expected Spot event");
    }
}

#[test]
fn duplicate_without_emit_updates_suppressed() {
    let mut agg = default_aggregator();
    // emit_updates is false by default

    let obs1 = make_obs("JA1ABC", "W1AW", 14_025_000, "src1", OriginatorKind::Human);
    let obs2 = make_obs("JA1ABC", "VE3NEA", 14_025_005, "src1", OriginatorKind::Human);

    let e1 = agg.process_observation(obs1);
    assert_eq!(e1.len(), 1);

    let e2 = agg.process_observation(obs2);
    assert!(e2.is_empty()); // suppressed
}

#[test]
fn duplicate_with_emit_updates_emits_update() {
    let mut config = AggregatorConfig::default();
    config.dedupe.emit_updates = true;

    let mut agg = Aggregator::new(default_filter(), None, config, None, None);

    let obs1 = make_obs("JA1ABC", "W1AW", 14_025_000, "src1", OriginatorKind::Human);
    let obs2 = make_obs("JA1ABC", "VE3NEA", 14_025_005, "src1", OriginatorKind::Human);

    agg.process_observation(obs1);
    let e2 = agg.process_observation(obs2);
    assert_eq!(e2.len(), 1);

    if let DxEvent::Spot(e) = &e2[0] {
        assert_eq!(e.kind, SpotEventKind::Update);
        assert_eq!(e.revision, 2);
    } else {
        panic!("expected Update event");
    }
}

// Filter integration

#[test]
fn observation_filtered_by_band_deny() {
    let mut filter_cfg = FilterConfigSerde::default();
    filter_cfg.rf.band_deny.insert(Band::B20);
    let filter = filter_cfg.validate_and_compile().unwrap();

    let mut agg = Aggregator::new(filter, None, AggregatorConfig::default(), None, None);

    let obs = make_obs("JA1ABC", "W1AW", 14_025_000, "src1", OriginatorKind::Human);
    let events = agg.process_observation(obs);
    assert!(events.is_empty());
}

// Skimmer gating

#[test]
fn skimmer_gating_blocks_unknown() {
    let skim_cfg = SkimmerQualityConfig::default(); // gate enabled, allow_unknown = false

    let mut agg = Aggregator::new(
        default_filter(),
        Some(skim_cfg),
        AggregatorConfig::default(),
        None,
        None,
    );

    // Single skimmer report → SkimUnknown → blocked
    let obs = make_obs("JA1ABC", "W3LPL-2", 14_025_000, "rbn", OriginatorKind::Skimmer);
    let events = agg.process_observation(obs);
    assert!(events.is_empty());
}

#[test]
fn skimmer_becomes_valid_emits_new() {
    let skim_cfg = SkimmerQualityConfig::default();

    let mut agg = Aggregator::new(
        default_filter(),
        Some(skim_cfg),
        AggregatorConfig::default(),
        None,
        None,
    );

    let now = now();

    // Three distinct skimmers → becomes SkimValid → should emit
    let obs1 = make_obs_at("JA1ABC", "W3LPL-2", 14_025_000, "rbn", OriginatorKind::Skimmer, now);
    let obs2 = make_obs_at("JA1ABC", "DK8JP-1", 14_025_050, "rbn", OriginatorKind::Skimmer, now);
    let obs3 = make_obs_at("JA1ABC", "VE3NEA-3", 14_025_100, "rbn", OriginatorKind::Skimmer, now);

    assert!(agg.process_observation(obs1).is_empty()); // Unknown → blocked
    assert!(agg.process_observation(obs2).is_empty()); // still Unknown

    let e3 = agg.process_observation(obs3);
    assert_eq!(e3.len(), 1); // Now Valid → emits

    if let DxEvent::Spot(e) = &e3[0] {
        assert_eq!(e.kind, SpotEventKind::New);
    } else {
        panic!("expected Spot New event");
    }
}

#[test]
fn human_not_blocked_by_skimmer_gating() {
    let skim_cfg = SkimmerQualityConfig::default();

    let mut agg = Aggregator::new(
        default_filter(),
        Some(skim_cfg),
        AggregatorConfig::default(),
        None,
        None,
    );

    let obs = make_obs("JA1ABC", "W1AW", 14_025_000, "cluster1", OriginatorKind::Human);
    let events = agg.process_observation(obs);
    assert_eq!(events.len(), 1); // Humans always pass gating
}

// tick() and TTL eviction

#[test]
fn tick_evicts_expired_spots() {
    let mut config = AggregatorConfig::default();
    config.spot_ttl = Duration::from_secs(60);
    let mut agg = Aggregator::new(default_filter(), None, config, None, None);

    let now = now();
    let old = now.plus_secs(-120).unwrap();

    let obs = make_obs_at("JA1ABC", "W1AW", 14_025_000, "src1", OriginatorKind::Human, old);
    agg.process_observation(obs);
    assert_eq!(agg.spot_table().len(), 1);

    let events = agg.tick(now);
    assert_eq!(agg.spot_table().len(), 0);
    assert_eq!(events.len(), 1);

    if let DxEvent::Spot(e) = &events[0] {
        assert_eq!(e.kind, SpotEventKind::Withdraw);
    } else {
        panic!("expected Withdraw event");
    }
}

// Normalization

#[test]
fn callsign_normalized_in_spot_key() {
    let mut agg = default_aggregator();

    let obs = make_obs("ja1abc", "w1aw", 14_025_000, "src1", OriginatorKind::Human);
    let events = agg.process_observation(obs);
    assert_eq!(events.len(), 1);

    if let DxEvent::Spot(e) = &events[0] {
        assert_eq!(e.spot.spot_key.dx_call_norm, "JA1ABC");
    } else {
        panic!("expected Spot event");
    }
}

#[test]
fn band_and_mode_inferred_from_frequency() {
    let mut agg = default_aggregator();

    let obs = make_obs("JA1ABC", "W1AW", 14_025_000, "src1", OriginatorKind::Human);
    let events = agg.process_observation(obs);
    assert_eq!(events.len(), 1);

    if let DxEvent::Spot(e) = &events[0] {
        assert_eq!(e.spot.band, Band::B20);
        assert_eq!(e.spot.mode, DxMode::CW);
    } else {
        panic!("expected Spot event");
    }
}

// Revision tracking

// update_aggregator_config / update_skimmer_config

#[test]
fn update_aggregator_config_cascades_to_table() {
    let mut agg = default_aggregator();
    let now = now();

    // Insert a spot with default TTL (900s)
    let old = now.plus_secs(-120).unwrap();
    let obs = make_obs_at("JA1ABC", "W1AW", 14_025_000, "src1", OriginatorKind::Human, old);
    agg.process_observation(obs);
    assert_eq!(agg.spot_table().len(), 1);

    // Reduce TTL to 60s — the spot is 120s old, so tick should evict it
    let mut config = AggregatorConfig::default();
    config.spot_ttl = Duration::from_secs(60);
    agg.update_aggregator_config(config);

    let events = agg.tick(now);
    assert_eq!(agg.spot_table().len(), 0);
    assert_eq!(events.len(), 1);
}

#[test]
fn update_skimmer_config_changes_gating() {
    let skim_cfg = SkimmerQualityConfig::default();
    let mut agg = Aggregator::new(
        default_filter(),
        Some(skim_cfg),
        AggregatorConfig::default(),
        None,
        None,
    );

    // Single skimmer report → Unknown → blocked
    let obs = make_obs("JA1ABC", "W3LPL-2", 14_025_000, "rbn", OriginatorKind::Skimmer);
    assert!(agg.process_observation(obs).is_empty());

    // Update config to allow_unknown = true
    let mut new_cfg = SkimmerQualityConfig::default();
    new_cfg.allow_unknown = true;
    agg.update_skimmer_config(Some(new_cfg));

    // Now a single skimmer report should pass gating
    let obs2 = make_obs("DL1ABC", "DK8JP-1", 21_025_000, "rbn", OriginatorKind::Skimmer);
    assert!(!agg.process_observation(obs2).is_empty());
}

#[test]
fn update_skimmer_config_creates_engine() {
    // Start with no skimmer engine
    let mut agg = default_aggregator();

    // Enabling skimmer config should create the engine
    let skim_cfg = SkimmerQualityConfig::default();
    agg.update_skimmer_config(Some(skim_cfg));

    // Now skimmer gating should block unknown spots
    let obs = make_obs("JA1ABC", "W3LPL-2", 14_025_000, "rbn", OriginatorKind::Skimmer);
    assert!(agg.process_observation(obs).is_empty());
}

#[test]
fn update_skimmer_config_disables_engine() {
    let skim_cfg = SkimmerQualityConfig::default();
    let mut agg = Aggregator::new(
        default_filter(),
        Some(skim_cfg),
        AggregatorConfig::default(),
        None,
        None,
    );

    // Disable the engine
    agg.update_skimmer_config(None);

    // Now skimmer spots should pass through (no gating)
    let obs = make_obs("JA1ABC", "W3LPL-2", 14_025_000, "rbn", OriginatorKind::Skimmer);
    assert!(!agg.process_observation(obs).is_empty());
}

// Revision tracking

#[test]
fn revision_increments_across_observations() {
    let mut config = AggregatorConfig::default();
    config.dedupe.emit_updates = true;
    let mut agg = Aggregator::new(default_filter(), None, config, None, None);

    let obs1 = make_obs("JA1ABC", "W1AW", 14_025_000, "src1", OriginatorKind::Human);
    let obs2 = make_obs("JA1ABC", "VE3NEA", 14_025_005, "src1", OriginatorKind::Human);
    let obs3 = make_obs("JA1ABC", "DL1ABC", 14_025_003, "src1", OriginatorKind::Human);

    let e1 = agg.process_observation(obs1).into_iter().next().unwrap();
    let e2 = agg.process_observation(obs2).into_iter().next().unwrap();
    let e3 = agg.process_observation(obs3).into_iter().next().unwrap();

    if let (DxEvent::Spot(s1), DxEvent::Spot(s2), DxEvent::Spot(s3)) = (e1, e2, e3) {
        assert_eq!(s1.revision, 1);
        assert_eq!(s2.revision, 2);
        assert_eq!(s3.revision, 3);
    } else {
        panic!("expected Spot events");
    }
}

// Update cooldown

#[test]
fn update_cooldown_suppresses_rapid_updates() {
    let mut config = AggregatorConfig::default();
    config.dedupe.emit_updates = true;
    config.dedupe.min_update_interval = Some(Duration::from_secs(30));
    let mut agg = Aggregator::new(default_filter(), None, config, None, None);

    let t0 = now();
    let t10 = t0.plus_secs(10).unwrap();
    let t35 = t0.plus_secs(35).unwrap();

    // First observation → New (always emitted)
    let obs1 = make_obs_at("JA1ABC", "W1AW", 14_025_000, "src1", OriginatorKind::Human, t0);
    let e1 = agg.process_observation(obs1);
    assert_eq!(e1.len(), 1);
    assert!(matches!(&e1[0], DxEvent::Spot(e) if e.kind == SpotEventKind::New));

    // Second observation 10s later → within cooldown → suppressed
    let obs2 = make_obs_at("JA1ABC", "VE3NEA", 14_025_005, "src1", OriginatorKind::Human, t10);
    let e2 = agg.process_observation(obs2);
    assert!(e2.is_empty(), "update within cooldown should be suppressed");

    // Third observation 35s after first → cooldown expired → Update emitted
    let obs3 = make_obs_at("JA1ABC", "DL1ABC", 14_025_003, "src1", OriginatorKind::Human, t35);
    let e3 = agg.process_observation(obs3);
    assert_eq!(e3.len(), 1);
    assert!(matches!(&e3[0], DxEvent::Spot(e) if e.kind == SpotEventKind::Update));
}

#[test]
fn update_cooldown_none_disables_throttle() {
    let mut config = AggregatorConfig::default();
    config.dedupe.emit_updates = true;
    config.dedupe.min_update_interval = None;
    let mut agg = Aggregator::new(default_filter(), None, config, None, None);

    let obs1 = make_obs("JA1ABC", "W1AW", 14_025_000, "src1", OriginatorKind::Human);
    let obs2 = make_obs("JA1ABC", "VE3NEA", 14_025_005, "src1", OriginatorKind::Human);

    agg.process_observation(obs1);
    let e2 = agg.process_observation(obs2);
    assert_eq!(e2.len(), 1);
    assert!(matches!(&e2[0], DxEvent::Spot(e) if e.kind == SpotEventKind::Update));
}

#[test]
fn cooldown_resets_after_emitted_update() {
    let mut config = AggregatorConfig::default();
    config.dedupe.emit_updates = true;
    config.dedupe.min_update_interval = Some(Duration::from_secs(10));
    let mut agg = Aggregator::new(default_filter(), None, config, None, None);

    let t0 = now();

    // New at t0
    let obs1 = make_obs_at("JA1ABC", "W1AW", 14_025_000, "src1", OriginatorKind::Human, t0);
    agg.process_observation(obs1);

    // Update at t0+15s → emitted (cooldown from t0 expired)
    let t15 = t0.plus_secs(15).unwrap();
    let obs2 = make_obs_at("JA1ABC", "VE3NEA", 14_025_005, "src1", OriginatorKind::Human, t15);
    let e2 = agg.process_observation(obs2);
    assert_eq!(e2.len(), 1);
    assert!(matches!(&e2[0], DxEvent::Spot(e) if e.kind == SpotEventKind::Update));

    // Update at t0+20s → suppressed (only 5s since last emission at t15)
    let t20 = t0.plus_secs(20).unwrap();
    let obs3 = make_obs_at("JA1ABC", "DL1ABC", 14_025_003, "src1", OriginatorKind::Human, t20);
    let e3 = agg.process_observation(obs3);
    assert!(e3.is_empty(), "should be within cooldown from last Update");

    // Update at t0+26s → emitted (cooldown from t15 expired)
    let t26 = t0.plus_secs(26).unwrap();
    let obs4 = make_obs_at("JA1ABC", "K1ABC", 14_025_003, "src1", OriginatorKind::Human, t26);
    let e4 = agg.process_observation(obs4);
    assert_eq!(e4.len(), 1);
    assert!(matches!(&e4[0], DxEvent::Spot(e) if e.kind == SpotEventKind::Update));
}

// QSY detection

#[test]
fn qsy_within_band_emits_withdraw_then_new() {
    let mut agg = default_aggregator();

    // First spot: N9UNX on 7.043 MHz (40m CW)
    let obs1 = make_obs("N9UNX", "W1AW", 7_043_000, "src1", OriginatorKind::Human);
    let e1 = agg.process_observation(obs1);
    assert_eq!(e1.len(), 1);
    assert!(matches!(&e1[0], DxEvent::Spot(e) if e.kind == SpotEventKind::New));

    // QSY: same call, same band/mode, different freq bucket (7.044 MHz)
    let obs2 = make_obs("N9UNX", "VE3NEA", 7_044_000, "src1", OriginatorKind::Human);
    let e2 = agg.process_observation(obs2);
    assert_eq!(e2.len(), 2, "should emit [Withdraw, New]");

    // First event: Withdraw of old spot
    if let DxEvent::Spot(w) = &e2[0] {
        assert_eq!(w.kind, SpotEventKind::Withdraw);
        assert_eq!(w.spot.spot_key.dx_call_norm, "N9UNX");
        assert_eq!(w.spot.freq_hz, 7_043_000);
    } else {
        panic!("expected Withdraw event");
    }

    // Second event: New spot at new frequency
    if let DxEvent::Spot(n) = &e2[1] {
        assert_eq!(n.kind, SpotEventKind::New);
        assert_eq!(n.spot.spot_key.dx_call_norm, "N9UNX");
        assert_eq!(n.spot.freq_hz, 7_044_000);
    } else {
        panic!("expected New event");
    }

    // Old spot should be removed from the table
    assert_eq!(agg.spot_table().len(), 1);
}

#[test]
fn qsy_different_band_no_withdraw() {
    let mut agg = default_aggregator();

    // Spot on 40m CW
    let obs1 = make_obs("N9UNX", "W1AW", 7_043_000, "src1", OriginatorKind::Human);
    let e1 = agg.process_observation(obs1);
    assert_eq!(e1.len(), 1);

    // Different band (20m CW) — NOT a QSY, independent spot
    let obs2 = make_obs("N9UNX", "VE3NEA", 14_025_000, "src1", OriginatorKind::Human);
    let e2 = agg.process_observation(obs2);
    assert_eq!(e2.len(), 1, "different band should just be a New");
    assert!(matches!(&e2[0], DxEvent::Spot(e) if e.kind == SpotEventKind::New));

    // Both spots should remain in the table
    assert_eq!(agg.spot_table().len(), 2);
}

#[test]
fn qsy_disabled_no_withdraw() {
    let mut config = AggregatorConfig::default();
    config.dedupe.detect_qsy = false;
    let mut agg = Aggregator::new(default_filter(), None, config, None, None);

    // First spot
    let obs1 = make_obs("N9UNX", "W1AW", 7_043_000, "src1", OriginatorKind::Human);
    agg.process_observation(obs1);

    // Different freq bucket on same band — should be independent New (no withdraw)
    let obs2 = make_obs("N9UNX", "VE3NEA", 7_044_000, "src1", OriginatorKind::Human);
    let e2 = agg.process_observation(obs2);
    assert_eq!(e2.len(), 1);
    assert!(matches!(&e2[0], DxEvent::Spot(e) if e.kind == SpotEventKind::New));

    // Both spots coexist
    assert_eq!(agg.spot_table().len(), 2);
}

#[test]
fn qsy_only_triggers_after_gating() {
    // With skimmer gating, a single unverified skimmer should NOT trigger QSY
    let skim_cfg = SkimmerQualityConfig::default();
    let mut agg = Aggregator::new(
        default_filter(),
        Some(skim_cfg),
        AggregatorConfig::default(),
        None,
        None,
    );

    let now = now();

    // First: establish a valid spot via 3 skimmers on 7.043
    let obs1 = make_obs_at("N9UNX", "SKIM1", 7_043_000, "rbn", OriginatorKind::Skimmer, now);
    let obs2 = make_obs_at("N9UNX", "SKIM2", 7_043_050, "rbn", OriginatorKind::Skimmer, now);
    let obs3 = make_obs_at("N9UNX", "SKIM3", 7_043_080, "rbn", OriginatorKind::Skimmer, now);

    assert!(agg.process_observation(obs1).is_empty());
    assert!(agg.process_observation(obs2).is_empty());
    let e3 = agg.process_observation(obs3);
    assert_eq!(e3.len(), 1); // Valid → emits New

    // Now a single skimmer at a different frequency — blocked by gating, no QSY
    let obs4 = make_obs_at("N9UNX", "SKIM4", 7_044_000, "rbn", OriginatorKind::Skimmer, now);
    let e4 = agg.process_observation(obs4);
    assert!(e4.is_empty(), "unverified spot should not trigger QSY");

    // Original spot still in table
    assert_eq!(agg.spot_table().len(), 2); // both freq buckets ingested
}

#[test]
fn qsy_rapid_back_and_forth() {
    let mut agg = default_aggregator();

    // A on freq A
    let obs1 = make_obs("N9UNX", "W1AW", 7_043_000, "src1", OriginatorKind::Human);
    let e1 = agg.process_observation(obs1);
    assert_eq!(e1.len(), 1);

    // A → freq B (QSY)
    let obs2 = make_obs("N9UNX", "VE3NEA", 7_044_000, "src1", OriginatorKind::Human);
    let e2 = agg.process_observation(obs2);
    assert_eq!(e2.len(), 2);
    assert!(matches!(&e2[0], DxEvent::Spot(e) if e.kind == SpotEventKind::Withdraw));
    assert!(matches!(&e2[1], DxEvent::Spot(e) if e.kind == SpotEventKind::New));

    // B → freq A (QSY back)
    let obs3 = make_obs("N9UNX", "DL1ABC", 7_043_000, "src1", OriginatorKind::Human);
    let e3 = agg.process_observation(obs3);
    assert_eq!(e3.len(), 2);
    assert!(matches!(&e3[0], DxEvent::Spot(e) if e.kind == SpotEventKind::Withdraw));
    assert!(matches!(&e3[1], DxEvent::Spot(e) if e.kind == SpotEventKind::New));

    // Only one spot should exist in the table
    assert_eq!(agg.spot_table().len(), 1);
}

#[test]
fn qsy_eviction_cleans_index() {
    let mut config = AggregatorConfig::default();
    config.spot_ttl = Duration::from_secs(60);
    let mut agg = Aggregator::new(default_filter(), None, config, None, None);

    let now = now();
    let old = now.plus_secs(-120).unwrap();

    // Create an emitted spot (old timestamp)
    let obs = make_obs_at("N9UNX", "W1AW", 7_043_000, "src1", OriginatorKind::Human, old);
    agg.process_observation(obs);

    // Evict it via tick
    let events = agg.tick(now);
    assert_eq!(events.len(), 1);
    assert!(matches!(&events[0], DxEvent::Spot(e) if e.kind == SpotEventKind::Withdraw));

    // Now a new spot at a different freq should NOT produce a QSY withdraw
    // (old spot was already evicted and index cleaned)
    let obs2 = make_obs_at("N9UNX", "VE3NEA", 7_044_000, "src1", OriginatorKind::Human, now);
    let e2 = agg.process_observation(obs2);
    assert_eq!(e2.len(), 1, "should just be New, no QSY withdraw");
    assert!(matches!(&e2[0], DxEvent::Spot(e) if e.kind == SpotEventKind::New));
}
