//! Validation and compilation of filters.

use dxfeed::domain::{Continent, TriState};
use dxfeed::filter::config::{FilterConfigSerde, MembershipRuleSerde, RfProfileSerde};
use dxfeed::time::Duration;

#[test]
fn default_config_compiles() {
    let cfg = FilterConfigSerde::default();
    let compiled = cfg.validate_and_compile().unwrap();
    assert_eq!(compiled.max_age, Duration::from_secs(15 * 60));
    assert!(compiled.freq_sanity.is_some());
    assert!(compiled.rf.band_allow.is_empty());
    assert!(compiled.dx.allow.is_empty());
}

#[test]
fn max_age_zero_errors() {
    let mut cfg = FilterConfigSerde::default();
    cfg.max_age_secs = 0;
    let result = cfg.validate_and_compile();
    assert!(result.is_err());
    assert!(result.unwrap_err().message().contains("max_age"));
}

#[test]
fn reversed_freq_sanity_errors() {
    let mut cfg = FilterConfigSerde::default();
    cfg.freq_sanity_hz = Some((54_000_000, 1_800_000)); // reversed
    let result = cfg.validate_and_compile();
    assert!(result.is_err());
    assert!(result
        .unwrap_err()
        .message()
        .contains("invalid frequency range"));
}

#[test]
fn reversed_freq_allow_range_errors() {
    let mut cfg = FilterConfigSerde::default();
    cfg.rf.freq_allow_hz.push((14_100_000, 14_000_000)); // reversed
    let result = cfg.validate_and_compile();
    assert!(result.is_err());
}

#[test]
fn reversed_freq_deny_range_errors() {
    let mut cfg = FilterConfigSerde::default();
    cfg.rf.freq_deny_hz.push((7_100_000, 7_000_000));
    let result = cfg.validate_and_compile();
    assert!(result.is_err());
}

#[test]
fn reversed_profile_range_errors() {
    let mut cfg = FilterConfigSerde::default();
    cfg.rf.profiles.push(RfProfileSerde {
        name: "bad".into(),
        ranges_hz: vec![(14_100_000, 14_000_000)],
    });
    let result = cfg.validate_and_compile();
    assert!(result.is_err());
}

#[test]
fn invalid_glob_in_dx_allow_errors() {
    let mut cfg = FilterConfigSerde::default();
    cfg.dx.allow.globs.push("[invalid".into());
    let result = cfg.validate_and_compile();
    assert!(result.is_err());
    assert!(result
        .unwrap_err()
        .message()
        .contains("invalid glob"));
}

#[test]
fn invalid_regex_in_dx_deny_errors() {
    let mut cfg = FilterConfigSerde::default();
    cfg.dx.deny.regexes.push("(unclosed".into());
    let result = cfg.validate_and_compile();
    assert!(result.is_err());
    assert!(result
        .unwrap_err()
        .message()
        .contains("invalid regex"));
}

#[test]
fn patterns_compile_correctly() {
    let mut cfg = FilterConfigSerde::default();
    cfg.dx.allow.globs.push("W1*".into());
    cfg.dx.deny.regexes.push("^(VE|VA)".into());

    let compiled = cfg.validate_and_compile().unwrap();
    assert!(compiled.dx.allow.is_match("W1AW"));
    assert!(!compiled.dx.allow.is_match("K1TTT"));
    assert!(compiled.dx.deny.is_match("VE3NEA"));
    assert!(!compiled.dx.deny.is_match("W1AW"));
}

#[test]
fn content_cq_regex_compiled_when_enabled() {
    let mut cfg = FilterConfigSerde::default();
    cfg.content.cq_only = true;
    let compiled = cfg.validate_and_compile().unwrap();
    assert!(compiled.content.cq_regex.is_some());
    assert!(compiled.content.cq_regex.as_ref().unwrap().is_match("CQ"));
}

#[test]
fn content_split_regex_compiled_when_enabled() {
    let mut cfg = FilterConfigSerde::default();
    cfg.content.suppress_split_qsy = true;
    let compiled = cfg.validate_and_compile().unwrap();
    assert!(compiled.content.split_qsy_regex.is_some());
    let rx = compiled.content.split_qsy_regex.as_ref().unwrap();
    assert!(rx.is_match("UP 5"));
    assert!(rx.is_match("QSX 14030"));
    assert!(rx.is_match("split"));
    assert!(rx.is_match("QSY"));
}

#[test]
fn content_regexes_not_compiled_when_disabled() {
    let cfg = FilterConfigSerde::default();
    let compiled = cfg.validate_and_compile().unwrap();
    assert!(compiled.content.cq_regex.is_none());
    assert!(compiled.content.split_qsy_regex.is_none());
}

#[test]
fn correlation_clamps_to_minimum_1() {
    let mut cfg = FilterConfigSerde::default();
    cfg.correlation.min_unique_originators = 0;
    cfg.correlation.min_unique_sources = 0;
    cfg.correlation.min_observations = 0;
    cfg.correlation.min_repeats_same_key = 0;
    cfg.correlation.window_secs = 0;

    let compiled = cfg.validate_and_compile().unwrap();
    assert_eq!(compiled.correlation.min_unique_originators, 1);
    assert_eq!(compiled.correlation.min_unique_sources, 1);
    assert_eq!(compiled.correlation.min_observations, 1);
    assert_eq!(compiled.correlation.min_repeats_same_key, 1);
    assert_eq!(compiled.correlation.window, Duration::from_secs(1));
}

#[test]
fn skimmer_reversed_ranges_auto_corrected() {
    let mut cfg = FilterConfigSerde::default();
    cfg.skimmer.snr_db = Some((40, 5)); // reversed
    cfg.skimmer.wpm = Some((45, 15)); // reversed

    let compiled = cfg.validate_and_compile().unwrap();
    assert_eq!(compiled.skimmer.snr_db, Some(5..=40));
    assert_eq!(compiled.skimmer.wpm, Some(15..=45));
}

#[test]
fn geo_filters_compile() {
    let mut cfg = FilterConfigSerde::default();
    cfg.geo.dx.continent_allow.insert(Continent::EU);
    cfg.geo.dx.cq_zone_allow.insert(14);
    cfg.geo.dx.grid_allow.globs.push("FN*".into());
    cfg.geo.require_resolvers = true;

    let compiled = cfg.validate_and_compile().unwrap();
    assert!(compiled.geo.dx.continent_allow.contains(&Continent::EU));
    assert!(compiled.geo.dx.cq_zone_allow.contains(&14));
    assert!(compiled.geo.dx.grid_allow.is_match("FN31"));
    assert!(compiled.geo.require_resolvers);
    assert!(compiled.geo.dx.has_any_filters());
}

#[test]
fn entity_filters_has_any_filters() {
    let mut cfg = FilterConfigSerde::default();
    // Empty by default
    let compiled = cfg.validate_and_compile().unwrap();
    assert!(!compiled.geo.dx.has_any_filters());
    assert!(!compiled.geo.spotter.has_any_filters());

    // Add one filter
    cfg = FilterConfigSerde::default();
    cfg.geo.dx.cq_zone_deny.insert(3);
    let compiled = cfg.validate_and_compile().unwrap();
    assert!(compiled.geo.dx.has_any_filters());
}

#[test]
fn none_freq_sanity_compiles() {
    let mut cfg = FilterConfigSerde::default();
    cfg.freq_sanity_hz = None;
    let compiled = cfg.validate_and_compile().unwrap();
    assert!(compiled.freq_sanity.is_none());
}

#[test]
fn enrichment_compiles() {
    let mut cfg = FilterConfigSerde::default();
    cfg.enrichment.lotw = TriState::RequireTrue;
    cfg.enrichment
        .membership
        .push(MembershipRuleSerde::Require("FOC".into()));

    let compiled = cfg.validate_and_compile().unwrap();
    assert_eq!(compiled.enrichment.lotw, TriState::RequireTrue);
    assert_eq!(compiled.enrichment.membership.len(), 1);
}

#[test]
fn spotter_patterns_compile() {
    let mut cfg = FilterConfigSerde::default();
    cfg.spotter.callsign.allow.globs.push("W3*".into());
    cfg.spotter.source_deny.insert("bad_node".into());
    cfg.spotter.allow_skimmer = false;

    let compiled = cfg.validate_and_compile().unwrap();
    assert!(compiled.spotter.callsign.allow.is_match("W3LPL"));
    assert!(compiled.spotter.source_deny.contains_text("bad_node"));
    assert!(!compiled.spotter.allow_skimmer);
}

#[test]
fn profile_with_valid_ranges_compiles() {
    let mut cfg = FilterConfigSerde::default();
    cfg.rf.profiles.push(RfProfileSerde {
        name: "CW contest".into(),
        ranges_hz: vec![
            (14_000_000, 14_070_000),
            (7_000_000, 7_040_000),
        ],
    });

    let compiled = cfg.validate_and_compile().unwrap();
    assert_eq!(compiled.rf.profiles.len(), 1);
    assert_eq!(compiled.rf.profiles[0].name, "CW contest");
    assert_eq!(compiled.rf.profiles[0].ranges_hz.len(), 2);
}
