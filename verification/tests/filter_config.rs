//! Filter configuration defaults.

use dxfeed::domain::{TriState, UnknownFieldPolicy};
use dxfeed::filter::config::{FilterConfigSerde, MembershipRuleSerde, PatternSetSerde};

#[test]
fn default_config_is_valid() {
    let cfg = FilterConfigSerde::default();
    assert_eq!(cfg.max_age_secs, 15 * 60);
    assert_eq!(cfg.freq_sanity_hz, Some((1_800_000, 54_000_000)));
    assert_eq!(cfg.unknown_policy, UnknownFieldPolicy::Neutral);
    assert!(cfg.rf.band_allow.is_empty());
    assert!(cfg.rf.band_deny.is_empty());
    assert!(cfg.dx.allow.globs.is_empty());
    assert!(cfg.spotter.allow_human);
    assert!(cfg.spotter.allow_skimmer);
    assert!(!cfg.content.cq_only);
    assert_eq!(cfg.correlation.min_unique_originators, 1);
    assert_eq!(cfg.correlation.window_secs, 180);
    assert!(cfg.skimmer.snr_db.is_none());
    assert!(!cfg.geo.require_resolvers);
    assert_eq!(cfg.enrichment.lotw, TriState::Any);
}

#[test]
fn membership_rule_ord() {
    // Verify Ord works (needed if we ever put these in a BTreeSet)
    let r1 = MembershipRuleSerde::Require("FOC".into());
    let r2 = MembershipRuleSerde::Deny("FOC".into());
    // Require < Deny by declaration order (discriminant)
    assert!(r1 < r2);
}

#[test]
fn pattern_set_default_is_empty() {
    let ps = PatternSetSerde::default();
    assert!(ps.globs.is_empty());
    assert!(ps.regexes.is_empty());
    assert!(!ps.case_insensitive);
}
