//! Filter evaluation.

use dxfeed::domain::{Band, Continent, DxMode, OriginatorKind, TriState, UnknownFieldPolicy};
use dxfeed::filter::compiled::FilterConfig;
use dxfeed::filter::config::{FilterConfigSerde, MembershipRuleSerde, RfProfileSerde};
use dxfeed::filter::decision::{FilterDecision, FilterDropReason};
use dxfeed::filter::evaluate::{count_unique_originators, evaluate};
use dxfeed::model::{GeoResolved, SpotView};
use dxfeed::sets::ValueSet;
use dxfeed::time::Timestamp;

/// A fixed point in time.
fn now() -> Timestamp {
    Timestamp::from_secs(1_700_000_000)
}

// Helper: compile a default config with modifications
fn compile(f: impl FnOnce(&mut FilterConfigSerde)) -> FilterConfig {
    let mut cfg = FilterConfigSerde::default();
    f(&mut cfg);
    cfg.validate_and_compile().unwrap()
}

fn default_view() -> SpotView<'static> {
    SpotView::test_default(now(), "W1AW", 14_025_000, Band::B20, DxMode::CW)
}

// Default config allows everything

#[test]
fn default_config_allows_normal_spot() {
    let cfg = FilterConfigSerde::default().validate_and_compile().unwrap();
    let view = default_view();
    assert_eq!(evaluate(&view, &cfg), FilterDecision::Allow);
}

// Age

#[test]
fn too_old_spot_dropped() {
    let cfg = compile(|c| c.max_age_secs = 60);
    let now = now();
    let mut view = SpotView::test_default(now, "W1AW", 14_025_000, Band::B20, DxMode::CW);
    view.last_seen = now.plus_secs(-120).unwrap();
    assert_eq!(
        evaluate(&view, &cfg),
        FilterDecision::Drop(FilterDropReason::TooOld)
    );
}

#[test]
fn young_spot_passes_age() {
    let cfg = compile(|c| c.max_age_secs = 60);
    let now = now();
    let mut view = SpotView::test_default(now, "W1AW", 14_025_000, Band::B20, DxMode::CW);
    view.last_seen = now.plus_secs(-30).unwrap();
    assert_eq!(evaluate(&view, &cfg), FilterDecision::Allow);
}

// Frequency sanity

#[test]
fn freq_below_sanity_dropped() {
    let cfg = compile(|_| {});
    let mut view = default_view();
    view.freq_hz = 1_000_000; // below 1.8 MHz
    assert_eq!(
        evaluate(&view, &cfg),
        FilterDecision::Drop(FilterDropReason::FreqOutOfRange)
    );
}

#[test]
fn freq_above_sanity_dropped() {
    let cfg = compile(|_| {});
    let mut view = default_view();
    view.freq_hz = 60_000_000; // above 54 MHz
    assert_eq!(
        evaluate(&view, &cfg),
        FilterDecision::Drop(FilterDropReason::FreqOutOfRange)
    );
}

// Band allow/deny

#[test]
fn band_deny_drops() {
    let cfg = compile(|c| {
        c.rf.band_deny.insert(Band::B20);
    });
    assert_eq!(
        evaluate(&default_view(), &cfg),
        FilterDecision::Drop(FilterDropReason::BandDenied)
    );
}

#[test]
fn band_allow_passes_listed() {
    let cfg = compile(|c| {
        c.rf.band_allow.insert(Band::B20);
    });
    assert_eq!(evaluate(&default_view(), &cfg), FilterDecision::Allow);
}

#[test]
fn band_allow_drops_unlisted() {
    let cfg = compile(|c| {
        c.rf.band_allow.insert(Band::B40);
    });
    // view is B20, not in allowlist
    assert_eq!(
        evaluate(&default_view(), &cfg),
        FilterDecision::Drop(FilterDropReason::BandDenied)
    );
}

// Mode allow/deny

#[test]
fn mode_deny_drops() {
    let cfg = compile(|c| {
        c.rf.mode_deny.insert(DxMode::CW);
    });
    assert_eq!(
        evaluate(&default_view(), &cfg),
        FilterDecision::Drop(FilterDropReason::ModeDenied)
    );
}

#[test]
fn mode_allow_drops_unlisted() {
    let cfg = compile(|c| {
        c.rf.mode_allow.insert(DxMode::SSB);
    });
    assert_eq!(
        evaluate(&default_view(), &cfg),
        FilterDecision::Drop(FilterDropReason::ModeDenied)
    );
}

// Frequency ranges

#[test]
fn freq_deny_range_drops() {
    let cfg = compile(|c| {
        c.rf.freq_deny_hz.push((14_020_000, 14_030_000));
    });
    assert_eq!(
        evaluate(&default_view(), &cfg),
        FilterDecision::Drop(FilterDropReason::FreqDenied)
    );
}

#[test]
fn freq_allow_range_passes() {
    let cfg = compile(|c| {
        c.rf.freq_allow_hz.push((14_000_000, 14_070_000));
    });
    assert_eq!(evaluate(&default_view(), &cfg), FilterDecision::Allow);
}

#[test]
fn freq_allow_range_drops_outside() {
    let cfg = compile(|c| {
        c.rf.freq_allow_hz.push((7_000_000, 7_040_000));
    });
    assert_eq!(
        evaluate(&default_view(), &cfg),
        FilterDecision::Drop(FilterDropReason::FreqNotAllowed)
    );
}

// Profiles

#[test]
fn profile_match_passes() {
    let cfg = compile(|c| {
        c.rf.profiles.push(RfProfileSerde {
            name: "CW".into(),
            ranges_hz: vec![(14_000_000, 14_070_000)],
        });
    });
    assert_eq!(evaluate(&default_view(), &cfg), FilterDecision::Allow);
}

#[test]
fn profile_no_match_drops() {
    let cfg = compile(|c| {
        c.rf.profiles.push(RfProfileSerde {
            name: "SSB".into(),
            ranges_hz: vec![(14_150_000, 14_350_000)],
        });
    });
    assert_eq!(
        evaluate(&default_view(), &cfg),
        FilterDecision::Drop(FilterDropReason::ProfileNoMatch)
    );
}

// DX callsign

#[test]
fn dx_call_deny_drops() {
    let cfg = compile(|c| {
        c.dx.deny.regexes.push("^W1".into());
    });
    assert_eq!(
        evaluate(&default_view(), &cfg),
        FilterDecision::Drop(FilterDropReason::DxCallDenied)
    );
}

#[test]
fn dx_call_allow_passes() {
    let cfg = compile(|c| {
        c.dx.allow.globs.push("W1*".into());
    });
    assert_eq!(evaluate(&default_view(), &cfg), FilterDecision::Allow);
}

#[test]
fn dx_call_allow_drops_nonmatch() {
    let cfg = compile(|c| {
        c.dx.allow.globs.push("JA*".into());
    });
    assert_eq!(
        evaluate(&default_view(), &cfg),
        FilterDecision::Drop(FilterDropReason::DxCallNotAllowed)
    );
}

// Spotter kind

#[test]
fn human_denied_when_disabled() {
    let cfg = compile(|c| c.spotter.allow_human = false);
    assert_eq!(
        evaluate(&default_view(), &cfg),
        FilterDecision::Drop(FilterDropReason::OriginatorKindDenied)
    );
}

#[test]
fn skimmer_denied_when_disabled() {
    let cfg = compile(|c| c.spotter.allow_skimmer = false);
    let mut view = default_view();
    view.originator_kind = OriginatorKind::Skimmer;
    assert_eq!(
        evaluate(&view, &cfg),
        FilterDecision::Drop(FilterDropReason::OriginatorKindDenied)
    );
}

#[test]
fn unknown_kind_denied_when_disabled() {
    let cfg = compile(|c| c.spotter.allow_unknown_kind = false);
    let mut view = default_view();
    view.originator_kind = OriginatorKind::Unknown;
    assert_eq!(
        evaluate(&view, &cfg),
        FilterDecision::Drop(FilterDropReason::OriginatorKindDenied)
    );
}

// Spotter call/source

#[test]
fn spotter_source_deny_drops() {
    let cfg = compile(|c| {
        c.spotter.source_deny.insert("bad_node".into());
    });
    let mut view = default_view();
    view.spotter_source_id = Some("bad_node");
    assert_eq!(
        evaluate(&view, &cfg),
        FilterDecision::Drop(FilterDropReason::SpotterDenied)
    );
}

#[test]
fn spotter_call_deny_drops() {
    let cfg = compile(|c| {
        c.spotter.callsign.deny.globs.push("W3LPL*".into());
    });
    let mut view = default_view();
    view.spotter_call_norm = Some("W3LPL-2");
    assert_eq!(
        evaluate(&view, &cfg),
        FilterDecision::Drop(FilterDropReason::SpotterDenied)
    );
}

// Content / CQ / split

#[test]
fn cq_only_drops_non_cq() {
    let cfg = compile(|c| c.content.cq_only = true);
    let mut view = default_view();
    view.comment = Some("599 NY");
    assert_eq!(
        evaluate(&view, &cfg),
        FilterDecision::Drop(FilterDropReason::CqRequired)
    );
}

#[test]
fn cq_only_passes_cq_comment() {
    let cfg = compile(|c| c.content.cq_only = true);
    let mut view = default_view();
    view.comment = Some("CQ JA");
    assert_eq!(evaluate(&view, &cfg), FilterDecision::Allow);
}

#[test]
fn cq_only_passes_skimmer_cq_flag() {
    let cfg = compile(|c| c.content.cq_only = true);
    let mut view = default_view();
    view.is_skimmer_cq = true;
    assert_eq!(evaluate(&view, &cfg), FilterDecision::Allow);
}

#[test]
fn split_suppressed() {
    let cfg = compile(|c| c.content.suppress_split_qsy = true);
    let mut view = default_view();
    view.comment = Some("UP 5");
    assert_eq!(
        evaluate(&view, &cfg),
        FilterDecision::Drop(FilterDropReason::SplitQsySuppressed)
    );
}

#[test]
fn comment_deny_drops() {
    let cfg = compile(|c| {
        c.content.comment_deny.regexes.push("(?i)test".into());
    });
    let mut view = default_view();
    view.comment = Some("TEST 599");
    assert_eq!(
        evaluate(&view, &cfg),
        FilterDecision::Drop(FilterDropReason::CommentDenied)
    );
}

// Correlation

#[test]
fn correlation_min_originators_drops() {
    let cfg = compile(|c| c.correlation.min_unique_originators = 3);
    let mut view = default_view();
    view.unique_originators = 2;
    assert_eq!(
        evaluate(&view, &cfg),
        FilterDecision::Drop(FilterDropReason::CorrelationNotMet)
    );
}

#[test]
fn correlation_min_sources_drops() {
    let cfg = compile(|c| c.correlation.min_unique_sources = 2);
    let mut view = default_view();
    view.unique_sources = 1;
    assert_eq!(
        evaluate(&view, &cfg),
        FilterDecision::Drop(FilterDropReason::CorrelationNotMet)
    );
}

#[test]
fn correlation_min_observations_drops() {
    let cfg = compile(|c| c.correlation.min_observations = 5);
    let mut view = default_view();
    view.total_observations_in_window = 3;
    assert_eq!(
        evaluate(&view, &cfg),
        FilterDecision::Drop(FilterDropReason::CorrelationNotMet)
    );
}

#[test]
fn correlation_human_only_originators() {
    let cfg = compile(|c| {
        c.correlation.min_unique_originators = 2;
        c.correlation.originators_human_only = true;
    });
    let mut view = default_view();
    view.unique_originators = 5; // plenty total
    view.unique_human_originators = 1; // but only 1 human
    assert_eq!(
        evaluate(&view, &cfg),
        FilterDecision::Drop(FilterDropReason::CorrelationNotMet)
    );
}

// Skimmer metrics

#[test]
fn skimmer_snr_out_of_range_drops() {
    let cfg = compile(|c| c.skimmer.snr_db = Some((10, 40)));
    let mut view = default_view();
    view.originator_kind = OriginatorKind::Skimmer;
    view.snr_db = Some(5); // below min
    assert_eq!(
        evaluate(&view, &cfg),
        FilterDecision::Drop(FilterDropReason::SkimmerMetricNotMet)
    );
}

#[test]
fn skimmer_snr_in_range_passes() {
    let cfg = compile(|c| c.skimmer.snr_db = Some((10, 40)));
    let mut view = default_view();
    view.originator_kind = OriginatorKind::Skimmer;
    view.snr_db = Some(20);
    assert_eq!(evaluate(&view, &cfg), FilterDecision::Allow);
}

#[test]
fn skimmer_wpm_out_of_range_drops() {
    let cfg = compile(|c| c.skimmer.wpm = Some((15, 45)));
    let mut view = default_view();
    view.originator_kind = OriginatorKind::Skimmer;
    view.wpm = Some(10); // below min
    assert_eq!(
        evaluate(&view, &cfg),
        FilterDecision::Drop(FilterDropReason::SkimmerMetricNotMet)
    );
}

#[test]
fn skimmer_dupe_dropped() {
    let cfg = compile(|c| c.skimmer.drop_dupes = true);
    let mut view = default_view();
    view.originator_kind = OriginatorKind::Skimmer;
    view.is_skimmer_dupe = true;
    assert_eq!(
        evaluate(&view, &cfg),
        FilterDecision::Drop(FilterDropReason::SkimmerMetricNotMet)
    );
}

#[test]
fn skimmer_require_cq_drops_non_cq() {
    let cfg = compile(|c| c.skimmer.require_cq = true);
    let mut view = default_view();
    view.originator_kind = OriginatorKind::Skimmer;
    view.is_skimmer_cq = false;
    assert_eq!(
        evaluate(&view, &cfg),
        FilterDecision::Drop(FilterDropReason::SkimmerMetricNotMet)
    );
}

#[test]
fn skimmer_metrics_not_applied_to_humans() {
    let cfg = compile(|c| {
        c.skimmer.snr_db = Some((10, 40));
        c.skimmer.require_cq = true;
        c.skimmer.drop_dupes = true;
    });
    // Human originator — skimmer metrics should not apply
    let view = default_view();
    assert_eq!(evaluate(&view, &cfg), FilterDecision::Allow);
}

// Geo: CQ zone (the critical fix)

#[test]
fn cq_zone_allow_passes() {
    let cfg = compile(|c| {
        c.geo.dx.cq_zone_allow.insert(5);
    });
    let mut view = default_view();
    view.dx_geo = GeoResolved {
        cq_zone: Some(5),
        ..Default::default()
    };
    assert_eq!(evaluate(&view, &cfg), FilterDecision::Allow);
}

#[test]
fn cq_zone_allow_drops_wrong_zone() {
    let cfg = compile(|c| {
        c.geo.dx.cq_zone_allow.insert(14);
    });
    let mut view = default_view();
    view.dx_geo = GeoResolved {
        cq_zone: Some(5),
        ..Default::default()
    };
    assert_eq!(
        evaluate(&view, &cfg),
        FilterDecision::Drop(FilterDropReason::GeoNotMet)
    );
}

#[test]
fn cq_zone_deny_drops() {
    let cfg = compile(|c| {
        c.geo.dx.cq_zone_deny.insert(5);
    });
    let mut view = default_view();
    view.dx_geo = GeoResolved {
        cq_zone: Some(5),
        ..Default::default()
    };
    assert_eq!(
        evaluate(&view, &cfg),
        FilterDecision::Drop(FilterDropReason::GeoNotMet)
    );
}

// Geo: ITU zone

#[test]
fn itu_zone_allow_drops_wrong_zone() {
    let cfg = compile(|c| {
        c.geo.dx.itu_zone_allow.insert(8);
    });
    let mut view = default_view();
    view.dx_geo = GeoResolved {
        itu_zone: Some(45),
        ..Default::default()
    };
    assert_eq!(
        evaluate(&view, &cfg),
        FilterDecision::Drop(FilterDropReason::GeoNotMet)
    );
}

// Geo: continent

#[test]
fn continent_allow_passes() {
    let cfg = compile(|c| {
        c.geo.dx.continent_allow.insert(Continent::EU);
    });
    let mut view = default_view();
    view.dx_geo = GeoResolved {
        continent: Some(Continent::EU),
        ..Default::default()
    };
    assert_eq!(evaluate(&view, &cfg), FilterDecision::Allow);
}

#[test]
fn continent_allow_drops_wrong() {
    let cfg = compile(|c| {
        c.geo.dx.continent_allow.insert(Continent::EU);
    });
    let mut view = default_view();
    view.dx_geo = GeoResolved {
        continent: Some(Continent::NA),
        ..Default::default()
    };
    assert_eq!(
        evaluate(&view, &cfg),
        FilterDecision::Drop(FilterDropReason::GeoNotMet)
    );
}

// UnknownFieldPolicy: Neutral with allowlist

#[test]
fn neutral_policy_drops_unknown_on_allowlist() {
    let cfg = compile(|c| {
        c.unknown_policy = UnknownFieldPolicy::Neutral;
        c.geo.dx.continent_allow.insert(Continent::EU);
    });
    // No geo data at all — Neutral should drop for allowlists
    let view = default_view();
    assert_eq!(
        evaluate(&view, &cfg),
        FilterDecision::Drop(FilterDropReason::UnknownFieldFailed)
    );
}

#[test]
fn neutral_policy_passes_unknown_on_denylist() {
    let cfg = compile(|c| {
        c.unknown_policy = UnknownFieldPolicy::Neutral;
        c.geo.dx.continent_deny.insert(Continent::EU);
    });
    // No geo data — Neutral should pass for denylists
    let view = default_view();
    assert_eq!(evaluate(&view, &cfg), FilterDecision::Allow);
}

#[test]
fn fail_open_passes_unknown_on_allowlist() {
    let cfg = compile(|c| {
        c.unknown_policy = UnknownFieldPolicy::FailOpen;
        c.geo.dx.continent_allow.insert(Continent::EU);
    });
    let view = default_view();
    assert_eq!(evaluate(&view, &cfg), FilterDecision::Allow);
}

#[test]
fn fail_closed_drops_unknown_on_denylist() {
    let cfg = compile(|c| {
        c.unknown_policy = UnknownFieldPolicy::FailClosed;
        c.geo.dx.continent_deny.insert(Continent::EU);
    });
    let view = default_view();
    assert_eq!(
        evaluate(&view, &cfg),
        FilterDecision::Drop(FilterDropReason::UnknownFieldFailed)
    );
}

// Enrichment

#[test]
fn lotw_require_true_passes() {
    let cfg = compile(|c| c.enrichment.lotw = TriState::RequireTrue);
    let mut view = default_view();
    view.lotw = Some(true);
    assert_eq!(evaluate(&view, &cfg), FilterDecision::Allow);
}

#[test]
fn lotw_require_true_drops_false() {
    let cfg = compile(|c| c.enrichment.lotw = TriState::RequireTrue);
    let mut view = default_view();
    view.lotw = Some(false);
    assert_eq!(
        evaluate(&view, &cfg),
        FilterDecision::Drop(FilterDropReason::EnrichmentNotMet)
    );
}

#[test]
fn membership_require_drops_missing() {
    let cfg = compile(|c| {
        c.enrichment
            .membership
            .push(MembershipRuleSerde::Require("FOC".into()));
    });
    let mut view = default_view();
    let memberships = ValueSet::new(); // empty
    view.memberships = Some(&memberships);
    assert_eq!(
        evaluate(&view, &cfg),
        FilterDecision::Drop(FilterDropReason::EnrichmentNotMet)
    );
}

#[test]
fn membership_require_passes() {
    let cfg = compile(|c| {
        c.enrichment
            .membership
            .push(MembershipRuleSerde::Require("FOC".into()));
    });
    let mut view = default_view();
    let mut memberships = ValueSet::new();
    memberships.insert("FOC".to_string());
    view.memberships = Some(&memberships);
    assert_eq!(evaluate(&view, &cfg), FilterDecision::Allow);
}

#[test]
fn membership_deny_drops_present() {
    let cfg = compile(|c| {
        c.enrichment
            .membership
            .push(MembershipRuleSerde::Deny("SPAM".into()));
    });
    let mut view = default_view();
    let mut memberships = ValueSet::new();
    memberships.insert("SPAM".to_string());
    view.memberships = Some(&memberships);
    assert_eq!(
        evaluate(&view, &cfg),
        FilterDecision::Drop(FilterDropReason::EnrichmentNotMet)
    );
}

// count_unique_originators helper

#[test]
fn count_unique_originators_all() {
    let list = vec![
        ("W1AW", OriginatorKind::Human),
        ("K1TTT", OriginatorKind::Skimmer),
        ("W1AW", OriginatorKind::Human), // duplicate
    ];
    assert_eq!(count_unique_originators(&list, false), 2);
}

#[test]
fn count_unique_originators_human_only() {
    let list = vec![
        ("W1AW", OriginatorKind::Human),
        ("K1TTT", OriginatorKind::Skimmer),
        ("VE3NEA", OriginatorKind::Human),
    ];
    assert_eq!(count_unique_originators(&list, true), 2);
}

// Combined: multiple filters

#[test]
fn combined_filters_all_pass() {
    let cfg = compile(|c| {
        c.rf.band_allow.insert(Band::B20);
        c.rf.mode_allow.insert(DxMode::CW);
        c.dx.allow.globs.push("W*".into());
        c.correlation.min_unique_originators = 1;
    });
    let view = default_view();
    assert_eq!(evaluate(&view, &cfg), FilterDecision::Allow);
}

#[test]
fn combined_filters_first_failure_reported() {
    let cfg = compile(|c| {
        c.rf.band_deny.insert(Band::B20); // will fail first
        c.dx.deny.globs.push("W*".into()); // would also fail
    });
    // Band check comes before DX call check in evaluation order
    assert_eq!(
        evaluate(&default_view(), &cfg),
        FilterDecision::Drop(FilterDropReason::BandDenied)
    );
}
