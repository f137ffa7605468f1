//! Laws of the library on concrete values, and cases at the edge.

use dxfeed::aggregator::pipeline::{
    Aggregator, AggregatorConfig, EnrichmentLookup, EntityLookup, IncomingObservation, Lookups,
};
use dxfeed::aggregator::spot_table::CallBandModeKey;
use dxfeed::callsign::{base_callsign, normalize_callsign};
use dxfeed::domain::{
    Band, Continent, DxMode, ModePolicy, OriginatorKind, PortablePolicy, TriState,
    UnknownFieldPolicy,
};
use dxfeed::filter::compiled::FilterConfig;
use dxfeed::filter::config::{
    CallsignNormalizationSerde, FilterConfigSerde, MembershipRuleSerde,
};
use dxfeed::filter::decision::{FilterDecision, FilterDropReason};
use dxfeed::filter::error::FilterConfigError;
use dxfeed::filter::evaluate::{
    eval_enrichment, eval_entity, eval_lists, eval_tristate, evaluate, evaluate_with_hits, pattern_hits,
    unknown_to_decision, GridHits,
};
use dxfeed::filter::pattern::regex_with_case;
use dxfeed::freq::{band_edges, freq_bucket, freq_to_band, freq_to_mode, resolve_mode};
use dxfeed::model::{DxEvent, GeoResolved, SkimQualityTag, SourceId, SpotEventKind, SpotView};
use dxfeed::parser::spot::{
    parse_freq_to_hz, parse_hhmm, parse_line, parse_skimmer_comment, try_parse_dx_spot,
    ParsedLine, ParsedSpot,
};
use dxfeed::resolver::cty::{parse_continent, parse_header, CtyParseError, CtyResolver};
use dxfeed::resolver::entity::{EntityInfo, EntityResolver};
use dxfeed::sets::ValueSet;
use dxfeed::skimmer::config::SkimmerQualityConfig;
use dxfeed::skimmer::quality::{levenshtein, SkimmerQualityEngine};
use dxfeed::source::iac::strip_iac;
use dxfeed::time::{Duration, Timestamp, UtcTime};

const BANDS: [Band; 12] = [
    Band::B160,
    Band::B80,
    Band::B60,
    Band::B40,
    Band::B30,
    Band::B20,
    Band::B17,
    Band::B15,
    Band::B12,
    Band::B10,
    Band::B6,
    Band::B2,
];

fn now() -> Timestamp {
    Timestamp::from_secs(1_700_000_000)
}

fn at(secs: i64) -> Timestamp {
    now().plus_secs(secs).unwrap()
}

fn compiled(f: impl FnOnce(&mut FilterConfigSerde)) -> FilterConfig {
    let mut cfg = FilterConfigSerde::default();
    f(&mut cfg);
    cfg.validate_and_compile().unwrap()
}

fn refused(f: impl FnOnce(&mut FilterConfigSerde)) -> FilterConfigError {
    let mut cfg = FilterConfigSerde::default();
    f(&mut cfg);
    match cfg.validate_and_compile() {
        Ok(_) => panic!("expected an error"),
        Err(e) => e,
    }
}

fn view() -> SpotView<'static> {
    SpotView::test_default(now(), "W1AW", 14_025_000, Band::B20, DxMode::CW)
}

fn obs(call: &str, spotter: &str, freq_hz: u64, time: Timestamp) -> IncomingObservation {
    IncomingObservation {
        parsed: ParsedSpot {
            spotter_call: spotter.into(),
            dx_call: call.into(),
            freq_hz,
            comment: None,
            utc_time: None,
        },
        source_id: SourceId("src".into()),
        originator_kind: OriginatorKind::Human,
        received_at: time,
        skimmer_fields: None,
    }
}

fn kinds(events: &[DxEvent]) -> Vec<(SpotEventKind, String, u32)> {
    events
        .iter()
        .map(|e| match e {
            DxEvent::Spot(s) => (s.kind, s.spot.dx_call.clone(), s.revision),
            _ => panic!("expected a spot event"),
        })
        .collect()
}

fn aggregator(config: AggregatorConfig) -> Aggregator {
    Aggregator::new(compiled(|_| {}), None, config, None, None)
}

// Frequencies

#[test]
fn band_edges_agree_with_bands() {
    for band in BANDS {
        let (lo, hi) = band_edges(band).unwrap();
        assert_eq!(freq_to_band(lo), band);
        assert_eq!(freq_to_band(hi), band);
        assert_eq!(freq_to_band(lo - 1), Band::Unknown);
        assert_eq!(freq_to_band(hi + 1), Band::Unknown);
        assert_ne!(freq_to_mode(lo), DxMode::Unknown);
        assert_ne!(freq_to_mode(hi), DxMode::Unknown);
        assert_eq!(freq_to_mode(hi + 1), DxMode::Unknown);
    }
}

#[test]
fn band_plan_limits() {
    assert_eq!(freq_to_mode(1_843_000), DxMode::CW);
    assert_eq!(freq_to_mode(1_843_001), DxMode::SSB);
    assert_eq!(freq_to_mode(5_300_000), DxMode::DIG);
    assert_eq!(freq_to_mode(10_130_001), DxMode::DIG);
    assert_eq!(freq_to_mode(14_070_000), DxMode::CW);
    assert_eq!(freq_to_mode(14_070_001), DxMode::DIG);
    assert_eq!(freq_to_mode(14_099_001), DxMode::SSB);
    assert_eq!(freq_to_mode(50_100_001), DxMode::SSB);
    assert_eq!(freq_to_mode(50_500_001), DxMode::DIG);
    assert_eq!(freq_to_mode(144_400_001), DxMode::DIG);
    assert_eq!(
        resolve_mode(14_025_000, Some(DxMode::Unknown), ModePolicy::TrustUpstream),
        DxMode::Unknown
    );
}

#[test]
fn buckets_are_floors() {
    for mode in [DxMode::CW, DxMode::SSB, DxMode::DIG, DxMode::AM, DxMode::FM, DxMode::Unknown] {
        let b = freq_bucket(14_074_987, mode, 10, 1000, 100);
        assert_eq!(freq_bucket(b, mode, 10, 1000, 100), b);
        assert!(b <= 14_074_987);
    }
    assert_eq!(freq_bucket(14_074_987, DxMode::FM, 10, 1000, 100), 14_074_000);
    assert_eq!(freq_bucket(u64::MAX, DxMode::CW, u64::MAX, 1, 1), u64::MAX);
}

// Callsigns

#[test]
fn normalization_is_idempotent_when_keeping_designators() {
    let policy = CallsignNormalizationSerde {
        uppercase: true,
        portable_policy: PortablePolicy::KeepAsIs,
        strip_non_alnum: true,
    };
    let once = normalize_callsign("ea8/w1-aw/p", &policy);
    assert_eq!(once, "EA8/W1AW/P");
    assert_eq!(normalize_callsign(&once, &policy), once);
}

#[test]
fn longest_segment_with_a_digit_is_the_base() {
    assert_eq!(base_callsign("EA8/DL1ABC/P"), "DL1ABC");
    // Of two longest, the last
    assert_eq!(base_callsign("AB1/CD2"), "CD2");
    assert_eq!(base_callsign("//7"), "7");
    // Length counts bytes
    assert_eq!(base_callsign("1\u{e9}\u{e9}/1ABC"), "1\u{e9}\u{e9}");
}

// Lines

#[test]
fn spot_lines_say_what_was_put_in() {
    let spot = try_parse_dx_spot("DX de W3LPL: 14025.25 JA1ABC  up 2   1830Z").unwrap();
    assert_eq!(spot.spotter_call, "W3LPL");
    assert_eq!(spot.dx_call, "JA1ABC");
    assert_eq!(spot.freq_hz, 14_025_250);
    assert_eq!(spot.comment.as_deref(), Some("up 2"));
    assert_eq!(spot.utc_time, Some(UtcTime { hour: 18, minute: 30 }));
    assert!(matches!(parse_line("dx DE W3LPL: 14025 JA1ABC\r\n"), ParsedLine::Spot(_)));
}

#[test]
fn blanks_around_the_frequency_do_not_count() {
    let narrow = try_parse_dx_spot("DX de W3LPL:14025.0 JA1ABC CQ 1830Z").unwrap();
    let wide = try_parse_dx_spot("DX de W3LPL:     14025.0 \t  JA1ABC  CQ      1830Z").unwrap();
    assert_eq!(narrow, wide);
    assert_eq!(wide.dx_call, "JA1ABC");
    assert_eq!(wide.freq_hz, 14_025_000);
    assert_eq!(wide.comment.as_deref(), Some("CQ"));
    assert_eq!(wide.utc_time, UtcTime::from_hm(18, 30));
}

#[test]
fn the_comment_follows_the_callsign() {
    let spot = try_parse_dx_spot("DX de A:1.0 1 CQ").unwrap();
    assert_eq!(
        spot,
        ParsedSpot {
            spotter_call: "A".into(),
            dx_call: "1".into(),
            freq_hz: 1_000,
            comment: Some("CQ".into()),
            utc_time: None,
        }
    );
    let spot = try_parse_dx_spot("DX de A: 14025.0 140 up 1 1830Z").unwrap();
    assert_eq!(spot.dx_call, "140");
    assert_eq!(spot.comment.as_deref(), Some("up 1"));
    assert_eq!(spot.utc_time, UtcTime::from_hm(18, 30));
}

#[test]
fn odd_lines_are_no_spots() {
    for line in [
        "DX de :  14025.0 JA1ABC",
        "DX de W1AW 14025.0 JA1ABC",
        "DX de W1AW: 99999999999999999999.0 JA1ABC",
        "DX de W1AW: 18446744073709552.0 JA1ABC",
        "DX d\u{e9} W1AW: 14025.0 JA1ABC",
    ] {
        assert!(try_parse_dx_spot(line).is_none(), "{line}");
    }
    // Characters that a byte index would cut apart
    let spot = try_parse_dx_spot("DX de W1AW: 14025.0 JA1ABC \u{e9}\u{e9}\u{e9}\u{e9}z").unwrap();
    assert_eq!(spot.comment.as_deref(), Some("\u{e9}\u{e9}\u{e9}\u{e9}z"));
    assert!(spot.utc_time.is_none());
}

#[test]
fn frequencies_are_read_to_the_hz() {
    assert_eq!(parse_freq_to_hz("14025.1"), Some(14_025_100));
    assert_eq!(parse_freq_to_hz("14025.12"), Some(14_025_120));
    assert_eq!(parse_freq_to_hz("14025.123"), Some(14_025_123));
    assert_eq!(parse_freq_to_hz("14025.1239"), Some(14_025_123));
    assert_eq!(parse_freq_to_hz(".5"), Some(500));
    assert_eq!(parse_freq_to_hz("<14025>"), Some(14_025_000));
    assert_eq!(parse_freq_to_hz("14.02x"), Some(14_020));
    assert_eq!(parse_freq_to_hz("1.2.3"), None);
    assert_eq!(parse_freq_to_hz("18446744073709551.615"), Some(u64::MAX));
    assert_eq!(parse_freq_to_hz("18446744073709551.616"), None);
}

#[test]
fn times_need_four_digits_in_range() {
    assert_eq!(parse_hhmm("2359"), Some(UtcTime { hour: 23, minute: 59 }));
    assert_eq!(parse_hhmm("2400"), None);
    assert_eq!(parse_hhmm("1260"), None);
    assert_eq!(parse_hhmm("12 0"), None);
    assert_eq!(parse_hhmm("123"), None);
}

#[test]
fn the_last_metric_counts() {
    let f = parse_skimmer_comment("5 db 300 dB -7 DB 20 wpm 70000 WPM cq");
    assert_eq!(f.snr_db, Some(-7));
    assert_eq!(f.wpm, Some(20));
    assert!(f.is_cq);
}

#[test]
fn prompts_and_announcements() {
    assert!(matches!(parse_line("W1AW de NODE >"), ParsedLine::Prompt(_)));
    assert!(matches!(
        parse_line("a line that is long enough to be none >"),
        ParsedLine::Unknown(_)
    ));
    assert!(matches!(parse_line("To ALL de K1TTT: hi"), ParsedLine::Announce(_)));
    assert!(matches!(parse_line("To ALL: hi"), ParsedLine::Unknown(_)));
    assert!(matches!(parse_line("WCY de DK0WCY-1 <18> : K=3"), ParsedLine::Propagation(_)));
    assert!(matches!(parse_line(" \t\r\n"), ParsedLine::Unknown(s) if s.is_empty()));
}

// Filters

#[test]
fn deny_comes_before_allow() {
    let cfg = compiled(|c| {
        c.rf.band_allow.insert(Band::B20);
        c.rf.band_deny.insert(Band::B20);
    });
    assert_eq!(
        evaluate(&view(), &cfg),
        FilterDecision::Drop(FilterDropReason::BandDenied)
    );
    assert_eq!(
        eval_lists(
            Some((true, true)),
            true,
            true,
            UnknownFieldPolicy::FailOpen,
            FilterDropReason::DxCallDenied,
            FilterDropReason::DxCallNotAllowed,
        ),
        FilterDecision::Drop(FilterDropReason::DxCallDenied)
    );
}

#[test]
fn unknown_fields_go_by_policy() {
    let unknown = FilterDecision::Drop(FilterDropReason::UnknownFieldFailed);
    assert_eq!(unknown_to_decision(UnknownFieldPolicy::Neutral, true), unknown);
    assert_eq!(unknown_to_decision(UnknownFieldPolicy::Neutral, false), FilterDecision::Allow);
    assert_eq!(unknown_to_decision(UnknownFieldPolicy::FailClosed, false), unknown);
    assert_eq!(unknown_to_decision(UnknownFieldPolicy::FailOpen, true), FilterDecision::Allow);
    for (policy, allow, deny) in [
        (UnknownFieldPolicy::Neutral, unknown, FilterDecision::Allow),
        (UnknownFieldPolicy::FailClosed, unknown, unknown),
        (UnknownFieldPolicy::FailOpen, FilterDecision::Allow, FilterDecision::Allow),
    ] {
        // The spotter of this view is not known
        let cfg = compiled(|c| {
            c.unknown_policy = policy;
            c.spotter.callsign.allow.globs.push("W*".into());
        });
        assert_eq!(evaluate(&view(), &cfg), allow);
        let cfg = compiled(|c| {
            c.unknown_policy = policy;
            c.spotter.source_allow.insert("src".into());
        });
        assert_eq!(evaluate(&view(), &cfg), allow);
        let cfg = compiled(|c| {
            c.unknown_policy = policy;
            c.spotter.source_deny.insert("src".into());
        });
        assert_eq!(evaluate(&view(), &cfg), deny);
        let cfg = compiled(|c| {
            c.unknown_policy = policy;
            c.geo.dx.state_deny.insert("CT".into());
        });
        assert_eq!(evaluate(&view(), &cfg), deny);
    }
}

#[test]
fn policies_are_ordered_over_an_evaluation() {
    let unknown = FilterDecision::Drop(FilterDropReason::UnknownFieldFailed);
    let under = |policy: UnknownFieldPolicy, allow: bool| {
        let cfg = compiled(|c| {
            c.unknown_policy = policy;
            c.geo.dx.continent_deny.insert(Continent::EU);
            if allow {
                c.enrichment.lotw = TriState::RequireTrue;
            }
        });
        evaluate(&view(), &cfg)
    };
    assert_eq!(under(UnknownFieldPolicy::FailClosed, false), unknown);
    assert_eq!(under(UnknownFieldPolicy::Neutral, false), FilterDecision::Allow);
    assert_eq!(under(UnknownFieldPolicy::FailOpen, false), FilterDecision::Allow);
    assert_eq!(under(UnknownFieldPolicy::Neutral, true), unknown);
    assert_eq!(under(UnknownFieldPolicy::FailOpen, true), FilterDecision::Allow);
}

#[test]
fn tristates() {
    let no = FilterDecision::Drop(FilterDropReason::EnrichmentNotMet);
    let p = UnknownFieldPolicy::Neutral;
    assert_eq!(eval_tristate(None, TriState::Any, p), FilterDecision::Allow);
    assert_eq!(eval_tristate(Some(true), TriState::RequireFalse, p), no);
    assert_eq!(eval_tristate(Some(false), TriState::RequireFalse, p), FilterDecision::Allow);
    assert_eq!(
        eval_tristate(None, TriState::RequireFalse, p),
        FilterDecision::Drop(FilterDropReason::UnknownFieldFailed)
    );
}

#[test]
fn unknown_memberships_pass_a_denylist() {
    let deny = || MembershipRuleSerde::Deny("SPAM".into());
    let require = || MembershipRuleSerde::Require("FOC".into());
    let dropped = FilterDecision::Drop(FilterDropReason::UnknownFieldFailed);
    for (rules, policy, expected) in [
        (vec![deny()], UnknownFieldPolicy::Neutral, FilterDecision::Allow),
        (vec![deny(), require()], UnknownFieldPolicy::Neutral, dropped),
        (vec![require()], UnknownFieldPolicy::Neutral, dropped),
        (vec![deny()], UnknownFieldPolicy::FailClosed, dropped),
        (vec![require()], UnknownFieldPolicy::FailOpen, FilterDecision::Allow),
    ] {
        let cfg = compiled(|c| {
            c.enrichment.membership = rules;
            c.unknown_policy = policy;
        });
        assert_eq!(eval_enrichment(&view(), &cfg), expected);
        assert_eq!(evaluate(&view(), &cfg), expected);
    }
}

#[test]
fn a_missing_comment_fails_the_allowlist_where_one_is_required() {
    for (required, expected) in [
        (true, FilterDecision::Drop(FilterDropReason::CommentNotAllowed)),
        (false, FilterDecision::Allow),
    ] {
        let cfg = compiled(|c| {
            c.content.comment_allow.globs.push("CQ*".into());
            c.content.require_comment_when_allowlist_present = required;
        });
        assert_eq!(evaluate(&view(), &cfg), expected);
        let mut other = view();
        other.comment = Some("TEST");
        assert_eq!(
            evaluate(&other, &cfg),
            FilterDecision::Drop(FilterDropReason::CommentNotAllowed)
        );
    }
}

#[test]
fn split_and_cq_words_are_found_whole() {
    let cfg = compiled(|c| c.content.suppress_split_qsy = true);
    for (comment, dropped) in [("up 1", true), ("UPSTATE", false), ("QsX 14210", true)] {
        let mut v = view();
        v.comment = Some(comment);
        assert_eq!(
            evaluate(&v, &cfg)
                == FilterDecision::Drop(FilterDropReason::SplitQsySuppressed),
            dropped
        );
    }
    let cfg = compiled(|c| c.content.cq_only = true);
    let mut v = view();
    v.comment = Some("cqww");
    assert_eq!(evaluate(&v, &cfg), FilterDecision::Drop(FilterDropReason::CqRequired));
    v.comment = Some("test cq");
    assert_eq!(evaluate(&v, &cfg), FilterDecision::Allow);
}

#[test]
fn hits_decide() {
    let cfg = compiled(|c| c.dx.deny.globs.push("K*".into()));
    let mut hits = pattern_hits(&view(), &cfg);
    assert!(!hits.dx_deny);
    assert_eq!(evaluate_with_hits(&view(), &cfg, &hits), FilterDecision::Allow);
    hits.dx_deny = true;
    assert_eq!(
        evaluate_with_hits(&view(), &cfg, &hits),
        FilterDecision::Drop(FilterDropReason::DxCallDenied)
    );
}

#[test]
fn grids_go_by_their_hits() {
    let cfg = compiled(|c| {
        c.geo.dx.grid_allow.globs.push("FN*".into());
        c.geo.dx.grid_deny.globs.push("FN31*".into());
    });
    let mut v = view();
    v.dx_geo = GeoResolved { grid: Some("FN42"), ..Default::default() };
    assert_eq!(evaluate(&v, &cfg), FilterDecision::Allow);
    v.dx_geo = GeoResolved { grid: Some("FN31pr"), ..Default::default() };
    assert_eq!(evaluate(&v, &cfg), FilterDecision::Drop(FilterDropReason::GeoNotMet));
    assert_eq!(
        eval_entity(
            &v.dx_geo,
            &cfg.geo.dx,
            UnknownFieldPolicy::Neutral,
            GridHits { deny: false, allow: true },
        ),
        FilterDecision::Allow
    );
}

#[test]
fn required_resolvers_need_an_entity() {
    let cfg = compiled(|c| c.geo.require_resolvers = true);
    assert_eq!(
        evaluate(&view(), &cfg),
        FilterDecision::Drop(FilterDropReason::UnknownFieldFailed)
    );
    let mut v = view();
    v.dx_geo = GeoResolved { entity: Some("Japan"), ..Default::default() };
    assert_eq!(evaluate(&v, &cfg), FilterDecision::Allow);
}

#[test]
fn age_is_exact() {
    let cfg = compiled(|c| c.max_age_secs = 60);
    let mut v = view();
    v.last_seen = at(-60);
    assert_eq!(evaluate(&v, &cfg), FilterDecision::Allow);
    v.now = Timestamp::new(now().secs(), 1).unwrap();
    assert_eq!(evaluate(&v, &cfg), FilterDecision::Drop(FilterDropReason::TooOld));
    v.last_seen = at(1000);
    assert_eq!(evaluate(&v, &cfg), FilterDecision::Allow);
}

#[test]
fn unknown_metrics_pass_unless_closed() {
    for (policy, expected) in [
        (UnknownFieldPolicy::Neutral, FilterDecision::Allow),
        (UnknownFieldPolicy::FailOpen, FilterDecision::Allow),
        (
            UnknownFieldPolicy::FailClosed,
            FilterDecision::Drop(FilterDropReason::UnknownFieldFailed),
        ),
    ] {
        let cfg = compiled(|c| {
            c.unknown_policy = policy;
            c.skimmer.wpm = Some((30, 20));
        });
        let mut v = view();
        v.originator_kind = OriginatorKind::Skimmer;
        assert_eq!(evaluate(&v, &cfg), expected);
        v.wpm = Some(25);
        assert_eq!(evaluate(&v, &cfg), FilterDecision::Allow);
        v.wpm = Some(31);
        assert_eq!(
            evaluate(&v, &cfg),
            FilterDecision::Drop(FilterDropReason::SkimmerMetricNotMet)
        );
    }
}

#[test]
fn configuration_errors_come_in_order() {
    assert_eq!(
        refused(|c| {
            c.max_age_secs = 0;
            c.freq_sanity_hz = Some((2, 1));
        }),
        FilterConfigError::MaxAgeZero
    );
    assert_eq!(
        refused(|c| {
            c.rf.freq_allow_hz.push((5, 4));
            c.rf.freq_deny_hz.push((3, 2));
        }),
        FilterConfigError::InvalidFreqRange(5, 4)
    );
    assert_eq!(
        refused(|c| {
            c.dx.allow.globs.push("ok*".into());
            c.dx.allow.globs.push("a{b".into());
            c.dx.deny.globs.push("[".into());
        }),
        FilterConfigError::InvalidGlob("a{b".into())
    );
    let e = refused(|c| c.content.comment_deny.regexes.push("(".into()));
    assert!(matches!(&e, FilterConfigError::InvalidRegex(m) if !m.is_empty() && m != "("));
    assert_eq!(
        FilterConfigError::InvalidFreqRange(5, 4).message(),
        "invalid frequency range: 5..4"
    );
}

#[test]
fn case_is_ignored_where_asked() {
    assert_eq!(regex_with_case("^JA", true), "(?i:^JA)");
    assert_eq!(regex_with_case("^JA", false), "^JA");
    for (insensitive, expected) in [(true, FilterDecision::Allow), (
        false,
        FilterDecision::Drop(FilterDropReason::DxCallNotAllowed),
    )] {
        let cfg = compiled(|c| {
            c.dx.allow.regexes.push("^w1".into());
            c.dx.allow.globs.push("w1*".into());
            c.dx.allow.case_insensitive = insensitive;
        });
        assert_eq!(evaluate(&view(), &cfg), expected);
    }
}

#[test]
fn callsigns_are_normalized_before_matching() {
    let rule = |normalization: CallsignNormalizationSerde| {
        compiled(|c| {
            c.dx.allow.globs.push("W1AW".into());
            c.dx.normalization = normalization;
            c.spotter.callsign.deny.globs.push("K1TTT".into());
            c.spotter.callsign.normalization = normalization;
        })
    };
    let kept = CallsignNormalizationSerde::default();
    let stripped = CallsignNormalizationSerde {
        portable_policy: PortablePolicy::StripCommonSuffixes,
        ..CallsignNormalizationSerde::default()
    };
    let mut portable = view();
    portable.dx_call_norm = "w1aw/p";
    assert_eq!(
        evaluate(&portable, &rule(kept)),
        FilterDecision::Drop(FilterDropReason::DxCallNotAllowed)
    );
    assert_eq!(evaluate(&portable, &rule(stripped)), FilterDecision::Allow);
    portable.spotter_call_norm = Some("K1TTT/M");
    assert_eq!(
        evaluate(&portable, &rule(stripped)),
        FilterDecision::Drop(FilterDropReason::SpotterDenied)
    );
}

#[test]
fn places_bind() {
    let cfg = compiled(|c| {
        c.geo.spotter.continent_deny.insert(Continent::EU);
        c.geo.require_resolvers = true;
        c.unknown_policy = UnknownFieldPolicy::FailOpen;
    });
    // Required entity data is missing, and unknown fields pass
    let mut spot = view();
    assert_eq!(evaluate(&spot, &cfg), FilterDecision::Allow);
    spot.spotter_geo.continent = Some(Continent::EU);
    assert_eq!(evaluate(&spot, &cfg), FilterDecision::Drop(FilterDropReason::GeoNotMet));
    spot.dx_geo.entity = Some("Japan");
    assert_eq!(evaluate(&spot, &cfg), FilterDecision::Drop(FilterDropReason::GeoNotMet));
}

// Skimmers

#[test]
fn edit_distance_is_a_metric() {
    let calls = ["W1AW", "W1AX", "K1AW", "W1A", "", "JA1ABC"];
    for a in calls {
        for b in calls {
            let d = levenshtein(a, b);
            assert_eq!(d, levenshtein(b, a));
            assert_eq!(d == 0, a == b);
            assert!(d <= a.len().max(b.len()));
            assert!(d >= a.len().abs_diff(b.len()));
            for c in calls {
                assert!(levenshtein(a, c) <= d + levenshtein(b, c));
            }
        }
    }
    assert_eq!(levenshtein("kitten", "sitting"), 3);
    // Bytes, not characters
    assert_eq!(levenshtein("e", "\u{e9}"), 2);
}

#[test]
fn one_skimmer_counts_once() {
    let mut engine = SkimmerQualityEngine::new(SkimmerQualityConfig::default());
    for _ in 0..5 {
        engine.record_observation("JA1ABC", 14_025_000, "W3LPL-2", now());
    }
    let (tag, detail) = engine.compute_tag_with_detail("JA1ABC", 14_025_000, now());
    assert_eq!(tag, SkimQualityTag::Unknown);
    assert_eq!(detail.corroborating_skimmers, 1);
    assert!(!engine.should_emit(tag, OriginatorKind::Skimmer));
    assert!(engine.should_emit(tag, OriginatorKind::Human));
}

#[test]
fn verified_calls_stay_valid_until_they_expire() {
    let mut engine = SkimmerQualityEngine::new(SkimmerQualityConfig::default());
    for (call, skimmer) in [("A1", "S1"), ("A1", "S2"), ("A1", "S3")] {
        engine.record_observation(call, 14_025_000, skimmer, now());
    }
    assert_eq!(engine.compute_tag("A1", 14_025_000, now()), SkimQualityTag::Valid);
    assert_eq!(engine.compute_tag("A1", 14_025_000, now()), SkimQualityTag::Valid);
    // Observations expire after the lookback window, verified calls after two
    engine.evict_expired(at(181));
    assert_eq!(engine.total_observations(), 0);
    assert_eq!(engine.compute_tag("A2", 14_025_000, at(181)), SkimQualityTag::Busted);
    engine.evict_expired(at(361));
    assert_eq!(engine.compute_tag("A2", 14_025_000, at(361)), SkimQualityTag::Unknown);
}

#[test]
fn tracked_observations_are_capped() {
    let mut engine = SkimmerQualityEngine::new(SkimmerQualityConfig {
        max_tracked_observations: 2,
        ..SkimmerQualityConfig::default()
    });
    engine.record_observation("A1", 14_025_000, "S1", at(2));
    engine.record_observation("B1", 14_025_000, "S1", at(1));
    engine.record_observation("C1", 14_025_000, "S1", at(3));
    assert_eq!(engine.total_observations(), 2);
    // The call with the oldest first observation was forgotten
    let (_, b) = engine.compute_tag_with_detail("B1", 14_025_000, at(3));
    assert_eq!(b.corroborating_skimmers, 0);
    let (_, a) = engine.compute_tag_with_detail("A1", 14_025_000, at(3));
    assert_eq!(a.corroborating_skimmers, 1);
}

// Aggregation

#[test]
fn a_full_table_withdraws_the_oldest() {
    let mut agg = aggregator(AggregatorConfig { max_spots: 2, ..AggregatorConfig::default() });
    assert_eq!(agg.process_observation(obs("A1A", "W1AW", 14_010_000, at(1))).len(), 1);
    assert_eq!(agg.process_observation(obs("B1B", "W1AW", 14_020_000, at(0))).len(), 1);
    let events = agg.process_observation(obs("C1C", "W1AW", 14_030_000, at(2)));
    assert_eq!(
        kinds(&events),
        vec![
            (SpotEventKind::Withdraw, "B1B".into(), 1),
            (SpotEventKind::New, "C1C".into(), 1),
        ]
    );
    assert_eq!(agg.spot_table().len(), 2);
    // A known spot displaces nothing
    assert!(agg.process_observation(obs("C1C", "K1TTT", 14_030_000, at(3))).is_empty());
}

#[test]
fn spots_expire_to_the_nanosecond() {
    let ttl = AggregatorConfig::default().spot_ttl.as_secs() as i64;
    let mut agg = aggregator(AggregatorConfig::default());
    agg.process_observation(obs("JA1ABC", "W1AW", 14_025_000, now()));
    assert!(agg.tick(at(ttl)).is_empty());
    let later = Timestamp::new(at(ttl).secs(), 1).unwrap();
    assert_eq!(kinds(&agg.tick(later)), vec![(SpotEventKind::Withdraw, "JA1ABC".into(), 1)]);
}

#[test]
fn skimmer_reports_expire_to_the_nanosecond() {
    let mut engine = SkimmerQualityEngine::new(SkimmerQualityConfig::default());
    for skimmer in ["A-1", "B-1", "C-1"] {
        engine.record_observation("JA1ABC", 14_025_000, skimmer, now());
    }
    let later = Timestamp::new(at(180).secs(), 1).unwrap();
    assert_eq!(engine.compute_tag("JA1ABC", 14_025_000, later), SkimQualityTag::Unknown);
    assert_eq!(engine.compute_tag("JA1ABC", 14_025_000, at(180)), SkimQualityTag::Valid);
}

#[test]
fn revisions_count_observations() {
    let mut config = AggregatorConfig::default();
    config.dedupe.emit_updates = true;
    let mut agg = aggregator(config);
    let seen = obs("JA1ABC", "W1AW", 14_025_000, now());
    assert_eq!(
        kinds(&agg.process_observation(seen)),
        vec![(SpotEventKind::New, "JA1ABC".into(), 1)]
    );
    // An observation that is dropped counts too
    agg.update_filter(compiled(|c| {
        c.rf.band_deny.insert(Band::B20);
    }));
    assert!(agg.process_observation(obs("JA1ABC", "W1AW", 14_025_000, at(1))).is_empty());
    agg.update_filter(compiled(|_| {}));
    let seen = obs("JA1ABC", "W1AW", 14_025_000, at(2));
    assert_eq!(
        kinds(&agg.process_observation(seen)),
        vec![(SpotEventKind::Update, "JA1ABC".into(), 3)]
    );
    assert_eq!(kinds(&agg.tick(at(1000))), vec![(SpotEventKind::Withdraw, "JA1ABC".into(), 3)]);
    // The count starts over when the spot enters the table again
    let seen = obs("JA1ABC", "W1AW", 14_025_000, at(1001));
    assert_eq!(
        kinds(&agg.process_observation(seen)),
        vec![(SpotEventKind::New, "JA1ABC".into(), 1)]
    );
}

#[test]
fn a_suppressed_update_does_not_restart_the_cooldown() {
    let mut config = AggregatorConfig::default();
    config.dedupe.emit_updates = true;
    config.dedupe.min_update_interval = Some(Duration::from_secs(10));
    let mut agg = aggregator(config);
    let mut emitted = Vec::new();
    for secs in [0, 6, 9, 10, 19, 20] {
        let seen = obs("JA1ABC", "W1AW", 14_025_000, at(secs));
        if !agg.process_observation(seen).is_empty() {
            emitted.push(secs);
        }
    }
    assert_eq!(emitted, vec![0, 10, 20]);
}

#[test]
fn events_are_orderly() {
    let mut config = AggregatorConfig::default();
    config.dedupe.emit_updates = true;
    config.spot_ttl = Duration::from_secs(60);
    let mut agg = aggregator(config);
    let mut seen = Vec::new();
    seen.extend(kinds(&agg.process_observation(obs("A1A", "W1AW", 14_010_000, at(0)))));
    seen.extend(kinds(&agg.process_observation(obs("A1A", "K1TTT", 14_010_000, at(1)))));
    seen.extend(kinds(&agg.process_observation(obs("A1A", "W1AW", 14_020_000, at(2)))));
    seen.extend(kinds(&agg.tick(at(62))));
    seen.extend(kinds(&agg.tick(at(63))));
    seen.extend(kinds(&agg.process_observation(obs("A1A", "W1AW", 14_020_000, at(70)))));
    let a = || "A1A".to_string();
    assert_eq!(
        seen,
        vec![
            (SpotEventKind::New, a(), 1),
            (SpotEventKind::Update, a(), 2),
            (SpotEventKind::Withdraw, a(), 2),
            (SpotEventKind::New, a(), 1),
            (SpotEventKind::Withdraw, a(), 1),
            (SpotEventKind::New, a(), 1),
        ]
    );
}

#[test]
fn observations_count_within_the_window() {
    let filter = compiled(|c| c.correlation.min_observations = 2);
    let mut agg = Aggregator::new(filter, None, AggregatorConfig::default(), None, None);
    assert!(agg.process_observation(obs("A1A", "W1AW", 14_010_000, at(0))).is_empty());
    // The first observation has left the window of three minutes
    assert!(agg.process_observation(obs("A1A", "K1TTT", 14_010_000, at(181))).is_empty());
    let events = agg.process_observation(obs("A1A", "N1MM", 14_010_000, at(200)));
    assert_eq!(kinds(&events), vec![(SpotEventKind::New, "A1A".into(), 3)]);
}

#[test]
fn lookups_reach_the_filter() {
    let filter = compiled(|c| {
        c.geo.dx.continent_allow.insert(Continent::AS);
        c.enrichment.lotw = TriState::RequireTrue;
    });
    let mut agg = Aggregator::new(filter, None, AggregatorConfig::default(), None, None);
    let japan = || EntityInfo {
        entity_name: "Japan".into(),
        continent: Continent::AS,
        cq_zone: 25,
        itu_zone: 45,
        lat: "35.68".into(),
        lon: "139.68".into(),
        primary_prefix: "JA".into(),
    };
    let none = agg.process_resolved(
        obs("JA1ABC", "W1AW", 14_010_000, at(0)),
        Lookups { entity: None, enrichment: None },
    );
    assert!(none.is_empty());
    let mut memberships = ValueSet::new();
    memberships.insert("FOC".to_string());
    let events = agg.process_resolved(
        obs("JA1ABC", "W1AW", 14_010_000, at(1)),
        Lookups {
            entity: Some(EntityLookup { dx: Some(japan()), spotter: None }),
            enrichment: Some(EnrichmentLookup {
                lotw: Some(true),
                in_master_db: None,
                in_callbook: None,
                memberships: Some(memberships),
            }),
        },
    );
    assert_eq!(kinds(&events), vec![(SpotEventKind::New, "JA1ABC".into(), 2)]);
    let key = match &events[0] {
        DxEvent::Spot(e) => e.spot.spot_key.clone(),
        _ => panic!("expected a spot event"),
    };
    let state = agg.spot_table().get(&key).unwrap();
    assert_eq!(state.dx_entity.as_ref().unwrap().entity_name, "Japan");
    assert!(state.memberships.as_ref().unwrap().contains_text("FOC"));
    let station = CallBandModeKey::of(&key);
    assert!(agg.spot_table().lookup_emitted(&station).unwrap().same(&key));
}

// Entities

#[test]
fn first_definition_wins() {
    let data = "One: 1 1 EU 0 0 0 AA:\n    AB,AC;\nTwo: 2 2 AF 0 0 0 AB:\n    AC,AD,=AB1X;\n";
    let resolver = CtyResolver::from_cty_dat(data).unwrap();
    assert_eq!(resolver.resolve("ab1a").unwrap().entity_name, "One");
    assert_eq!(resolver.resolve("AC1A").unwrap().entity_name, "One");
    assert_eq!(resolver.resolve("AD1A").unwrap().entity_name, "Two");
    assert_eq!(resolver.resolve("AB1X").unwrap().entity_name, "Two");
    assert!(resolver.resolve("A").is_none());
    assert!(resolver.resolve("").is_none());
    assert!(resolver.resolve("\u{e9}").is_none());
    assert_eq!(resolver.entity_count(), 2);
    assert_eq!(resolver.prefix_count(), 5);
}

#[test]
fn headers_are_checked() {
    let good = parse_header("*Sealand:  14  27  EU  51.53  1.28E0  0.0  HZ:").unwrap();
    assert_eq!(good.entity_name, "Sealand");
    assert_eq!(good.lat, "51.53");
    assert_eq!(good.primary_prefix, "HZ");
    for line in [
        "no colon here",
        "Short: 1 2 EU 0 0 0",
        "Zone: 256 2 EU 0 0 0 X:",
        "Zone: 1 x EU 0 0 0 X:",
        "Lat: 1 2 EU 5..0 0 0 X:",
        "Lon: 1 2 EU 0 1e 0 X:",
    ] {
        match parse_header(line) {
            Err(CtyParseError::InvalidHeader(s)) => assert_eq!(s, line),
            _ => panic!("expected an error for {line}"),
        }
    }
    match parse_header("Cont: 1 2 XX 0 0 0 X:") {
        Err(e) => assert_eq!(e.message(), "unknown continent code: XX"),
        Ok(_) => panic!("expected an error"),
    }
    assert!(matches!(
        CtyResolver::from_cty_dat("# comment\n\nbad header\n"),
        Err(CtyParseError::InvalidHeader(_))
    ));
    assert_eq!(parse_continent("OC").unwrap(), Continent::OC);
    assert!(parse_continent("oc").is_err());
}

#[test]
fn coordinates_are_numbers_of_the_language() {
    for text in [
        "0", "5.", ".5", ".", "-5.25", "+1", "1e5", "1E-5", "1e", "e5", "inf", "-Infinity", "NaN",
        "nano", "1.2.3", "0x10", "1_000", "--1", "1e+", "", "5.e3",
    ] {
        let line = format!("X: 1 2 EU {text} 0 0 X:");
        if text.is_empty() {
            continue;
        }
        assert_eq!(parse_header(&line).is_ok(), text.parse::<f64>().is_ok(), "{text}");
    }
}

// Streams

#[test]
fn plain_bytes_pass_in_front_of_commands() {
    let mut buf = b"abc\xff\xfd\x01".to_vec();
    let r = strip_iac(&mut buf);
    assert_eq!(buf, b"abc");
    assert_eq!(r.responses, vec![[255, 252, 1]]);
    // An unterminated subnegotiation and a cut command vanish, a lone IAC stays
    let mut buf = b"a\xff\xfa\x18\x00".to_vec();
    strip_iac(&mut buf);
    assert_eq!(buf, b"a");
    let mut buf = b"a\xff\xfd".to_vec();
    assert!(strip_iac(&mut buf).responses.is_empty());
    assert_eq!(buf, b"a");
    let mut buf = b"a\xff".to_vec();
    strip_iac(&mut buf);
    assert_eq!(buf, b"a\xff");
}
