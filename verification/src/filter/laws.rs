//! What a filter lets through, in terms of the spot and the configured values.

use crate::callsign::normalized;
use crate::domain::{OriginatorKind, TriState, UnknownFieldPolicy};
use crate::filter::compiled::{
    config_error, cq_pattern, first_reversed_profile, lemma_first_reversed, same_ranges,
    split_qsy_pattern, EntityFilters, FilterConfig,
};
use crate::filter::config::{
    EntityFiltersSerde, FilterConfigSerde, MembershipRuleSerde, RfProfileSerde,
};
use crate::filter::decision::{FilterDecision, FilterDropReason};
use crate::filter::evaluate::{
    age_stage, band_stage, comment_of, comment_stage, correlation_stage, cq_stage, decision,
    dx_stage, enrichment_stage, enrichment_stages, entity_decision, entity_stages, freq_stage,
    geo_stage, geo_stages, hits_of, kind_stage, lemma_first_drop, membership_decision, mode_stage,
    profile_stage, range_has, rule_holds, sanity_stage, skimmer_stage, skimmer_stages,
    some_range_has, some_required, source_stage, split_stage, spotter_stage, stages, GridHits,
    PatternHits,
};
use crate::filter::pattern::{
    pattern_error, pattern_hit, regex_error, regex_matches, regex_source,
};
use crate::model::{GeoModel, ViewModel};
use std::ops::RangeInclusive;
use vstd::prelude::*;

verus! {

// ---------------------------------------------------------------------------
// The rules in plain terms
// ---------------------------------------------------------------------------

/// Some range of the list, both ends included, holds the frequency.
pub open spec fn held(ranges: Seq<RangeInclusive<u64>>, freq_hz: u64) -> bool {
    exists|i: int|
        0 <= i < ranges.len() && (#[trigger] ranges[i])@.start <= freq_hz && freq_hz
            <= ranges[i]@.end
}

/// No range of the configuration has been used up by iteration.
pub open spec fn whole_ranges(cfg: FilterConfig) -> bool {
    &&& cfg.freq_sanity matches Some(r) ==> !r@.exhausted
    &&& forall|i: int|
        0 <= i < cfg.rf.freq_deny_hz@.len() ==> !(#[trigger] cfg.rf.freq_deny_hz@[i])@.exhausted
    &&& forall|i: int|
        0 <= i < cfg.rf.freq_allow_hz@.len() ==> !(#[trigger] cfg.rf.freq_allow_hz@[i])@.exhausted
    &&& forall|i: int, k: int|
        0 <= i < cfg.rf.profiles@.len() && 0 <= k < cfg.rf.profiles@[i].ranges_hz@.len() ==> !(
        #[trigger] cfg.rf.profiles@[i].ranges_hz@[k])@.exhausted
    &&& cfg.skimmer.snr_db matches Some(r) ==> !r@.exhausted
    &&& cfg.skimmer.wpm matches Some(r) ==> !r@.exhausted
}

/// A field that has no value passes: always under `FailOpen`, never under
/// `FailClosed` where there is a list, and under `Neutral` unless there is an
/// allowlist.
pub open spec fn unknown_passes(
    policy: UnknownFieldPolicy,
    has_deny: bool,
    has_allow: bool,
) -> bool {
    ||| !has_deny && !has_allow
    ||| policy == UnknownFieldPolicy::FailOpen
    ||| policy == UnknownFieldPolicy::Neutral && !has_allow
}

/// A value passes a pair of sets: it is not denied, and allowed where anything is.
pub open spec fn set_passes<T>(value: T, deny: Set<T>, allow: Set<T>) -> bool {
    !deny.contains(value) && (allow == Set::<T>::empty() || allow.contains(value))
}

/// An optional value passes a pair of sets under a policy on unknown fields.
pub open spec fn field_passes<T>(
    value: Option<T>,
    deny: Set<T>,
    allow: Set<T>,
    policy: UnknownFieldPolicy,
) -> bool {
    match value {
        Some(v) => set_passes(v, deny, allow),
        None => unknown_passes(policy, deny != Set::<T>::empty(), allow != Set::<T>::empty()),
    }
}

/// A station passes the geographic rules.
pub open spec fn place_passes(
    res: GeoModel,
    f: EntityFilters,
    policy: UnknownFieldPolicy,
    hits: GridHits,
) -> bool {
    &&& field_passes(res.continent, f.continent_deny@, f.continent_allow@, policy)
    &&& field_passes(res.cq_zone, f.cq_zone_deny@, f.cq_zone_allow@, policy)
    &&& field_passes(res.itu_zone, f.itu_zone_deny@, f.itu_zone_allow@, policy)
    &&& field_passes(res.entity, f.entity_deny@, f.entity_allow@, policy)
    &&& field_passes(res.country, f.country_deny@, f.country_allow@, policy)
    &&& field_passes(res.state, f.state_deny@, f.state_allow@, policy)
    &&& f.grid_deny.no_patterns() && f.grid_allow.no_patterns() || match res.grid {
        Some(_) => !hits.deny && (f.grid_allow.no_patterns() || hits.allow),
        None => unknown_passes(policy, !f.grid_deny.no_patterns(), !f.grid_allow.no_patterns()),
    }
}

/// A flag passes a three-state rule.
pub open spec fn flag_passes(
    flag: Option<bool>,
    rule: TriState,
    policy: UnknownFieldPolicy,
) -> bool {
    match (rule, flag) {
        (TriState::Any, _) => true,
        (TriState::RequireTrue, Some(v)) => v,
        (TriState::RequireFalse, Some(v)) => !v,
        (_, None) => policy == UnknownFieldPolicy::FailOpen,
    }
}

/// The memberships pass the rules: all that are required are there, none that
/// is denied is.
pub open spec fn memberships_pass(
    have: Option<Set<Seq<char>>>,
    rules: Seq<MembershipRuleSerde>,
    policy: UnknownFieldPolicy,
) -> bool {
    match have {
        Some(set) => forall|i: int|
            0 <= i < rules.len() ==> match #[trigger] rules[i] {
                MembershipRuleSerde::Require(tag) => set.contains(tag@),
                MembershipRuleSerde::Deny(tag) => !set.contains(tag@),
            },
        None => {
            ||| rules.len() == 0
            ||| policy == UnknownFieldPolicy::FailOpen
            ||| policy == UnknownFieldPolicy::Neutral && forall|i: int|
                0 <= i < rules.len() ==> #[trigger] rules[i] is Deny
        },
    }
}

// ---------------------------------------------------------------------------
// The first half of the rules
// ---------------------------------------------------------------------------

/// What it takes to pass the rules on age and radio frequency.
pub open spec fn radio_passes(view: ViewModel, cfg: FilterConfig) -> bool {
    &&& view.now - view.last_seen <= cfg.max_age@ || view.last_seen > view.now
    &&& cfg.freq_sanity matches Some(r) ==> r@.start <= view.freq_hz && view.freq_hz <= r@.end
    &&& set_passes(view.band, cfg.rf.band_deny@, cfg.rf.band_allow@)
    &&& set_passes(view.mode, cfg.rf.mode_deny@, cfg.rf.mode_allow@)
    &&& !held(cfg.rf.freq_deny_hz@, view.freq_hz)
    &&& cfg.rf.freq_allow_hz@.len() == 0 || held(cfg.rf.freq_allow_hz@, view.freq_hz)
    &&& cfg.rf.profiles@.len() == 0 || exists|i: int|
        0 <= i < cfg.rf.profiles@.len() && held(
            (#[trigger] cfg.rf.profiles@[i]).ranges_hz@,
            view.freq_hz,
        )
}

/// What it takes to pass the rules on callsigns, reporter and comment.
pub open spec fn report_passes(view: ViewModel, cfg: FilterConfig, hits: PatternHits) -> bool {
    &&& !hits.dx_deny && (cfg.dx.allow.no_patterns() || hits.dx_allow)
    &&& view.originator_kind == OriginatorKind::Human ==> cfg.spotter.allow_human
    &&& view.originator_kind == OriginatorKind::Skimmer ==> cfg.spotter.allow_skimmer
    &&& view.originator_kind == OriginatorKind::Unknown ==> cfg.spotter.allow_unknown_kind
    &&& field_passes(
        view.spotter_source_id,
        cfg.spotter.source_deny@,
        cfg.spotter.source_allow@,
        cfg.unknown_policy,
    )
    &&& match view.spotter_call_norm {
        Some(_) => !hits.spotter_deny && (cfg.spotter.callsign.allow.no_patterns()
            || hits.spotter_allow),
        None => unknown_passes(
            cfg.unknown_policy,
            !cfg.spotter.callsign.deny.no_patterns(),
            !cfg.spotter.callsign.allow.no_patterns(),
        ),
    }
    &&& cfg.content.suppress_split_qsy ==> !hits.split_qsy
    &&& cfg.content.cq_only ==> view.is_skimmer_cq || hits.cq
    &&& !hits.comment_deny
    &&& cfg.content.comment_allow.no_patterns() || (if comment_of(view).len() > 0 {
        hits.comment_allow
    } else {
        !cfg.content.require_comment_when_allowlist_present
    })
}

/// What it takes to pass the thresholds and the rules on skimmer metrics.
pub open spec fn counts_pass(view: ViewModel, cfg: FilterConfig) -> bool {
    &&& !cfg.correlation.originators_human_only ==> view.unique_originators
        >= cfg.correlation.min_unique_originators
    &&& cfg.correlation.originators_human_only ==> view.unique_human_originators
        >= cfg.correlation.min_unique_originators
    &&& view.unique_sources >= cfg.correlation.min_unique_sources
    &&& view.total_observations_in_window >= cfg.correlation.min_observations
    &&& view.repeats_same_key_in_window >= cfg.correlation.min_repeats_same_key
    &&& view.originator_kind == OriginatorKind::Skimmer ==> {
        &&& cfg.skimmer.drop_dupes ==> !view.is_skimmer_dupe
        &&& cfg.skimmer.require_cq ==> view.is_skimmer_cq
        &&& cfg.skimmer.snr_db matches Some(r) ==> match view.snr_db {
            Some(snr) => r@.start <= snr && snr <= r@.end,
            None => cfg.unknown_policy != UnknownFieldPolicy::FailClosed,
        }
        &&& cfg.skimmer.wpm matches Some(r) ==> match view.wpm {
            Some(wpm) => r@.start <= wpm && wpm <= r@.end,
            None => cfg.unknown_policy != UnknownFieldPolicy::FailClosed,
        }
    }
}

/// What it takes to pass the rules on places and enrichment data.
pub open spec fn lookups_pass(view: ViewModel, cfg: FilterConfig, hits: PatternHits) -> bool {
    &&& cfg.geo.require_resolvers && cfg.unknown_policy != UnknownFieldPolicy::FailOpen
        ==> view.dx_geo.entity is Some || view.dx_geo.country is Some
    &&& place_passes(view.dx_geo, cfg.geo.dx, cfg.unknown_policy, hits.dx_grid)
    &&& place_passes(view.spotter_geo, cfg.geo.spotter, cfg.unknown_policy, hits.spotter_grid)
    &&& flag_passes(view.lotw, cfg.enrichment.lotw, cfg.unknown_policy)
    &&& flag_passes(view.in_master_db, cfg.enrichment.in_master_db, cfg.unknown_policy)
    &&& flag_passes(view.in_callbook, cfg.enrichment.in_callbook, cfg.unknown_policy)
    &&& memberships_pass(view.memberships, cfg.enrichment.membership@, cfg.unknown_policy)
}

// ---------------------------------------------------------------------------
// Laws
// ---------------------------------------------------------------------------

/// A range that is whole holds what lies between its ends.
proof fn lemma_held(ranges: Seq<RangeInclusive<u64>>, freq_hz: u64)
    requires
        forall|i: int| 0 <= i < ranges.len() ==> !(#[trigger] ranges[i])@.exhausted,
    ensures
        some_range_has(ranges, freq_hz) == held(ranges, freq_hz),
{
    if held(ranges, freq_hz) {
        let i = choose|i: int|
            0 <= i < ranges.len() && (#[trigger] ranges[i])@.start <= freq_hz && freq_hz
                <= ranges[i]@.end;
        assert(range_has(ranges[i], freq_hz));
    }
    if some_range_has(ranges, freq_hz) {
        let i = choose|i: int| 0 <= i < ranges.len() && range_has(#[trigger] ranges[i], freq_hz);
        assert(ranges[i]@.start <= freq_hz && freq_hz <= ranges[i]@.end);
    }
}

/// Where there are profiles, a spot is dropped for them exactly when no range
/// of any of them holds its frequency, wherever in the list the profile stands.
pub proof fn lemma_profiles(view: ViewModel, cfg: FilterConfig)
    requires
        whole_ranges(cfg),
    ensures
        profile_stage(view, cfg) == FilterDecision::Drop(FilterDropReason::ProfileNoMatch) <==> {
            &&& cfg.rf.profiles@.len() > 0
            &&& forall|i: int, k: int|
                0 <= i < cfg.rf.profiles@.len() && 0 <= k < cfg.rf.profiles@[i].ranges_hz@.len()
                    ==> !((#[trigger] cfg.rf.profiles@[i].ranges_hz@[k])@.start <= view.freq_hz
                    && view.freq_hz <= cfg.rf.profiles@[i].ranges_hz@[k]@.end)
        },
        forall|i: int|
            0 <= i < cfg.rf.profiles@.len() && held(
                (#[trigger] cfg.rf.profiles@[i]).ranges_hz@,
                view.freq_hz,
            ) ==> profile_stage(view, cfg) == FilterDecision::Allow,
        profile_stage(view, cfg) == FilterDecision::Allow || profile_stage(view, cfg)
            == FilterDecision::Drop(FilterDropReason::ProfileNoMatch),
{
    let profiles = cfg.rf.profiles@;
    assert forall|i: int| 0 <= i < profiles.len() implies some_range_has(
        (#[trigger] profiles[i]).ranges_hz@,
        view.freq_hz,
    ) == held(profiles[i].ranges_hz@, view.freq_hz) by {
        assert forall|k: int| 0 <= k < profiles[i].ranges_hz@.len() implies !(
        #[trigger] profiles[i].ranges_hz@[k])@.exhausted by {}
        lemma_held(profiles[i].ranges_hz@, view.freq_hz);
    }
    if profile_stage(view, cfg) is Drop {
        assert forall|i: int, k: int|
            0 <= i < profiles.len() && 0 <= k < profiles[i].ranges_hz@.len() implies !((
        #[trigger] profiles[i].ranges_hz@[k])@.start <= view.freq_hz && view.freq_hz
            <= profiles[i].ranges_hz@[k]@.end) by {
            assert(!some_range_has(profiles[i].ranges_hz@, view.freq_hz));
            assert(!held(profiles[i].ranges_hz@, view.freq_hz));
        }
    }
}

/// Age and radio rules.
proof fn lemma_radio(view: ViewModel, cfg: FilterConfig)
    requires
        whole_ranges(cfg),
    ensures
        radio_passes(view, cfg) <==> {
            &&& age_stage(view, cfg) == FilterDecision::Allow
            &&& sanity_stage(view, cfg) == FilterDecision::Allow
            &&& band_stage(view, cfg) == FilterDecision::Allow
            &&& mode_stage(view, cfg) == FilterDecision::Allow
            &&& freq_stage(view, cfg) == FilterDecision::Allow
            &&& profile_stage(view, cfg) == FilterDecision::Allow
        },
{
    lemma_held(cfg.rf.freq_deny_hz@, view.freq_hz);
    lemma_held(cfg.rf.freq_allow_hz@, view.freq_hz);
    lemma_profiles(view, cfg);
    if profile_stage(view, cfg) == FilterDecision::Allow && cfg.rf.profiles@.len() > 0 {
        let (i, k) = choose|i: int, k: int|
            0 <= i < cfg.rf.profiles@.len() && 0 <= k < cfg.rf.profiles@[i].ranges_hz@.len() && (
            #[trigger] cfg.rf.profiles@[i].ranges_hz@[k])@.start <= view.freq_hz && view.freq_hz
                <= cfg.rf.profiles@[i].ranges_hz@[k]@.end;
        assert(held(cfg.rf.profiles@[i].ranges_hz@, view.freq_hz));
    }
}

/// Callsigns, reporter and comment.
proof fn lemma_report(view: ViewModel, cfg: FilterConfig, hits: PatternHits)
    ensures
        report_passes(view, cfg, hits) <==> {
            &&& dx_stage(cfg, hits) == FilterDecision::Allow
            &&& kind_stage(view, cfg) == FilterDecision::Allow
            &&& source_stage(view, cfg) == FilterDecision::Allow
            &&& spotter_stage(view, cfg, hits) == FilterDecision::Allow
            &&& split_stage(cfg, hits) == FilterDecision::Allow
            &&& cq_stage(view, cfg, hits) == FilterDecision::Allow
            &&& comment_stage(view, cfg, hits) == FilterDecision::Allow
        },
{
}

/// Thresholds and metrics.
proof fn lemma_counts(view: ViewModel, cfg: FilterConfig)
    requires
        whole_ranges(cfg),
    ensures
        counts_pass(view, cfg) <==> {
            &&& correlation_stage(view, cfg) == FilterDecision::Allow
            &&& skimmer_stage(view, cfg) == FilterDecision::Allow
        },
{
    let list = skimmer_stages(view, cfg);
    lemma_first_drop(list);
    assert(list.len() == 4);
    if view.originator_kind == OriginatorKind::Skimmer {
        if first_allow(list) {
            assert(list[0] == FilterDecision::Allow && list[1] == FilterDecision::Allow);
            assert(list[2] == FilterDecision::Allow && list[3] == FilterDecision::Allow);
        }
    }
}

/// All decisions of the list allow.
spec fn first_allow(list: Seq<FilterDecision>) -> bool {
    forall|i: int| 0 <= i < list.len() ==> #[trigger] list[i] == FilterDecision::Allow
}

/// One station.
proof fn lemma_place(
    res: GeoModel,
    f: EntityFilters,
    policy: UnknownFieldPolicy,
    hits: GridHits,
)
    ensures
        place_passes(res, f, policy, hits) <==> entity_decision(res, f, policy, hits)
            == FilterDecision::Allow,
{
    let list = entity_stages(res, f, policy, hits);
    lemma_first_drop(list);
    assert(list.len() == 7);
    if first_allow(list) {
        assert(list[0] == FilterDecision::Allow && list[1] == FilterDecision::Allow);
        assert(list[2] == FilterDecision::Allow && list[3] == FilterDecision::Allow);
        assert(list[4] == FilterDecision::Allow && list[5] == FilterDecision::Allow);
        assert(list[6] == FilterDecision::Allow);
    }
}

/// Memberships.
proof fn lemma_memberships(
    have: Option<Set<Seq<char>>>,
    rules: Seq<MembershipRuleSerde>,
    policy: UnknownFieldPolicy,
)
    ensures
        memberships_pass(have, rules, policy) <==> membership_decision(have, rules, policy)
            == FilterDecision::Allow,
{
    match have {
        Some(set) => {
            if exists|i: int|
                0 <= i < rules.len() && !rule_holds(
                    #[trigger] rules[i],
                    set,
                ) {
                let i = choose|i: int|
                    0 <= i < rules.len() && !rule_holds(
                        #[trigger] rules[i],
                        set,
                    );
                assert(rules[i] is Require || rules[i] is Deny);
            } else {
                assert forall|i: int| 0 <= i < rules.len() implies (match #[trigger] rules[i] {
                    MembershipRuleSerde::Require(tag) => set.contains(tag@),
                    MembershipRuleSerde::Deny(tag) => !set.contains(tag@),
                }) by {
                    assert(rule_holds(rules[i], set));
                }
            }
        },
        None => {
            if some_required(rules) {
                let i = choose|i: int| 0 <= i < rules.len() && #[trigger] rules[i] is Require;
                assert(!(rules[i] is Deny));
            } else {
                assert forall|i: int| 0 <= i < rules.len() implies #[trigger] rules[i] is Deny by {
                    assert(!(rules[i] is Require));
                }
            }
        },
    }
}

/// Places and enrichment data.
proof fn lemma_lookups(view: ViewModel, cfg: FilterConfig, hits: PatternHits)
    ensures
        lookups_pass(view, cfg, hits) <==> {
            &&& geo_stage(view, cfg, hits) == FilterDecision::Allow
            &&& enrichment_stage(view, cfg) == FilterDecision::Allow
        },
{
    let geo = geo_stages(view, cfg, hits);
    let data = enrichment_stages(view, cfg);
    lemma_first_drop(geo);
    lemma_first_drop(data);
    lemma_place(view.dx_geo, cfg.geo.dx, cfg.unknown_policy, hits.dx_grid);
    lemma_place(view.spotter_geo, cfg.geo.spotter, cfg.unknown_policy, hits.spotter_grid);
    lemma_memberships(view.memberships, cfg.enrichment.membership@, cfg.unknown_policy);
    assert(geo.len() == 3 && data.len() == 4);
    if first_allow(geo) {
        assert(geo[0] == FilterDecision::Allow && geo[1] == FilterDecision::Allow);
        assert(geo[2] == FilterDecision::Allow);
    }
    if first_allow(data) {
        assert(data[0] == FilterDecision::Allow && data[1] == FilterDecision::Allow);
        assert(data[2] == FilterDecision::Allow && data[3] == FilterDecision::Allow);
    }
}

/// A spot is let through exactly when it passes every rule of the
/// configuration.
pub proof fn lemma_allowed_iff(view: ViewModel, cfg: FilterConfig, hits: PatternHits)
    requires
        whole_ranges(cfg),
    ensures
        decision(view, cfg, hits) == FilterDecision::Allow <==> {
            &&& radio_passes(view, cfg)
            &&& report_passes(view, cfg, hits)
            &&& counts_pass(view, cfg)
            &&& lookups_pass(view, cfg, hits)
        },
{
    let list = stages(view, cfg, hits);
    lemma_first_drop(list);
    lemma_radio(view, cfg);
    lemma_report(view, cfg, hits);
    lemma_counts(view, cfg);
    lemma_lookups(view, cfg, hits);
    assert(list.len() == 17);
    if first_allow(list) {
        assert(list[0] == FilterDecision::Allow && list[1] == FilterDecision::Allow);
        assert(list[2] == FilterDecision::Allow && list[3] == FilterDecision::Allow);
        assert(list[4] == FilterDecision::Allow && list[5] == FilterDecision::Allow);
        assert(list[6] == FilterDecision::Allow && list[7] == FilterDecision::Allow);
        assert(list[8] == FilterDecision::Allow && list[9] == FilterDecision::Allow);
        assert(list[10] == FilterDecision::Allow && list[11] == FilterDecision::Allow);
        assert(list[12] == FilterDecision::Allow && list[13] == FilterDecision::Allow);
        assert(list[14] == FilterDecision::Allow && list[15] == FilterDecision::Allow);
        assert(list[16] == FilterDecision::Allow);
    }
}

/// Why the rules on metrics, places and enrichment data drop.
proof fn lemma_late_reasons(view: ViewModel, cfg: FilterConfig, hits: PatternHits)
    ensures
        skimmer_stage(view, cfg) matches FilterDecision::Drop(r) ==> r
            == FilterDropReason::SkimmerMetricNotMet || r == FilterDropReason::UnknownFieldFailed,
        geo_stage(view, cfg, hits) matches FilterDecision::Drop(r) ==> r
            == FilterDropReason::GeoNotMet || r == FilterDropReason::UnknownFieldFailed,
        enrichment_stage(view, cfg) matches FilterDecision::Drop(r) ==> r
            == FilterDropReason::EnrichmentNotMet || r == FilterDropReason::UnknownFieldFailed,
{
    lemma_first_drop(skimmer_stages(view, cfg));
    lemma_first_drop(geo_stages(view, cfg, hits));
    lemma_first_drop(enrichment_stages(view, cfg));
    lemma_place_reasons(view.dx_geo, cfg.geo.dx, cfg.unknown_policy, hits.dx_grid);
    lemma_place_reasons(view.spotter_geo, cfg.geo.spotter, cfg.unknown_policy, hits.spotter_grid);
}

/// Why the rules on one station drop.
proof fn lemma_place_reasons(
    res: GeoModel,
    f: EntityFilters,
    policy: UnknownFieldPolicy,
    hits: GridHits,
)
    ensures
        entity_decision(res, f, policy, hits) matches FilterDecision::Drop(r) ==> r
            == FilterDropReason::GeoNotMet || r == FilterDropReason::UnknownFieldFailed,
{
    lemma_first_drop(entity_stages(res, f, policy, hits));
}

/// The stage that drops a spot: all before it allow.
proof fn lemma_dropping_stage(
    view: ViewModel,
    cfg: FilterConfig,
    hits: PatternHits,
) -> (k: int)
    requires
        decision(view, cfg, hits) is Drop,
    ensures
        0 <= k < 17,
        stages(view, cfg, hits).len() == 17,
        stages(view, cfg, hits)[k] == decision(view, cfg, hits),
        forall|i: int|
            0 <= i < k ==> #[trigger] stages(view, cfg, hits)[i] == FilterDecision::Allow,
{
    let list = stages(view, cfg, hits);
    lemma_first_drop(list);
    choose|k: int|
        0 <= k < list.len() && list[k] == decision(view, cfg, hits) && forall|i: int|
            0 <= i < k ==> #[trigger] list[i] == FilterDecision::Allow
}

/// The reasons that the rules on age and radio frequency give: each exactly
/// where its own rule fails and those before it hold.
pub proof fn lemma_radio_reasons(view: ViewModel, cfg: FilterConfig, hits: PatternHits)
    requires
        whole_ranges(cfg),
    ensures
        ({
            let d = decision(view, cfg, hits);
            let f = view.freq_hz;
            let fresh = view.now - view.last_seen <= cfg.max_age@ || view.last_seen > view.now;
            let sane = cfg.freq_sanity matches Some(r) ==> r@.start <= f && f <= r@.end;
            let band = set_passes(view.band, cfg.rf.band_deny@, cfg.rf.band_allow@);
            let mode = set_passes(view.mode, cfg.rf.mode_deny@, cfg.rf.mode_allow@);
            let denied = held(cfg.rf.freq_deny_hz@, f);
            let allowed = cfg.rf.freq_allow_hz@.len() == 0 || held(cfg.rf.freq_allow_hz@, f);
            &&& d == FilterDecision::Drop(FilterDropReason::TooOld) <==> !fresh
            &&& d == FilterDecision::Drop(FilterDropReason::FreqOutOfRange) <==> fresh && !sane
            &&& d == FilterDecision::Drop(FilterDropReason::BandDenied) <==> fresh && sane && !band
            &&& d == FilterDecision::Drop(FilterDropReason::ModeDenied) <==> fresh && sane && band
                && !mode
            &&& d == FilterDecision::Drop(FilterDropReason::FreqDenied) <==> fresh && sane && band
                && mode && denied
            &&& d == FilterDecision::Drop(FilterDropReason::FreqNotAllowed) <==> fresh && sane
                && band && mode && !denied && !allowed
            &&& d == FilterDecision::Drop(FilterDropReason::ProfileNoMatch) <==> fresh && sane
                && band && mode && !denied && allowed && !radio_passes(view, cfg)
        }),
{
    lemma_radio(view, cfg);
    lemma_held(cfg.rf.freq_deny_hz@, view.freq_hz);
    lemma_held(cfg.rf.freq_allow_hz@, view.freq_hz);
    lemma_profiles(view, cfg);
    lemma_late_reasons(view, cfg, hits);
    let list = stages(view, cfg, hits);
    lemma_first_drop(list);
    assert(list[0] == age_stage(view, cfg));
    assert(list[1] == sanity_stage(view, cfg));
    assert(list[2] == band_stage(view, cfg));
    assert(list[3] == mode_stage(view, cfg));
    assert(list[4] == freq_stage(view, cfg));
    assert(list[5] == profile_stage(view, cfg));
    if decision(view, cfg, hits) is Drop {
        let k = lemma_dropping_stage(view, cfg, hits);
        assert(k >= 6 ==> list[5] == FilterDecision::Allow);
        assert(k >= 5 ==> list[4] == FilterDecision::Allow);
        assert(k >= 4 ==> list[3] == FilterDecision::Allow);
        assert(k >= 3 ==> list[2] == FilterDecision::Allow);
        assert(k >= 2 ==> list[1] == FilterDecision::Allow);
        assert(k >= 1 ==> list[0] == FilterDecision::Allow);
    }
}

/// The reasons that the rules on callsigns, reporter and comment give, where
/// the rules before them hold.
pub proof fn lemma_report_reasons(view: ViewModel, cfg: FilterConfig, hits: PatternHits)
    requires
        whole_ranges(cfg),
        radio_passes(view, cfg),
    ensures
        ({
            let d = decision(view, cfg, hits);
            let dx = !hits.dx_deny && (cfg.dx.allow.no_patterns() || hits.dx_allow);
            let kind = match view.originator_kind {
                OriginatorKind::Human => cfg.spotter.allow_human,
                OriginatorKind::Skimmer => cfg.spotter.allow_skimmer,
                OriginatorKind::Unknown => cfg.spotter.allow_unknown_kind,
            };
            &&& d == FilterDecision::Drop(FilterDropReason::DxCallDenied) <==> hits.dx_deny
            &&& d == FilterDecision::Drop(FilterDropReason::DxCallNotAllowed) <==> !hits.dx_deny
                && !cfg.dx.allow.no_patterns() && !hits.dx_allow
            &&& d == FilterDecision::Drop(FilterDropReason::OriginatorKindDenied) <==> dx && !kind
            &&& d == FilterDecision::Drop(FilterDropReason::SpotterDenied) ==> dx && kind && ((
            view.spotter_source_id matches Some(s) && cfg.spotter.source_deny@.contains(s)) || (
            view.spotter_call_norm is Some && hits.spotter_deny))
            &&& d == FilterDecision::Drop(FilterDropReason::SpotterNotAllowed) ==> dx && kind && ((
            view.spotter_source_id matches Some(s) && !cfg.spotter.source_allow@.contains(s)) || (
            view.spotter_call_norm is Some && !hits.spotter_allow))
            &&& d == FilterDecision::Drop(FilterDropReason::SplitQsySuppressed)
                ==> cfg.content.suppress_split_qsy && hits.split_qsy
            &&& d == FilterDecision::Drop(FilterDropReason::CqRequired) ==> cfg.content.cq_only
                && !view.is_skimmer_cq && !hits.cq
            &&& d == FilterDecision::Drop(FilterDropReason::CommentDenied) ==> hits.comment_deny
            &&& d == FilterDecision::Drop(FilterDropReason::CommentNotAllowed)
                ==> !cfg.content.comment_allow.no_patterns() && !hits.comment_deny
        }),
{
    lemma_radio(view, cfg);
    lemma_late_reasons(view, cfg, hits);
    let list = stages(view, cfg, hits);
    lemma_first_drop(list);
    assert(list[0] == age_stage(view, cfg) && list[1] == sanity_stage(view, cfg));
    assert(list[2] == band_stage(view, cfg) && list[3] == mode_stage(view, cfg));
    assert(list[4] == freq_stage(view, cfg) && list[5] == profile_stage(view, cfg));
    assert(list[6] == dx_stage(cfg, hits));
    assert(list[7] == kind_stage(view, cfg));
    if decision(view, cfg, hits) is Drop {
        let k = lemma_dropping_stage(view, cfg, hits);
        assert(k >= 8 ==> list[7] == FilterDecision::Allow);
        assert(k >= 7 ==> list[6] == FilterDecision::Allow);
        assert(k >= 6);
    }
}

/// The reasons that thresholds, metrics, places and enrichment data give: they
/// come after all rules before them hold, the thresholds' exactly where one is
/// not met.
pub proof fn lemma_late_rules(view: ViewModel, cfg: FilterConfig, hits: PatternHits)
    requires
        whole_ranges(cfg),
        radio_passes(view, cfg),
        report_passes(view, cfg, hits),
    ensures
        ({
            let d = decision(view, cfg, hits);
            let c = cfg.correlation;
            &&& d == FilterDecision::Drop(FilterDropReason::CorrelationNotMet) <==> {
                ||| !c.originators_human_only && view.unique_originators < c.min_unique_originators
                ||| c.originators_human_only && view.unique_human_originators
                    < c.min_unique_originators
                ||| view.unique_sources < c.min_unique_sources
                ||| view.total_observations_in_window < c.min_observations
                ||| view.repeats_same_key_in_window < c.min_repeats_same_key
            }
            &&& d == FilterDecision::Drop(FilterDropReason::SkimmerMetricNotMet)
                ==> view.originator_kind == OriginatorKind::Skimmer && !counts_pass(view, cfg)
            &&& d == FilterDecision::Drop(FilterDropReason::GeoNotMet) ==> counts_pass(view, cfg)
                && !lookups_pass(view, cfg, hits)
            &&& d == FilterDecision::Drop(FilterDropReason::EnrichmentNotMet) ==> counts_pass(
                view,
                cfg,
            ) && place_passes(view.dx_geo, cfg.geo.dx, cfg.unknown_policy, hits.dx_grid)
                && place_passes(
                view.spotter_geo,
                cfg.geo.spotter,
                cfg.unknown_policy,
                hits.spotter_grid,
            )
        }),
{
    lemma_radio(view, cfg);
    lemma_report(view, cfg, hits);
    lemma_counts(view, cfg);
    lemma_lookups(view, cfg, hits);
    lemma_late_reasons(view, cfg, hits);
    lemma_first_drop(geo_stages(view, cfg, hits));
    lemma_place(view.dx_geo, cfg.geo.dx, cfg.unknown_policy, hits.dx_grid);
    lemma_place(view.spotter_geo, cfg.geo.spotter, cfg.unknown_policy, hits.spotter_grid);
    let geo = geo_stages(view, cfg, hits);
    if geo_stage(view, cfg, hits) == FilterDecision::Allow {
        assert(geo[1] == FilterDecision::Allow && geo[2] == FilterDecision::Allow);
    }
    let list = stages(view, cfg, hits);
    lemma_first_drop(list);
    assert(list[13] == correlation_stage(view, cfg));
    assert(list[14] == skimmer_stage(view, cfg));
    assert(list[15] == geo_stage(view, cfg, hits));
    assert(list[16] == enrichment_stage(view, cfg));
    if decision(view, cfg, hits) is Drop {
        let k = lemma_dropping_stage(view, cfg, hits);
        assert(list[0] == FilterDecision::Allow && list[1] == FilterDecision::Allow);
        assert(list[2] == FilterDecision::Allow && list[3] == FilterDecision::Allow);
        assert(list[4] == FilterDecision::Allow && list[5] == FilterDecision::Allow);
        assert(list[6] == FilterDecision::Allow && list[7] == FilterDecision::Allow);
        assert(list[8] == FilterDecision::Allow && list[9] == FilterDecision::Allow);
        assert(list[10] == FilterDecision::Allow && list[11] == FilterDecision::Allow);
        assert(list[12] == FilterDecision::Allow);
        assert(k >= 13);
        assert(k >= 16 ==> list[15] == FilterDecision::Allow);
        assert(k >= 15 ==> list[14] == FilterDecision::Allow);
        assert(k >= 14 ==> list[13] == FilterDecision::Allow);
    }
}

/// Which patterns are held against what: the callsign rules see the normalized
/// callsign of their own station, the comment rules and helper expressions the
/// comment, the grid rules the grid of their own station.
pub proof fn lemma_hits(view: ViewModel, cfg: FilterConfig)
    ensures
        ({
            let h = hits_of(view, cfg);
            let comment = match view.comment {
                Some(c) => c,
                None => Seq::empty(),
            };
            let dx = normalized(view.dx_call_norm, cfg.dx.normalization);
            &&& h.dx_deny == cfg.dx.deny.matches(dx)
            &&& h.dx_allow == cfg.dx.allow.matches(dx)
            &&& match view.spotter_call_norm {
                Some(call) => {
                    let spotter = normalized(call, cfg.spotter.callsign.normalization);
                    &&& h.spotter_deny == cfg.spotter.callsign.deny.matches(spotter)
                    &&& h.spotter_allow == cfg.spotter.callsign.allow.matches(spotter)
                },
                None => !h.spotter_deny && !h.spotter_allow,
            }
            &&& h.comment_deny == cfg.content.comment_deny.matches(comment)
            &&& h.comment_allow == cfg.content.comment_allow.matches(comment)
            &&& cfg.content.split_qsy_regex matches Some(rx) ==> h.split_qsy == regex_matches(
                regex_source(rx),
                comment,
            )
            &&& cfg.content.cq_regex matches Some(rx) ==> h.cq == regex_matches(
                regex_source(rx),
                comment,
            )
            &&& view.dx_geo.grid matches Some(g) ==> h.dx_grid.deny
                == cfg.geo.dx.grid_deny.matches(g) && h.dx_grid.allow
                == cfg.geo.dx.grid_allow.matches(g)
            &&& view.spotter_geo.grid matches Some(g) ==> h.spotter_grid.deny
                == cfg.geo.spotter.grid_deny.matches(g) && h.spotter_grid.allow
                == cfg.geo.spotter.grid_allow.matches(g)
        }),
{
}

/// What is compiled has whole ranges.
pub proof fn lemma_compiled_whole(c: FilterConfigSerde, cfg: FilterConfig)
    requires
        cfg.compiled_from(c),
    ensures
        whole_ranges(cfg),
{
    assert forall|i: int, k: int|
        0 <= i < cfg.rf.profiles@.len() && 0 <= k < cfg.rf.profiles@[i].ranges_hz@.len() implies !(
    #[trigger] cfg.rf.profiles@[i].ranges_hz@[k])@.exhausted by {
        assert(same_ranges(cfg.rf.profiles@[i].ranges_hz@, c.rf.profiles@[i].ranges_hz@));
    }
}

/// A compiled configuration holds what was configured: every list as its own,
/// every switch and policy, and the age and window in seconds.
pub proof fn lemma_configured(c: FilterConfigSerde, cfg: FilterConfig)
    requires
        cfg.compiled_from(c),
    ensures
        cfg.max_age@ == c.max_age_secs * 1_000_000_000,
        c.freq_sanity_hz matches Some((a, b)) ==> cfg.freq_sanity matches Some(r) && r@.start == a
            && r@.end == b,
        c.freq_sanity_hz is None ==> cfg.freq_sanity is None,
        cfg.unknown_policy == c.unknown_policy,
        cfg.rf.band_allow@ == c.rf.band_allow@ && cfg.rf.band_deny@ == c.rf.band_deny@,
        cfg.rf.mode_allow@ == c.rf.mode_allow@ && cfg.rf.mode_deny@ == c.rf.mode_deny@,
        cfg.rf.freq_allow_hz@.len() == c.rf.freq_allow_hz@.len(),
        forall|i: int|
            0 <= i < c.rf.freq_allow_hz@.len() ==> (#[trigger] cfg.rf.freq_allow_hz@[i])@.start
                == c.rf.freq_allow_hz@[i].0 && cfg.rf.freq_allow_hz@[i]@.end
                == c.rf.freq_allow_hz@[i].1,
        cfg.rf.freq_deny_hz@.len() == c.rf.freq_deny_hz@.len(),
        forall|i: int|
            0 <= i < c.rf.freq_deny_hz@.len() ==> (#[trigger] cfg.rf.freq_deny_hz@[i])@.start
                == c.rf.freq_deny_hz@[i].0 && cfg.rf.freq_deny_hz@[i]@.end
                == c.rf.freq_deny_hz@[i].1,
        cfg.rf.profiles@.len() == c.rf.profiles@.len(),
        forall|i: int, k: int|
            0 <= i < c.rf.profiles@.len() && 0 <= k < c.rf.profiles@[i].ranges_hz@.len()
                ==> cfg.rf.profiles@[i].ranges_hz@.len() == c.rf.profiles@[i].ranges_hz@.len() && (
            #[trigger] cfg.rf.profiles@[i].ranges_hz@[k])@.start
                == c.rf.profiles@[i].ranges_hz@[k].0 && cfg.rf.profiles@[i].ranges_hz@[k]@.end
                == c.rf.profiles@[i].ranges_hz@[k].1,
        cfg.dx.normalization == c.dx.normalization,
        cfg.spotter.callsign.normalization == c.spotter.callsign.normalization,
        cfg.spotter.source_allow@ == c.spotter.source_allow@,
        cfg.spotter.source_deny@ == c.spotter.source_deny@,
        cfg.spotter.allow_human == c.spotter.allow_human,
        cfg.spotter.allow_skimmer == c.spotter.allow_skimmer,
        cfg.spotter.allow_unknown_kind == c.spotter.allow_unknown_kind,
        cfg.content.cq_only == c.content.cq_only,
        cfg.content.suppress_split_qsy == c.content.suppress_split_qsy,
        cfg.content.require_comment_when_allowlist_present
            == c.content.require_comment_when_allowlist_present,
        cfg.correlation.originators_human_only == c.correlation.originators_human_only,
        c.correlation.min_unique_originators >= 1 ==> cfg.correlation.min_unique_originators
            == c.correlation.min_unique_originators,
        c.correlation.min_unique_sources >= 1 ==> cfg.correlation.min_unique_sources
            == c.correlation.min_unique_sources,
        c.correlation.min_observations >= 1 ==> cfg.correlation.min_observations
            == c.correlation.min_observations,
        c.correlation.min_repeats_same_key >= 1 ==> cfg.correlation.min_repeats_same_key
            == c.correlation.min_repeats_same_key,
        c.correlation.window_secs >= 1 ==> cfg.correlation.window@ == c.correlation.window_secs
            * 1_000_000_000,
        cfg.skimmer.drop_dupes == c.skimmer.drop_dupes,
        cfg.skimmer.require_cq == c.skimmer.require_cq,
        cfg.geo.require_resolvers == c.geo.require_resolvers,
        cfg.enrichment.lotw == c.enrichment.lotw,
        cfg.enrichment.in_master_db == c.enrichment.in_master_db,
        cfg.enrichment.in_callbook == c.enrichment.in_callbook,
        cfg.enrichment.membership@ == c.enrichment.membership@,
{
    assert forall|i: int, k: int|
        0 <= i < c.rf.profiles@.len() && 0 <= k < c.rf.profiles@[i].ranges_hz@.len() implies
        cfg.rf.profiles@[i].ranges_hz@.len() == c.rf.profiles@[i].ranges_hz@.len() && (
    #[trigger] cfg.rf.profiles@[i].ranges_hz@[k])@.start == c.rf.profiles@[i].ranges_hz@[k].0
        && cfg.rf.profiles@[i].ranges_hz@[k]@.end == c.rf.profiles@[i].ranges_hz@[k].1 by {
        assert(same_ranges(cfg.rf.profiles@[i].ranges_hz@, c.rf.profiles@[i].ranges_hz@));
    }
}

/// The patterns of a compiled configuration match as those configured for the
/// same purpose do.
pub proof fn lemma_configured_patterns(c: FilterConfigSerde, cfg: FilterConfig, text: Seq<char>)
    requires
        cfg.compiled_from(c),
    ensures
        cfg.dx.allow.matches(text) == pattern_hit(c.dx.allow, text),
        cfg.dx.deny.matches(text) == pattern_hit(c.dx.deny, text),
        cfg.spotter.callsign.allow.matches(text) == pattern_hit(c.spotter.callsign.allow, text),
        cfg.spotter.callsign.deny.matches(text) == pattern_hit(c.spotter.callsign.deny, text),
        cfg.content.comment_allow.matches(text) == pattern_hit(c.content.comment_allow, text),
        cfg.content.comment_deny.matches(text) == pattern_hit(c.content.comment_deny, text),
        cfg.geo.dx.grid_allow.matches(text) == pattern_hit(c.geo.dx.grid_allow, text),
        cfg.geo.dx.grid_deny.matches(text) == pattern_hit(c.geo.dx.grid_deny, text),
        cfg.geo.spotter.grid_allow.matches(text) == pattern_hit(c.geo.spotter.grid_allow, text),
        cfg.geo.spotter.grid_deny.matches(text) == pattern_hit(c.geo.spotter.grid_deny, text),
{
}

/// The geographic lists of a compiled configuration are those configured for
/// the same station.
pub proof fn lemma_configured_places(c: EntityFiltersSerde, f: EntityFilters)
    requires
        f.compiled_from(c),
    ensures
        f.continent_allow@ == c.continent_allow@ && f.continent_deny@ == c.continent_deny@,
        f.cq_zone_allow@ == c.cq_zone_allow@ && f.cq_zone_deny@ == c.cq_zone_deny@,
        f.itu_zone_allow@ == c.itu_zone_allow@ && f.itu_zone_deny@ == c.itu_zone_deny@,
        f.entity_allow@ == c.entity_allow@ && f.entity_deny@ == c.entity_deny@,
        f.country_allow@ == c.country_allow@ && f.country_deny@ == c.country_deny@,
        f.state_allow@ == c.state_allow@ && f.state_deny@ == c.state_deny@,
{
}

/// Metric ranges hold the numbers between the two configured ones, in whichever
/// order they were given.
pub proof fn lemma_configured_metrics(c: FilterConfigSerde, cfg: FilterConfig, snr: i8, wpm: u16)
    requires
        cfg.compiled_from(c),
    ensures
        c.skimmer.snr_db matches Some((a, b)) ==> (cfg.skimmer.snr_db matches Some(r) && (r@.start
            <= snr <= r@.end <==> (a <= snr <= b || b <= snr <= a))),
        c.skimmer.wpm matches Some((a, b)) ==> (cfg.skimmer.wpm matches Some(r) && (r@.start <= wpm
            <= r@.end <==> (a <= wpm <= b || b <= wpm <= a))),
        c.skimmer.snr_db is None ==> cfg.skimmer.snr_db is None,
        c.skimmer.wpm is None ==> cfg.skimmer.wpm is None,
{
}

/// A configuration compiles exactly when its age is positive, no frequency range
/// of it is reversed, and every pattern of it compiles.
pub proof fn lemma_compiles_iff(c: FilterConfigSerde)
    ensures
        config_error(c) is None <==> {
            &&& c.max_age_secs > 0
            &&& c.freq_sanity_hz matches Some((a, b)) ==> a <= b
            &&& forall|i: int|
                0 <= i < c.rf.freq_allow_hz@.len() ==> (#[trigger] c.rf.freq_allow_hz@[i]).0
                    <= c.rf.freq_allow_hz@[i].1
            &&& forall|i: int|
                0 <= i < c.rf.freq_deny_hz@.len() ==> (#[trigger] c.rf.freq_deny_hz@[i]).0
                    <= c.rf.freq_deny_hz@[i].1
            &&& forall|i: int, k: int|
                0 <= i < c.rf.profiles@.len() && 0 <= k < c.rf.profiles@[i].ranges_hz@.len() ==> (
                #[trigger] c.rf.profiles@[i].ranges_hz@[k]).0 <= c.rf.profiles@[i].ranges_hz@[k].1
            &&& pattern_error(c.dx.allow) is None && pattern_error(c.dx.deny) is None
            &&& pattern_error(c.spotter.callsign.allow) is None
            &&& pattern_error(c.spotter.callsign.deny) is None
            &&& pattern_error(c.content.comment_allow) is None
            &&& pattern_error(c.content.comment_deny) is None
            &&& c.content.suppress_split_qsy ==> regex_error(split_qsy_pattern()) is None
            &&& c.content.cq_only ==> regex_error(cq_pattern()) is None
            &&& pattern_error(c.geo.dx.grid_allow) is None
            &&& pattern_error(c.geo.dx.grid_deny) is None
            &&& pattern_error(c.geo.spotter.grid_allow) is None
            &&& pattern_error(c.geo.spotter.grid_deny) is None
        },
{
    lemma_first_reversed(c.rf.freq_allow_hz@);
    lemma_first_reversed(c.rf.freq_deny_hz@);
    lemma_profiles_reversed(c.rf.profiles@);
}

proof fn lemma_profiles_reversed(profiles: Seq<RfProfileSerde>)
    ensures
        first_reversed_profile(profiles) is None <==> forall|i: int, k: int|
            0 <= i < profiles.len() && 0 <= k < profiles[i].ranges_hz@.len() ==> (
            #[trigger] profiles[i].ranges_hz@[k]).0 <= profiles[i].ranges_hz@[k].1,
    decreases profiles.len(),
{
    if profiles.len() > 0 {
        let rest = profiles.skip(1);
        lemma_first_reversed(profiles[0].ranges_hz@);
        lemma_profiles_reversed(rest);
        assert forall|i: int| 0 <= i < rest.len() implies #[trigger] rest[i] == profiles[i + 1] by {}
        if first_reversed_profile(profiles) is None {
            assert forall|i: int, k: int|
                0 <= i < profiles.len() && 0 <= k < profiles[i].ranges_hz@.len() implies (
            #[trigger] profiles[i].ranges_hz@[k]).0 <= profiles[i].ranges_hz@[k].1 by {
                if i > 0 {
                    assert(rest[i - 1] == profiles[i]);
                    assert(rest[i - 1].ranges_hz@[k].0 <= rest[i - 1].ranges_hz@[k].1);
                }
            }
        }
        if forall|i: int, k: int|
            0 <= i < profiles.len() && 0 <= k < profiles[i].ranges_hz@.len() ==> (
            #[trigger] profiles[i].ranges_hz@[k]).0 <= profiles[i].ranges_hz@[k].1 {
            assert forall|k: int| 0 <= k < profiles[0].ranges_hz@.len() implies (
            #[trigger] profiles[0].ranges_hz@[k]).0 <= profiles[0].ranges_hz@[k].1 by {}
            assert forall|i: int, k: int|
                0 <= i < rest.len() && 0 <= k < rest[i].ranges_hz@.len() implies (
            #[trigger] rest[i].ranges_hz@[k]).0 <= rest[i].ranges_hz@[k].1 by {
                assert(profiles[i + 1].ranges_hz@[k].0 <= profiles[i + 1].ranges_hz@[k].1);
            }
        }
    }
}

} // verus!
