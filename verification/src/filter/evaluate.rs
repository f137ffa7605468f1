//! Deterministic filter evaluation.
//!
//! The `evaluate()` function is the hot path: it is called for every spot
//! state change in the aggregator.
//!
//! **Important:** Skimmer gating (SkimValid/Busted/Qsy/Unknown) is handled
//! by the aggregator *before* calling this function. This function only
//! applies the general filter pipeline.
//!
//! Evaluation order:
//! 1. Age
//! 2. Frequency sanity + RF (band/mode/freq ranges/profiles)
//! 3. DX callsign allow/deny
//! 4. Spotter/originator kind + source + call
//! 5. Content/comment
//! 6. Correlation thresholds
//! 7. Skimmer metrics
//! 8. Geo/entity
//! 9. Enrichment

use crate::callsign::{normalize_callsign, normalized};
use crate::domain::{Band, Continent, DxMode, OriginatorKind, TriState, UnknownFieldPolicy};
use crate::filter::compiled::{CallsignFilters, EntityFilters, FilterConfig};
use crate::filter::config::{FilterConfigSerde, MembershipRuleSerde};
use crate::filter::decision::{FilterDecision, FilterDropReason};
use crate::filter::pattern::{lemma_no_patterns, regex_is_match, regex_matches, regex_source};
use crate::model::{opt_str, GeoModel, GeoResolved, SpotView, ViewModel};
use crate::sets::ValueSet;
use regex::Regex;
use std::ops::RangeInclusive;
use vstd::prelude::*;
use vstd::string::*;

verus! {

// ---------------------------------------------------------------------------
// What the patterns say of a spot
// ---------------------------------------------------------------------------

/// Which patterns of a configuration match a spot. Callsigns are normalized as
/// the configuration says before they are matched. A field that the spot does
/// not have is matched by nothing; a missing comment is an empty one.
#[derive(Debug, Clone, Copy, PartialEq, Eq, Structural)]
pub struct PatternHits {
    pub dx_deny: bool,
    pub dx_allow: bool,
    pub spotter_deny: bool,
    pub spotter_allow: bool,
    pub split_qsy: bool,
    pub cq: bool,
    pub comment_deny: bool,
    pub comment_allow: bool,
    pub dx_grid: GridHits,
    pub spotter_grid: GridHits,
}

/// Which grid patterns match the grid of one station.
#[derive(Debug, Clone, Copy, PartialEq, Eq, Structural)]
pub struct GridHits {
    pub deny: bool,
    pub allow: bool,
}

/// The comment of a spot, empty where it has none.
pub open spec fn comment_of(view: ViewModel) -> Seq<char> {
    match view.comment {
        Some(c) => c,
        None => Seq::empty(),
    }
}

/// A compiled helper expression is there and matches.
pub open spec fn helper_hit(regex: Option<Regex>, text: Seq<char>) -> bool {
    match regex {
        Some(rx) => regex_matches(regex_source(rx), text),
        None => false,
    }
}

/// The grid hits of one station.
pub open spec fn grid_hits_of(geo: GeoModel, f: EntityFilters) -> GridHits {
    match geo.grid {
        Some(grid) => GridHits {
            deny: f.grid_deny.matches(grid),
            allow: f.grid_allow.matches(grid),
        },
        None => GridHits { deny: false, allow: false },
    }
}

/// The callsign, normalized as the rules say, matches their denylist.
pub open spec fn call_denied(f: CallsignFilters, call: Seq<char>) -> bool {
    f.deny.matches(normalized(call, f.normalization))
}

/// The callsign, normalized as the rules say, matches their allowlist.
pub open spec fn call_allowed(f: CallsignFilters, call: Seq<char>) -> bool {
    f.allow.matches(normalized(call, f.normalization))
}

/// Which patterns of `cfg` match `view`.
pub open spec fn hits_of(view: ViewModel, cfg: FilterConfig) -> PatternHits {
    PatternHits {
        dx_deny: call_denied(cfg.dx, view.dx_call_norm),
        dx_allow: call_allowed(cfg.dx, view.dx_call_norm),
        spotter_deny: match view.spotter_call_norm {
            Some(call) => call_denied(cfg.spotter.callsign, call),
            None => false,
        },
        spotter_allow: match view.spotter_call_norm {
            Some(call) => call_allowed(cfg.spotter.callsign, call),
            None => false,
        },
        split_qsy: helper_hit(cfg.content.split_qsy_regex, comment_of(view)),
        cq: helper_hit(cfg.content.cq_regex, comment_of(view)),
        comment_deny: cfg.content.comment_deny.matches(comment_of(view)),
        comment_allow: cfg.content.comment_allow.matches(comment_of(view)),
        dx_grid: grid_hits_of(view.dx_geo, cfg.geo.dx),
        spotter_grid: grid_hits_of(view.spotter_geo, cfg.geo.spotter),
    }
}

// ---------------------------------------------------------------------------
// What each stage decides
// ---------------------------------------------------------------------------

/// Drop for `reason` where `bad`, else allow.
pub open spec fn drop_if(bad: bool, reason: FilterDropReason) -> FilterDecision {
    if bad {
        FilterDecision::Drop(reason)
    } else {
        FilterDecision::Allow
    }
}

/// The first of the decisions that drops, `Allow` where none does.
pub open spec fn first_drop(stages: Seq<FilterDecision>) -> FilterDecision
    decreases stages.len(),
{
    if stages.len() == 0 {
        FilterDecision::Allow
    } else if stages[0] is Drop {
        stages[0]
    } else {
        first_drop(stages.skip(1))
    }
}

/// What an unknown field decides. In front of an allowlist it is dropped
/// unless unknown fields pass; in front of a denylist it passes unless unknown
/// fields are refused.
pub open spec fn unknown_decision(policy: UnknownFieldPolicy, allowlist: bool) -> FilterDecision {
    drop_if(
        match policy {
            UnknownFieldPolicy::Neutral => allowlist,
            UnknownFieldPolicy::FailClosed => true,
            UnknownFieldPolicy::FailOpen => false,
        },
        FilterDropReason::UnknownFieldFailed,
    )
}

/// What a pair of lists decides of a field: deny before allow, an empty
/// allowlist accepts everything. `membership` says whether the field is in the
/// denylist and in the allowlist, `None` where the field is unknown.
pub open spec fn listed(
    membership: Option<(bool, bool)>,
    has_deny: bool,
    has_allow: bool,
    policy: UnknownFieldPolicy,
    deny_reason: FilterDropReason,
    allow_reason: FilterDropReason,
) -> FilterDecision {
    match membership {
        Some((in_deny, in_allow)) => if in_deny {
            FilterDecision::Drop(deny_reason)
        } else {
            drop_if(has_allow && !in_allow, allow_reason)
        },
        None => if has_allow || has_deny {
            unknown_decision(policy, has_allow)
        } else {
            FilterDecision::Allow
        },
    }
}

/// `x` lies in the range.
pub open spec fn range_has(r: RangeInclusive<u64>, x: u64) -> bool {
    r@.start <= x && if r@.exhausted {
        x < r@.end
    } else {
        x <= r@.end
    }
}

/// `x` lies in the range of signal-to-noise ratios.
pub open spec fn snr_range_has(r: RangeInclusive<i8>, x: i8) -> bool {
    r@.start <= x && if r@.exhausted {
        x < r@.end
    } else {
        x <= r@.end
    }
}

/// `x` lies in the range of speeds.
pub open spec fn wpm_range_has(r: RangeInclusive<u16>, x: u16) -> bool {
    r@.start <= x && if r@.exhausted {
        x < r@.end
    } else {
        x <= r@.end
    }
}

/// `x` lies in some range of the list.
pub open spec fn some_range_has(ranges: Seq<RangeInclusive<u64>>, x: u64) -> bool {
    exists|i: int| 0 <= i < ranges.len() && range_has(#[trigger] ranges[i], x)
}

/// Too old: seen longer ago than the maximum age.
pub open spec fn age_stage(view: ViewModel, cfg: FilterConfig) -> FilterDecision {
    let age = view.now - view.last_seen;
    drop_if(age >= 0 && age > cfg.max_age@, FilterDropReason::TooOld)
}

/// Outside the sanity bounds.
pub open spec fn sanity_stage(view: ViewModel, cfg: FilterConfig) -> FilterDecision {
    match cfg.freq_sanity {
        Some(r) => drop_if(!range_has(r, view.freq_hz), FilterDropReason::FreqOutOfRange),
        None => FilterDecision::Allow,
    }
}

/// Band rules.
pub open spec fn band_stage(view: ViewModel, cfg: FilterConfig) -> FilterDecision {
    listed(
        Some((cfg.rf.band_deny@.contains(view.band), cfg.rf.band_allow@.contains(view.band))),
        cfg.rf.band_deny@ != Set::<Band>::empty(),
        cfg.rf.band_allow@ != Set::<Band>::empty(),
        cfg.unknown_policy,
        FilterDropReason::BandDenied,
        FilterDropReason::BandDenied,
    )
}

/// Mode rules.
pub open spec fn mode_stage(view: ViewModel, cfg: FilterConfig) -> FilterDecision {
    listed(
        Some((cfg.rf.mode_deny@.contains(view.mode), cfg.rf.mode_allow@.contains(view.mode))),
        cfg.rf.mode_deny@ != Set::<DxMode>::empty(),
        cfg.rf.mode_allow@ != Set::<DxMode>::empty(),
        cfg.unknown_policy,
        FilterDropReason::ModeDenied,
        FilterDropReason::ModeDenied,
    )
}

/// Frequency range rules.
pub open spec fn freq_stage(view: ViewModel, cfg: FilterConfig) -> FilterDecision {
    listed(
        Some(
            (
                some_range_has(cfg.rf.freq_deny_hz@, view.freq_hz),
                some_range_has(cfg.rf.freq_allow_hz@, view.freq_hz),
            ),
        ),
        cfg.rf.freq_deny_hz@.len() > 0,
        cfg.rf.freq_allow_hz@.len() > 0,
        cfg.unknown_policy,
        FilterDropReason::FreqDenied,
        FilterDropReason::FreqNotAllowed,
    )
}

/// Where there are profiles, some profile holds the frequency.
pub open spec fn profile_stage(view: ViewModel, cfg: FilterConfig) -> FilterDecision {
    drop_if(
        cfg.rf.profiles@.len() > 0 && !exists|i: int|
            0 <= i < cfg.rf.profiles@.len() && some_range_has(
                (#[trigger] cfg.rf.profiles@[i]).ranges_hz@,
                view.freq_hz,
            ),
        FilterDropReason::ProfileNoMatch,
    )
}

/// DX callsign rules.
pub open spec fn dx_stage(cfg: FilterConfig, hits: PatternHits) -> FilterDecision {
    listed(
        Some((hits.dx_deny, hits.dx_allow)),
        !cfg.dx.deny.no_patterns(),
        !cfg.dx.allow.no_patterns(),
        cfg.unknown_policy,
        FilterDropReason::DxCallDenied,
        FilterDropReason::DxCallNotAllowed,
    )
}

/// Which kinds of originator are accepted.
pub open spec fn kind_stage(view: ViewModel, cfg: FilterConfig) -> FilterDecision {
    drop_if(
        match view.originator_kind {
            OriginatorKind::Human => !cfg.spotter.allow_human,
            OriginatorKind::Skimmer => !cfg.spotter.allow_skimmer,
            OriginatorKind::Unknown => !cfg.spotter.allow_unknown_kind,
        },
        FilterDropReason::OriginatorKindDenied,
    )
}

/// Source rules.
pub open spec fn source_stage(view: ViewModel, cfg: FilterConfig) -> FilterDecision {
    listed(
        match view.spotter_source_id {
            Some(s) => Some(
                (cfg.spotter.source_deny@.contains(s), cfg.spotter.source_allow@.contains(s)),
            ),
            None => None,
        },
        cfg.spotter.source_deny@ != Set::<Seq<char>>::empty(),
        cfg.spotter.source_allow@ != Set::<Seq<char>>::empty(),
        cfg.unknown_policy,
        FilterDropReason::SpotterDenied,
        FilterDropReason::SpotterNotAllowed,
    )
}

/// Spotter callsign rules.
pub open spec fn spotter_stage(
    view: ViewModel,
    cfg: FilterConfig,
    hits: PatternHits,
) -> FilterDecision {
    listed(
        match view.spotter_call_norm {
            Some(_) => Some((hits.spotter_deny, hits.spotter_allow)),
            None => None,
        },
        !cfg.spotter.callsign.deny.no_patterns(),
        !cfg.spotter.callsign.allow.no_patterns(),
        cfg.unknown_policy,
        FilterDropReason::SpotterDenied,
        FilterDropReason::SpotterNotAllowed,
    )
}

/// Split/QSY suppression.
pub open spec fn split_stage(cfg: FilterConfig, hits: PatternHits) -> FilterDecision {
    drop_if(
        cfg.content.suppress_split_qsy && hits.split_qsy,
        FilterDropReason::SplitQsySuppressed,
    )
}

/// CQ only.
pub open spec fn cq_stage(
    view: ViewModel,
    cfg: FilterConfig,
    hits: PatternHits,
) -> FilterDecision {
    drop_if(
        cfg.content.cq_only && !view.is_skimmer_cq && !hits.cq,
        FilterDropReason::CqRequired,
    )
}

/// Comment rules. A spot without a comment fails the allowlist exactly where a
/// comment is required.
pub open spec fn comment_stage(
    view: ViewModel,
    cfg: FilterConfig,
    hits: PatternHits,
) -> FilterDecision {
    if hits.comment_deny {
        FilterDecision::Drop(FilterDropReason::CommentDenied)
    } else {
        drop_if(
            !cfg.content.comment_allow.no_patterns() && if comment_of(view).len() == 0 {
                cfg.content.require_comment_when_allowlist_present
            } else {
                !hits.comment_allow
            },
            FilterDropReason::CommentNotAllowed,
        )
    }
}

/// Correlation thresholds.
pub open spec fn correlation_stage(view: ViewModel, cfg: FilterConfig) -> FilterDecision {
    let originators = if cfg.correlation.originators_human_only {
        view.unique_human_originators
    } else {
        view.unique_originators
    };
    drop_if(
        originators < cfg.correlation.min_unique_originators || view.unique_sources
            < cfg.correlation.min_unique_sources || view.total_observations_in_window
            < cfg.correlation.min_observations || view.repeats_same_key_in_window
            < cfg.correlation.min_repeats_same_key,
        FilterDropReason::CorrelationNotMet,
    )
}

/// What a metric range decides: inside passes, outside drops, and an unknown
/// metric is dropped only where unknown fields are refused.
pub open spec fn metric_decision(
    inside: Option<bool>,
    policy: UnknownFieldPolicy,
) -> FilterDecision {
    match inside {
        Some(ok) => drop_if(!ok, FilterDropReason::SkimmerMetricNotMet),
        None => drop_if(
            policy == UnknownFieldPolicy::FailClosed,
            FilterDropReason::UnknownFieldFailed,
        ),
    }
}

/// The rules on skimmer metrics, in order.
pub open spec fn skimmer_stages(view: ViewModel, cfg: FilterConfig) -> Seq<FilterDecision> {
    seq![
        drop_if(
            cfg.skimmer.drop_dupes && view.is_skimmer_dupe,
            FilterDropReason::SkimmerMetricNotMet,
        ),
        drop_if(
            cfg.skimmer.require_cq && !view.is_skimmer_cq,
            FilterDropReason::SkimmerMetricNotMet,
        ),
        match cfg.skimmer.snr_db {
            Some(r) => metric_decision(
                match view.snr_db {
                    Some(snr) => Some(snr_range_has(r, snr)),
                    None => None,
                },
                cfg.unknown_policy,
            ),
            None => FilterDecision::Allow,
        },
        match cfg.skimmer.wpm {
            Some(r) => metric_decision(
                match view.wpm {
                    Some(wpm) => Some(wpm_range_has(r, wpm)),
                    None => None,
                },
                cfg.unknown_policy,
            ),
            None => FilterDecision::Allow,
        },
    ]
}

/// Skimmer metrics; spots of other originators pass.
pub open spec fn skimmer_stage(view: ViewModel, cfg: FilterConfig) -> FilterDecision {
    if view.originator_kind != OriginatorKind::Skimmer {
        FilterDecision::Allow
    } else {
        first_drop(skimmer_stages(view, cfg))
    }
}

/// A geographic rule pair: either list drops for the same reason.
pub open spec fn geo_listed(
    membership: Option<(bool, bool)>,
    has_deny: bool,
    has_allow: bool,
    policy: UnknownFieldPolicy,
) -> FilterDecision {
    listed(
        membership,
        has_deny,
        has_allow,
        policy,
        FilterDropReason::GeoNotMet,
        FilterDropReason::GeoNotMet,
    )
}

/// A geographic rule pair over a field that is told apart by its text.
pub open spec fn text_listed(
    field: Option<Seq<char>>,
    deny: Set<Seq<char>>,
    allow: Set<Seq<char>>,
    policy: UnknownFieldPolicy,
) -> FilterDecision {
    geo_listed(
        match field {
            Some(v) => Some((deny.contains(v), allow.contains(v))),
            None => None,
        },
        deny != Set::<Seq<char>>::empty(),
        allow != Set::<Seq<char>>::empty(),
        policy,
    )
}

/// A geographic rule pair over zones.
pub open spec fn zone_listed(
    field: Option<u8>,
    deny: Set<u8>,
    allow: Set<u8>,
    policy: UnknownFieldPolicy,
) -> FilterDecision {
    geo_listed(
        match field {
            Some(v) => Some((deny.contains(v), allow.contains(v))),
            None => None,
        },
        deny != Set::<u8>::empty(),
        allow != Set::<u8>::empty(),
        policy,
    )
}

/// The geographic rules for one station, in order.
pub open spec fn entity_stages(
    res: GeoModel,
    f: EntityFilters,
    policy: UnknownFieldPolicy,
    hits: GridHits,
) -> Seq<FilterDecision> {
    seq![
        geo_listed(
            match res.continent {
                Some(c) => Some((f.continent_deny@.contains(c), f.continent_allow@.contains(c))),
                None => None,
            },
            f.continent_deny@ != Set::<Continent>::empty(),
            f.continent_allow@ != Set::<Continent>::empty(),
            policy,
        ),
        zone_listed(res.cq_zone, f.cq_zone_deny@, f.cq_zone_allow@, policy),
        zone_listed(res.itu_zone, f.itu_zone_deny@, f.itu_zone_allow@, policy),
        text_listed(res.entity, f.entity_deny@, f.entity_allow@, policy),
        text_listed(res.country, f.country_deny@, f.country_allow@, policy),
        text_listed(res.state, f.state_deny@, f.state_allow@, policy),
        if f.grid_deny.no_patterns() && f.grid_allow.no_patterns() {
            FilterDecision::Allow
        } else {
            geo_listed(
                match res.grid {
                    Some(_) => Some((hits.deny, hits.allow)),
                    None => None,
                },
                !f.grid_deny.no_patterns(),
                !f.grid_allow.no_patterns(),
                policy,
            )
        },
    ]
}

/// What the geographic rules decide of one station.
pub open spec fn entity_decision(
    res: GeoModel,
    f: EntityFilters,
    policy: UnknownFieldPolicy,
    hits: GridHits,
) -> FilterDecision {
    first_drop(entity_stages(res, f, policy, hits))
}

/// Entity data of the DX station, where it is required.
pub open spec fn resolved_stage(view: ViewModel, cfg: FilterConfig) -> FilterDecision {
    if cfg.geo.require_resolvers && view.dx_geo.entity is None && view.dx_geo.country is None {
        unknown_decision(cfg.unknown_policy, true)
    } else {
        FilterDecision::Allow
    }
}

/// The geographic rules, in order: entity data where it is required, then both
/// stations.
pub open spec fn geo_stages(view: ViewModel, cfg: FilterConfig, hits: PatternHits) -> Seq<
    FilterDecision,
> {
    seq![
        resolved_stage(view, cfg),
        entity_decision(view.dx_geo, cfg.geo.dx, cfg.unknown_policy, hits.dx_grid),
        entity_decision(view.spotter_geo, cfg.geo.spotter, cfg.unknown_policy, hits.spotter_grid),
    ]
}

/// Geographic rules.
pub open spec fn geo_stage(
    view: ViewModel,
    cfg: FilterConfig,
    hits: PatternHits,
) -> FilterDecision {
    first_drop(geo_stages(view, cfg, hits))
}

/// What a three-state rule decides of a flag.
pub open spec fn tristate_decision(
    value: Option<bool>,
    rule: TriState,
    policy: UnknownFieldPolicy,
) -> FilterDecision {
    match rule {
        TriState::Any => FilterDecision::Allow,
        _ => match value {
            Some(v) => drop_if(
                v != (rule == TriState::RequireTrue),
                FilterDropReason::EnrichmentNotMet,
            ),
            None => unknown_decision(policy, true),
        },
    }
}

/// A membership rule holds of the memberships.
pub open spec fn rule_holds(rule: MembershipRuleSerde, have: Set<Seq<char>>) -> bool {
    match rule {
        MembershipRuleSerde::Require(tag) => have.contains(tag@),
        MembershipRuleSerde::Deny(tag) => !have.contains(tag@),
    }
}

/// Some membership rule requires a membership.
pub open spec fn some_required(rules: Seq<MembershipRuleSerde>) -> bool {
    exists|i: int| 0 <= i < rules.len() && #[trigger] rules[i] is Require
}

/// What the membership rules decide: all must hold. Unknown memberships stand
/// in front of an allowlist where some membership is required, else in front of
/// a denylist.
pub open spec fn membership_decision(
    have: Option<Set<Seq<char>>>,
    rules: Seq<MembershipRuleSerde>,
    policy: UnknownFieldPolicy,
) -> FilterDecision {
    if rules.len() == 0 {
        FilterDecision::Allow
    } else {
        match have {
            Some(set) => drop_if(
                exists|i: int| 0 <= i < rules.len() && !rule_holds(#[trigger] rules[i], set),
                FilterDropReason::EnrichmentNotMet,
            ),
            None => unknown_decision(policy, some_required(rules)),
        }
    }
}

/// The enrichment rules, in order.
pub open spec fn enrichment_stages(view: ViewModel, cfg: FilterConfig) -> Seq<FilterDecision> {
    seq![
        tristate_decision(view.lotw, cfg.enrichment.lotw, cfg.unknown_policy),
        tristate_decision(view.in_master_db, cfg.enrichment.in_master_db, cfg.unknown_policy),
        tristate_decision(view.in_callbook, cfg.enrichment.in_callbook, cfg.unknown_policy),
        membership_decision(
            view.memberships,
            cfg.enrichment.membership@,
            cfg.unknown_policy,
        ),
    ]
}

/// Enrichment rules.
pub open spec fn enrichment_stage(view: ViewModel, cfg: FilterConfig) -> FilterDecision {
    first_drop(enrichment_stages(view, cfg))
}

/// The stages of evaluation, in order.
pub open spec fn stages(view: ViewModel, cfg: FilterConfig, hits: PatternHits) -> Seq<
    FilterDecision,
> {
    seq![
        age_stage(view, cfg),
        sanity_stage(view, cfg),
        band_stage(view, cfg),
        mode_stage(view, cfg),
        freq_stage(view, cfg),
        profile_stage(view, cfg),
        dx_stage(cfg, hits),
        kind_stage(view, cfg),
        source_stage(view, cfg),
        spotter_stage(view, cfg, hits),
        split_stage(cfg, hits),
        cq_stage(view, cfg, hits),
        comment_stage(view, cfg, hits),
        correlation_stage(view, cfg),
        skimmer_stage(view, cfg),
        geo_stage(view, cfg, hits),
        enrichment_stage(view, cfg),
    ]
}

/// The decision on a spot: that of the first stage that drops it.
pub open spec fn decision(
    view: ViewModel,
    cfg: FilterConfig,
    hits: PatternHits,
) -> FilterDecision {
    first_drop(stages(view, cfg, hits))
}

// ---------------------------------------------------------------------------
// Laws
// ---------------------------------------------------------------------------

/// Evaluation stops at the first failure: the decision is `Allow` exactly when
/// every stage allows, and otherwise it is that of a stage before which all allow.
pub proof fn lemma_first_drop(list: Seq<FilterDecision>)
    ensures
        first_drop(list) == FilterDecision::Allow <==> forall|i: int|
            0 <= i < list.len() ==> #[trigger] list[i] == FilterDecision::Allow,
        first_drop(list) is Drop ==> exists|k: int|
            0 <= k < list.len() && list[k] == first_drop(list) && forall|i: int|
                0 <= i < k ==> #[trigger] list[i] == FilterDecision::Allow,
    decreases list.len(),
{
    if list.len() > 0 {
        let rest = list.skip(1);
        lemma_first_drop(rest);
        if list[0] is Drop {
            assert(list[0] == first_drop(list));
        } else {
            if first_drop(rest) is Drop {
                let k = choose|k: int|
                    0 <= k < rest.len() && rest[k] == first_drop(rest) && forall|i: int|
                        0 <= i < k ==> #[trigger] rest[i] == FilterDecision::Allow;
                assert(list[k + 1] == first_drop(list));
                assert forall|i: int| 0 <= i < k + 1 implies #[trigger] list[i]
                    == FilterDecision::Allow by {
                    if i > 0 {
                        assert(rest[i - 1] == list[i]);
                    }
                }
            } else {
                assert forall|i: int| 0 <= i < list.len() implies #[trigger] list[i]
                    == FilterDecision::Allow by {
                    if i > 0 {
                        assert(rest[i - 1] == list[i]);
                    }
                }
            }
        }
    }
}

/// Deny is checked before allow: a field in the denylist is dropped whatever
/// the allowlist says.
pub proof fn lemma_deny_wins(
    in_allow: bool,
    has_deny: bool,
    has_allow: bool,
    policy: UnknownFieldPolicy,
    deny_reason: FilterDropReason,
    allow_reason: FilterDropReason,
)
    ensures
        listed(Some((true, in_allow)), has_deny, has_allow, policy, deny_reason, allow_reason)
            == FilterDecision::Drop(deny_reason),
{
}

/// Some denylist holds a value of the spot.
pub open spec fn denied(view: ViewModel, cfg: FilterConfig, hits: PatternHits) -> bool {
    ||| cfg.rf.band_deny@.contains(view.band)
    ||| cfg.rf.mode_deny@.contains(view.mode)
    ||| some_range_has(cfg.rf.freq_deny_hz@, view.freq_hz)
    ||| hits.dx_deny
    ||| view.spotter_source_id matches Some(s) && cfg.spotter.source_deny@.contains(s)
    ||| view.spotter_call_norm is Some && hits.spotter_deny
    ||| hits.comment_deny
}

/// Some allowlist that is not empty lacks a value of the spot.
pub open spec fn left_out(view: ViewModel, cfg: FilterConfig, hits: PatternHits) -> bool {
    ||| cfg.rf.band_allow@ != Set::<Band>::empty() && !cfg.rf.band_allow@.contains(view.band)
    ||| cfg.rf.mode_allow@ != Set::<DxMode>::empty() && !cfg.rf.mode_allow@.contains(view.mode)
    ||| cfg.rf.freq_allow_hz@.len() > 0 && !some_range_has(cfg.rf.freq_allow_hz@, view.freq_hz)
    ||| !cfg.dx.allow.no_patterns() && !hits.dx_allow
    ||| cfg.spotter.source_allow@ != Set::<Seq<char>>::empty() && (
    view.spotter_source_id matches Some(s) && !cfg.spotter.source_allow@.contains(s))
    ||| !cfg.spotter.callsign.allow.no_patterns() && view.spotter_call_norm is Some
        && !hits.spotter_allow
    ||| !cfg.content.comment_allow.no_patterns() && comment_of(view).len() > 0
        && !hits.comment_allow
}

/// A spot with a value in a denylist is dropped, and so is one with a value
/// that is missing in an allowlist, whatever the other rules say.
pub proof fn lemma_lists_bind(view: ViewModel, cfg: FilterConfig, hits: PatternHits)
    requires
        denied(view, cfg, hits) || left_out(view, cfg, hits),
    ensures
        decision(view, cfg, hits) is Drop,
{
    let list = stages(view, cfg, hits);
    lemma_first_drop(list);
    assert(list[2] == band_stage(view, cfg));
    assert(list[3] == mode_stage(view, cfg));
    assert(list[4] == freq_stage(view, cfg));
    assert(list[6] == dx_stage(cfg, hits));
    assert(list[8] == source_stage(view, cfg));
    assert(list[9] == spotter_stage(view, cfg, hits));
    assert(list[12] == comment_stage(view, cfg, hits));
}

/// Some denylist holds a geographic value of the station.
pub open spec fn place_denied(res: GeoModel, f: EntityFilters, hits: GridHits) -> bool {
    ||| res.continent matches Some(c) && f.continent_deny@.contains(c)
    ||| res.cq_zone matches Some(z) && f.cq_zone_deny@.contains(z)
    ||| res.itu_zone matches Some(z) && f.itu_zone_deny@.contains(z)
    ||| res.entity matches Some(e) && f.entity_deny@.contains(e)
    ||| res.country matches Some(c) && f.country_deny@.contains(c)
    ||| res.state matches Some(s) && f.state_deny@.contains(s)
    ||| res.grid is Some && !f.grid_deny.no_patterns() && hits.deny
}

/// Some allowlist that is not empty lacks a geographic value of the station.
pub open spec fn place_left_out(res: GeoModel, f: EntityFilters, hits: GridHits) -> bool {
    ||| f.continent_allow@ != Set::<Continent>::empty() && (res.continent matches Some(c)
        && !f.continent_allow@.contains(c))
    ||| f.cq_zone_allow@ != Set::<u8>::empty() && (res.cq_zone matches Some(z)
        && !f.cq_zone_allow@.contains(z))
    ||| f.itu_zone_allow@ != Set::<u8>::empty() && (res.itu_zone matches Some(z)
        && !f.itu_zone_allow@.contains(z))
    ||| f.entity_allow@ != Set::<Seq<char>>::empty() && (res.entity matches Some(e)
        && !f.entity_allow@.contains(e))
    ||| f.country_allow@ != Set::<Seq<char>>::empty() && (res.country matches Some(c)
        && !f.country_allow@.contains(c))
    ||| f.state_allow@ != Set::<Seq<char>>::empty() && (res.state matches Some(s)
        && !f.state_allow@.contains(s))
    ||| !f.grid_allow.no_patterns() && res.grid is Some && !hits.allow
}

/// The lists refuse the station for where it is.
pub open spec fn place_refused(res: GeoModel, f: EntityFilters, hits: GridHits) -> bool {
    place_denied(res, f, hits) || place_left_out(res, f, hits)
}

/// A spot of, or by, a station in a place that a denylist holds is dropped, and
/// so is one in a place that is missing in an allowlist.
pub proof fn lemma_places_bind(view: ViewModel, cfg: FilterConfig, hits: PatternHits)
    requires
        place_refused(view.dx_geo, cfg.geo.dx, hits.dx_grid) || place_refused(
            view.spotter_geo,
            cfg.geo.spotter,
            hits.spotter_grid,
        ),
    ensures
        decision(view, cfg, hits) is Drop,
{
    let list = stages(view, cfg, hits);
    lemma_first_drop(list);
    assert(list[15] == geo_stage(view, cfg, hits));
    let geo = geo_stages(view, cfg, hits);
    lemma_first_drop(geo);
    lemma_place_binds(view.dx_geo, cfg.geo.dx, cfg.unknown_policy, hits.dx_grid);
    lemma_place_binds(view.spotter_geo, cfg.geo.spotter, cfg.unknown_policy, hits.spotter_grid);
    assert(geo[1] is Drop || geo[2] is Drop);
}

/// A station that the lists refuse for where it is is dropped.
proof fn lemma_place_binds(
    res: GeoModel,
    f: EntityFilters,
    policy: UnknownFieldPolicy,
    hits: GridHits,
)
    ensures
        place_refused(res, f, hits) ==> entity_decision(res, f, policy, hits) is Drop,
{
    let list = entity_stages(res, f, policy, hits);
    lemma_first_drop(list);
    assert(list[1] == zone_listed(res.cq_zone, f.cq_zone_deny@, f.cq_zone_allow@, policy));
    assert(list[2] == zone_listed(res.itu_zone, f.itu_zone_deny@, f.itu_zone_allow@, policy));
    assert(list[3] == text_listed(res.entity, f.entity_deny@, f.entity_allow@, policy));
    assert(list[4] == text_listed(res.country, f.country_deny@, f.country_allow@, policy));
    assert(list[5] == text_listed(res.state, f.state_deny@, f.state_allow@, policy));
    if place_refused(res, f, hits) {
        assert(list[0] is Drop || list[1] is Drop || list[2] is Drop || list[3] is Drop || list[4]
            is Drop || list[5] is Drop || list[6] is Drop);
    }
}

/// Without lists every field passes, known or not.
pub proof fn lemma_no_lists_pass(
    known: bool,
    policy: UnknownFieldPolicy,
    deny_reason: FilterDropReason,
    allow_reason: FilterDropReason,
)
    ensures
        listed(
            if known { Some((false, false)) } else { None },
            false,
            false,
            policy,
            deny_reason,
            allow_reason,
        ) == FilterDecision::Allow,
{
}

/// Unknown fields always pass under `FailOpen` and never do under
/// `FailClosed`, in front of every list; under `Neutral` allowlists drop them
/// and denylists let them pass.
pub proof fn lemma_unknown_policies(
    has_deny: bool,
    has_allow: bool,
    deny_reason: FilterDropReason,
    allow_reason: FilterDropReason,
)
    requires
        has_deny || has_allow,
    ensures
        listed(
            None,
            has_deny,
            has_allow,
            UnknownFieldPolicy::FailOpen,
            deny_reason,
            allow_reason,
        ) == FilterDecision::Allow,
        listed(
            None,
            has_deny,
            has_allow,
            UnknownFieldPolicy::FailClosed,
            deny_reason,
            allow_reason,
        ) == FilterDecision::Drop(FilterDropReason::UnknownFieldFailed),
        listed(
            None,
            has_deny,
            has_allow,
            UnknownFieldPolicy::Neutral,
            deny_reason,
            allow_reason,
        ) is Drop <==> has_allow,
{
}

/// Memberships that are unknown pass a list of rules that only deny, and fail
/// one that requires a membership, unless the policy says otherwise.
pub proof fn lemma_unknown_memberships(rules: Seq<MembershipRuleSerde>, policy: UnknownFieldPolicy)
    requires
        rules.len() > 0,
    ensures
        membership_decision(None, rules, policy) is Drop <==> match policy {
            UnknownFieldPolicy::Neutral => some_required(rules),
            UnknownFieldPolicy::FailClosed => true,
            UnknownFieldPolicy::FailOpen => false,
        },
{
}

/// The configuration under another policy on unknown fields.
pub open spec fn under(cfg: FilterConfig, policy: UnknownFieldPolicy) -> FilterConfig {
    FilterConfig { unknown_policy: policy, ..cfg }
}

/// `policy` is at least as strict on unknown fields as `other`.
pub open spec fn stricter(policy: UnknownFieldPolicy, other: UnknownFieldPolicy) -> bool {
    policy == other || policy == UnknownFieldPolicy::FailClosed || other
        == UnknownFieldPolicy::FailOpen
}

/// Where every decision of the first list that allows does so in the second,
/// the second allows what the first allows.
proof fn lemma_softer_list(list: Seq<FilterDecision>, other: Seq<FilterDecision>)
    requires
        list.len() == other.len(),
        forall|i: int|
            0 <= i < list.len() && list[i] == FilterDecision::Allow ==> #[trigger] other[i]
                == FilterDecision::Allow,
    ensures
        first_drop(list) == FilterDecision::Allow ==> first_drop(other) == FilterDecision::Allow,
{
    lemma_first_drop(list);
    lemma_first_drop(other);
}

/// A list without a drop for an unknown field does not drop for one.
proof fn lemma_no_unknown_drop(list: Seq<FilterDecision>)
    requires
        forall|i: int|
            0 <= i < list.len() ==> #[trigger] list[i] != FilterDecision::Drop(
                FilterDropReason::UnknownFieldFailed,
            ),
    ensures
        first_drop(list) != FilterDecision::Drop(FilterDropReason::UnknownFieldFailed),
{
    lemma_first_drop(list);
}

/// The geographic rules for one station under two policies.
proof fn lemma_entity_policies(
    res: GeoModel,
    f: EntityFilters,
    hits: GridHits,
    strict: UnknownFieldPolicy,
    lax: UnknownFieldPolicy,
)
    requires
        stricter(strict, lax),
    ensures
        entity_decision(res, f, strict, hits) == FilterDecision::Allow ==> entity_decision(
            res,
            f,
            lax,
            hits,
        ) == FilterDecision::Allow,
        entity_decision(res, f, UnknownFieldPolicy::FailOpen, hits) != FilterDecision::Drop(
            FilterDropReason::UnknownFieldFailed,
        ),
{
    lemma_softer_list(entity_stages(res, f, strict, hits), entity_stages(res, f, lax, hits));
    lemma_no_unknown_drop(entity_stages(res, f, UnknownFieldPolicy::FailOpen, hits));
}

/// The stages that are made of rules of their own, under two policies.
proof fn lemma_stage_policies(
    view: ViewModel,
    cfg: FilterConfig,
    hits: PatternHits,
    strict: UnknownFieldPolicy,
    lax: UnknownFieldPolicy,
)
    requires
        stricter(strict, lax),
    ensures
        ({
            let s = under(cfg, strict);
            let x = under(cfg, lax);
            let allow = FilterDecision::Allow;
            &&& skimmer_stage(view, s) == allow ==> skimmer_stage(view, x) == allow
            &&& geo_stage(view, s, hits) == allow ==> geo_stage(view, x, hits) == allow
            &&& enrichment_stage(view, s) == allow ==> enrichment_stage(view, x) == allow
        }),
        ({
            let lenient = under(cfg, UnknownFieldPolicy::FailOpen);
            let unknown = FilterDecision::Drop(FilterDropReason::UnknownFieldFailed);
            &&& skimmer_stage(view, lenient) != unknown
            &&& geo_stage(view, lenient, hits) != unknown
            &&& enrichment_stage(view, lenient) != unknown
        }),
{
    let s = under(cfg, strict);
    let x = under(cfg, lax);
    let lenient = under(cfg, UnknownFieldPolicy::FailOpen);
    lemma_entity_policies(view.dx_geo, cfg.geo.dx, hits.dx_grid, strict, lax);
    lemma_entity_policies(view.spotter_geo, cfg.geo.spotter, hits.spotter_grid, strict, lax);
    lemma_softer_list(skimmer_stages(view, s), skimmer_stages(view, x));
    lemma_softer_list(geo_stages(view, s, hits), geo_stages(view, x, hits));
    lemma_softer_list(enrichment_stages(view, s), enrichment_stages(view, x));
    lemma_no_unknown_drop(skimmer_stages(view, lenient));
    lemma_no_unknown_drop(geo_stages(view, lenient, hits));
    lemma_no_unknown_drop(enrichment_stages(view, lenient));
}

/// The stages that no unknown field can come before are those of any policy,
/// and drop for reasons of their own.
proof fn lemma_known_stages(
    view: ViewModel,
    cfg: FilterConfig,
    hits: PatternHits,
    policy: UnknownFieldPolicy,
    i: int,
)
    requires
        0 <= i < 8 || 10 <= i < 14,
    ensures
        stages(view, under(cfg, policy), hits)[i] == stages(view, cfg, hits)[i],
        stages(view, cfg, hits)[i] != FilterDecision::Drop(FilterDropReason::UnknownFieldFailed),
{
}

/// The stages on who reported the spot, under two policies.
proof fn lemma_reporter_policies(
    view: ViewModel,
    cfg: FilterConfig,
    hits: PatternHits,
    strict: UnknownFieldPolicy,
    lax: UnknownFieldPolicy,
)
    requires
        stricter(strict, lax),
    ensures
        ({
            let s = under(cfg, strict);
            let x = under(cfg, lax);
            let allow = FilterDecision::Allow;
            &&& source_stage(view, s) == allow ==> source_stage(view, x) == allow
            &&& spotter_stage(view, s, hits) == allow ==> spotter_stage(view, x, hits) == allow
        }),
        ({
            let lenient = under(cfg, UnknownFieldPolicy::FailOpen);
            let unknown = FilterDecision::Drop(FilterDropReason::UnknownFieldFailed);
            &&& source_stage(view, lenient) != unknown
            &&& spotter_stage(view, lenient, hits) != unknown
        }),
{
}

/// Which patterns match is the same under every policy.
proof fn lemma_hits_under(view: ViewModel, cfg: FilterConfig, policy: UnknownFieldPolicy)
    ensures
        hits_of(view, under(cfg, policy)) == hits_of(view, cfg),
{
}

/// The stage at `i` under two policies.
proof fn lemma_nth_stage_policies(
    view: ViewModel,
    cfg: FilterConfig,
    hits: PatternHits,
    strict: UnknownFieldPolicy,
    lax: UnknownFieldPolicy,
    i: int,
)
    requires
        stricter(strict, lax),
        0 <= i < 17,
    ensures
        stages(view, under(cfg, strict), hits)[i] == FilterDecision::Allow ==> stages(
            view,
            under(cfg, lax),
            hits,
        )[i] == FilterDecision::Allow,
        stages(view, under(cfg, UnknownFieldPolicy::FailOpen), hits)[i] != FilterDecision::Drop(
            FilterDropReason::UnknownFieldFailed,
        ),
{
    if i < 8 || 10 <= i < 14 {
        lemma_known_stages(view, cfg, hits, strict, i);
        lemma_known_stages(view, cfg, hits, lax, i);
        lemma_known_stages(view, cfg, hits, UnknownFieldPolicy::FailOpen, i);
    } else if i < 10 {
        lemma_reporter_policies(view, cfg, hits, strict, lax);
    } else {
        lemma_stage_policies(view, cfg, hits, strict, lax);
    }
}

/// The decision under two policies, given which patterns match.
proof fn lemma_decision_policies(
    view: ViewModel,
    cfg: FilterConfig,
    hits: PatternHits,
    strict: UnknownFieldPolicy,
    lax: UnknownFieldPolicy,
)
    requires
        stricter(strict, lax),
    ensures
        decision(view, under(cfg, strict), hits) == FilterDecision::Allow ==> decision(
            view,
            under(cfg, lax),
            hits,
        ) == FilterDecision::Allow,
        decision(view, under(cfg, UnknownFieldPolicy::FailOpen), hits) != FilterDecision::Drop(
            FilterDropReason::UnknownFieldFailed,
        ),
{
    let s = stages(view, under(cfg, strict), hits);
    let x = stages(view, under(cfg, lax), hits);
    let lenient = stages(view, under(cfg, UnknownFieldPolicy::FailOpen), hits);
    assert(s.len() == 17 && x.len() == 17 && lenient.len() == 17);
    assert forall|i: int| 0 <= i < s.len() && s[i] == FilterDecision::Allow implies #[trigger] x[i]
        == FilterDecision::Allow by {
        lemma_nth_stage_policies(view, cfg, hits, strict, lax, i);
    }
    assert forall|i: int| 0 <= i < lenient.len() implies #[trigger] lenient[i]
        != FilterDecision::Drop(FilterDropReason::UnknownFieldFailed) by {
        lemma_nth_stage_policies(view, cfg, hits, strict, lax, i);
    }
    lemma_softer_list(s, x);
    lemma_no_unknown_drop(lenient);
}

/// The policies on unknown fields, over a whole evaluation: what `FailClosed`
/// allows `Neutral` allows, what `Neutral` allows `FailOpen` allows, and under
/// `FailOpen` no spot is dropped for an unknown field.
pub proof fn lemma_policies_over_evaluation(
    view: ViewModel,
    cfg: FilterConfig,
    strict: UnknownFieldPolicy,
    lax: UnknownFieldPolicy,
)
    requires
        stricter(strict, lax),
    ensures
        ({
            let s = under(cfg, strict);
            let x = under(cfg, lax);
            let lenient = under(cfg, UnknownFieldPolicy::FailOpen);
            &&& decision(view, s, hits_of(view, s)) == FilterDecision::Allow ==> decision(
                view,
                x,
                hits_of(view, x),
            ) == FilterDecision::Allow
            &&& decision(view, lenient, hits_of(view, lenient)) != FilterDecision::Drop(
                FilterDropReason::UnknownFieldFailed,
            )
        }),
{
    lemma_hits_under(view, cfg, strict);
    lemma_hits_under(view, cfg, lax);
    lemma_hits_under(view, cfg, UnknownFieldPolicy::FailOpen);
    lemma_decision_policies(view, cfg, hits_of(view, cfg), strict, lax);
}

/// Skimmer metric rules never touch a spot of another originator.
pub proof fn lemma_metrics_spare_humans(view: ViewModel, cfg: FilterConfig)
    requires
        view.originator_kind != OriginatorKind::Skimmer,
    ensures
        skimmer_stage(view, cfg) == FilterDecision::Allow,
{
}

/// The default configuration allows every spot between 1.8 and 54 MHz that is
/// no older than fifteen minutes and has been observed at least once.
pub proof fn lemma_default_allows(view: ViewModel, c: FilterConfigSerde, cfg: FilterConfig)
    requires
        c.is_default(),
        cfg.compiled_from(c),
        1_800_000 <= view.freq_hz <= 54_000_000,
        view.now - view.last_seen <= 900 * 1_000_000_000,
        view.unique_originators >= 1,
        view.unique_sources >= 1,
        view.total_observations_in_window >= 1,
        view.repeats_same_key_in_window >= 1,
    ensures
        decision(view, cfg, hits_of(view, cfg)) == FilterDecision::Allow,
{
    let hits = hits_of(view, cfg);
    lemma_no_patterns(c.dx.deny, normalized(view.dx_call_norm, c.dx.normalization));
    lemma_no_patterns(c.content.comment_deny, comment_of(view));
    if view.spotter_call_norm is Some {
        lemma_no_patterns(
            c.spotter.callsign.deny,
            normalized(view.spotter_call_norm->0, c.spotter.callsign.normalization),
        );
    }
    let list = stages(view, cfg, hits);
    lemma_no_entity_rules(view.dx_geo, cfg.geo.dx, cfg.unknown_policy, hits.dx_grid);
    lemma_no_entity_rules(view.spotter_geo, cfg.geo.spotter, cfg.unknown_policy, hits.spotter_grid);
    lemma_first_drop(geo_stages(view, cfg, hits));
    lemma_first_drop(enrichment_stages(view, cfg));
    lemma_first_drop(skimmer_stages(view, cfg));
    lemma_first_drop(list);
    assert forall|i: int| 0 <= i < list.len() implies #[trigger] list[i]
        == FilterDecision::Allow by {}
}

/// Without geographic rules a station passes, resolved or not.
pub proof fn lemma_no_entity_rules(
    res: GeoModel,
    f: EntityFilters,
    policy: UnknownFieldPolicy,
    hits: GridHits,
)
    requires
        !f.any_rule(),
    ensures
        entity_decision(res, f, policy, hits) == FilterDecision::Allow,
{
    lemma_first_drop(entity_stages(res, f, policy, hits));
}

/// A list whose stages before `k` allow is decided by stage `k` where it drops.
proof fn lemma_drop_at(list: Seq<FilterDecision>, k: int)
    requires
        0 <= k < list.len(),
        list[k] is Drop,
        forall|i: int| 0 <= i < k ==> #[trigger] list[i] == FilterDecision::Allow,
    ensures
        first_drop(list) == list[k],
    decreases k,
{
    if k > 0 {
        assert(list[0] == FilterDecision::Allow);
        lemma_drop_at(list.skip(1), k - 1);
    }
}

// ---------------------------------------------------------------------------
// Building blocks
// ---------------------------------------------------------------------------

/// Drop for `reason` where `bad`, else allow.
fn decide(bad: bool, reason: FilterDropReason) -> (r: FilterDecision)
    ensures
        r == drop_if(bad, reason),
{
    if bad {
        FilterDecision::Drop(reason)
    } else {
        FilterDecision::Allow
    }
}

/// Convert unknown field policy to a filter decision.
///
/// `is_allowlist_context`: true when we are checking an allowlist (unknown should
/// generally fail) vs a denylist (unknown should generally pass).
///
/// - `Neutral`: fail for allowlists (unknown doesn't prove membership), pass for denylists
/// - `FailClosed`: always drop
/// - `FailOpen`: always allow
pub fn unknown_to_decision(policy: UnknownFieldPolicy, is_allowlist_context: bool) -> (r:
    FilterDecision)
    ensures
        r == unknown_decision(policy, is_allowlist_context),
{
    match policy {
        UnknownFieldPolicy::Neutral => {
            if is_allowlist_context {
                FilterDecision::Drop(FilterDropReason::UnknownFieldFailed)
            } else {
                FilterDecision::Allow
            }
        },
        UnknownFieldPolicy::FailClosed => {
            FilterDecision::Drop(FilterDropReason::UnknownFieldFailed)
        },
        UnknownFieldPolicy::FailOpen => FilterDecision::Allow,
    }
}

/// Decide a field by a pair of lists: deny before allow, an empty allowlist
/// accepts everything. `membership` says whether the field is in the denylist
/// and in the allowlist, `None` where the field is unknown.
pub fn eval_lists(
    membership: Option<(bool, bool)>,
    has_deny: bool,
    has_allow: bool,
    policy: UnknownFieldPolicy,
    deny_reason: FilterDropReason,
    allow_reason: FilterDropReason,
) -> (r: FilterDecision)
    ensures
        r == listed(membership, has_deny, has_allow, policy, deny_reason, allow_reason),
{
    match membership {
        Some((in_deny, in_allow)) => {
            if in_deny {
                FilterDecision::Drop(deny_reason)
            } else {
                decide(has_allow && !in_allow, allow_reason)
            }
        },
        None => {
            if has_allow || has_deny {
                unknown_to_decision(policy, has_allow)
            } else {
                FilterDecision::Allow
            }
        },
    }
}

/// Decide an optional flag by a three-state rule.
pub fn eval_tristate(value: Option<bool>, rule: TriState, policy: UnknownFieldPolicy) -> (r:
    FilterDecision)
    ensures
        r == tristate_decision(value, rule, policy),
{
    match rule {
        TriState::Any => FilterDecision::Allow,
        TriState::RequireTrue => match value {
            Some(true) => FilterDecision::Allow,
            Some(false) => FilterDecision::Drop(FilterDropReason::EnrichmentNotMet),
            None => unknown_to_decision(policy, true),
        },
        TriState::RequireFalse => match value {
            Some(false) => FilterDecision::Allow,
            Some(true) => FilterDecision::Drop(FilterDropReason::EnrichmentNotMet),
            None => unknown_to_decision(policy, true),
        },
    }
}

/// Whether a frequency lies in some range of the list.
fn any_range_has(ranges: &Vec<RangeInclusive<u64>>, freq_hz: u64) -> (r: bool)
    ensures
        r == some_range_has(ranges@, freq_hz),
{
    let mut i: usize = 0;
    while i < ranges.len()
        invariant
            i <= ranges.len(),
            forall|k: int| 0 <= k < i ==> !range_has(#[trigger] ranges@[k], freq_hz),
        decreases ranges.len() - i,
    {
        if ranges[i].contains(&freq_hz) {
            assert(range_has(ranges@[i as int], freq_hz));
            return true;
        }
        i += 1;
    }
    false
}

// ---------------------------------------------------------------------------
// Stages
// ---------------------------------------------------------------------------

fn eval_age(view: &SpotView<'_>, cfg: &FilterConfig) -> (r: FilterDecision)
    ensures
        r == age_stage(view@, *cfg),
{
    let age: i128 = view.now.nanos_since(&view.last_seen);
    // A last_seen in the future makes the age negative: allowed.
    decide(age >= 0 && age > cfg.max_age.as_nanos(), FilterDropReason::TooOld)
}

fn eval_sanity(view: &SpotView<'_>, cfg: &FilterConfig) -> (r: FilterDecision)
    ensures
        r == sanity_stage(view@, *cfg),
{
    match &cfg.freq_sanity {
        Some(sanity) => decide(
            !sanity.contains(&view.freq_hz),
            FilterDropReason::FreqOutOfRange,
        ),
        None => FilterDecision::Allow,
    }
}

fn eval_band(view: &SpotView<'_>, cfg: &FilterConfig) -> (r: FilterDecision)
    ensures
        r == band_stage(view@, *cfg),
{
    eval_lists(
        Some((cfg.rf.band_deny.contains(&view.band), cfg.rf.band_allow.contains(&view.band))),
        !cfg.rf.band_deny.is_empty(),
        !cfg.rf.band_allow.is_empty(),
        cfg.unknown_policy,
        FilterDropReason::BandDenied,
        FilterDropReason::BandDenied,
    )
}

fn eval_mode(view: &SpotView<'_>, cfg: &FilterConfig) -> (r: FilterDecision)
    ensures
        r == mode_stage(view@, *cfg),
{
    eval_lists(
        Some((cfg.rf.mode_deny.contains(&view.mode), cfg.rf.mode_allow.contains(&view.mode))),
        !cfg.rf.mode_deny.is_empty(),
        !cfg.rf.mode_allow.is_empty(),
        cfg.unknown_policy,
        FilterDropReason::ModeDenied,
        FilterDropReason::ModeDenied,
    )
}

fn eval_freq(view: &SpotView<'_>, cfg: &FilterConfig) -> (r: FilterDecision)
    ensures
        r == freq_stage(view@, *cfg),
{
    eval_lists(
        Some(
            (
                any_range_has(&cfg.rf.freq_deny_hz, view.freq_hz),
                any_range_has(&cfg.rf.freq_allow_hz, view.freq_hz),
            ),
        ),
        cfg.rf.freq_deny_hz.len() > 0,
        cfg.rf.freq_allow_hz.len() > 0,
        cfg.unknown_policy,
        FilterDropReason::FreqDenied,
        FilterDropReason::FreqNotAllowed,
    )
}

fn eval_profiles(view: &SpotView<'_>, cfg: &FilterConfig) -> (r: FilterDecision)
    ensures
        r == profile_stage(view@, *cfg),
{
    let profiles = &cfg.rf.profiles;
    let mut i: usize = 0;
    while i < profiles.len()
        invariant
            i <= profiles.len(),
            profiles@ == cfg.rf.profiles@,
            forall|k: int|
                0 <= k < i ==> !some_range_has((#[trigger] profiles@[k]).ranges_hz@, view.freq_hz),
        decreases profiles.len() - i,
    {
        if any_range_has(&profiles[i].ranges_hz, view.freq_hz) {
            assert(some_range_has(cfg.rf.profiles@[i as int].ranges_hz@, view.freq_hz));
            return FilterDecision::Allow;
        }
        i += 1;
    }
    decide(profiles.len() > 0, FilterDropReason::ProfileNoMatch)
}

fn eval_dx_call(cfg: &FilterConfig, hits: &PatternHits) -> (r: FilterDecision)
    ensures
        r == dx_stage(*cfg, *hits),
{
    eval_lists(
        Some((hits.dx_deny, hits.dx_allow)),
        !cfg.dx.deny.is_empty(),
        !cfg.dx.allow.is_empty(),
        cfg.unknown_policy,
        FilterDropReason::DxCallDenied,
        FilterDropReason::DxCallNotAllowed,
    )
}

fn eval_kind(view: &SpotView<'_>, cfg: &FilterConfig) -> (r: FilterDecision)
    ensures
        r == kind_stage(view@, *cfg),
{
    let accepted: bool = match view.originator_kind {
        OriginatorKind::Human => cfg.spotter.allow_human,
        OriginatorKind::Skimmer => cfg.spotter.allow_skimmer,
        OriginatorKind::Unknown => cfg.spotter.allow_unknown_kind,
    };
    decide(!accepted, FilterDropReason::OriginatorKindDenied)
}

fn eval_source(view: &SpotView<'_>, cfg: &FilterConfig) -> (r: FilterDecision)
    ensures
        r == source_stage(view@, *cfg),
{
    let membership: Option<(bool, bool)> = match view.spotter_source_id {
        Some(source) => Some(
            (
                cfg.spotter.source_deny.contains_text(source),
                cfg.spotter.source_allow.contains_text(source),
            ),
        ),
        None => None,
    };
    eval_lists(
        membership,
        !cfg.spotter.source_deny.is_empty(),
        !cfg.spotter.source_allow.is_empty(),
        cfg.unknown_policy,
        FilterDropReason::SpotterDenied,
        FilterDropReason::SpotterNotAllowed,
    )
}

fn eval_spotter_call(view: &SpotView<'_>, cfg: &FilterConfig, hits: &PatternHits) -> (r:
    FilterDecision)
    ensures
        r == spotter_stage(view@, *cfg, *hits),
{
    let membership: Option<(bool, bool)> = match view.spotter_call_norm {
        Some(_) => Some((hits.spotter_deny, hits.spotter_allow)),
        None => None,
    };
    eval_lists(
        membership,
        !cfg.spotter.callsign.deny.is_empty(),
        !cfg.spotter.callsign.allow.is_empty(),
        cfg.unknown_policy,
        FilterDropReason::SpotterDenied,
        FilterDropReason::SpotterNotAllowed,
    )
}

fn eval_comment(view: &SpotView<'_>, cfg: &FilterConfig, hits: &PatternHits) -> (r: FilterDecision)
    ensures
        r == comment_stage(view@, *cfg, *hits),
{
    if hits.comment_deny {
        return FilterDecision::Drop(FilterDropReason::CommentDenied);
    }
    let no_comment: bool = match view.comment {
        Some(c) => c.is_empty(),
        None => true,
    };
    let bad: bool = if cfg.content.comment_allow.is_empty() {
        false
    } else if no_comment {
        cfg.content.require_comment_when_allowlist_present
    } else {
        !hits.comment_allow
    };
    decide(bad, FilterDropReason::CommentNotAllowed)
}

fn eval_correlation(view: &SpotView<'_>, cfg: &FilterConfig) -> (r: FilterDecision)
    ensures
        r == correlation_stage(view@, *cfg),
{
    let originators: u8 = if cfg.correlation.originators_human_only {
        view.unique_human_originators
    } else {
        view.unique_originators
    };
    decide(
        originators < cfg.correlation.min_unique_originators || view.unique_sources
            < cfg.correlation.min_unique_sources || view.total_observations_in_window
            < cfg.correlation.min_observations || view.repeats_same_key_in_window
            < cfg.correlation.min_repeats_same_key,
        FilterDropReason::CorrelationNotMet,
    )
}

fn eval_metric(inside: Option<bool>, policy: UnknownFieldPolicy) -> (r: FilterDecision)
    ensures
        r == metric_decision(inside, policy),
{
    match inside {
        Some(ok) => decide(!ok, FilterDropReason::SkimmerMetricNotMet),
        None => decide(
            policy == UnknownFieldPolicy::FailClosed,
            FilterDropReason::UnknownFieldFailed,
        ),
    }
}

fn eval_skimmer(view: &SpotView<'_>, cfg: &FilterConfig) -> (r: FilterDecision)
    ensures
        r == skimmer_stage(view@, *cfg),
{
    if view.originator_kind != OriginatorKind::Skimmer {
        return FilterDecision::Allow;
    }
    let ghost list = skimmer_stages(view@, *cfg);
    if cfg.skimmer.drop_dupes && view.is_skimmer_dupe {
        proof {
            lemma_drop_at(list, 0);
        }
        return FilterDecision::Drop(FilterDropReason::SkimmerMetricNotMet);
    }
    if cfg.skimmer.require_cq && !view.is_skimmer_cq {
        proof {
            lemma_drop_at(list, 1);
        }
        return FilterDecision::Drop(FilterDropReason::SkimmerMetricNotMet);
    }
    if let Some(range) = &cfg.skimmer.snr_db {
        let inside: Option<bool> = match view.snr_db {
            Some(snr) => Some(range.contains(&snr)),
            None => None,
        };
        let d = eval_metric(inside, cfg.unknown_policy);
        assert(d == list[2]);
        if let FilterDecision::Drop(_) = d {
            proof {
                lemma_drop_at(list, 2);
            }
            return d;
        }
    }
    if let Some(range) = &cfg.skimmer.wpm {
        let inside: Option<bool> = match view.wpm {
            Some(wpm) => Some(range.contains(&wpm)),
            None => None,
        };
        let d = eval_metric(inside, cfg.unknown_policy);
        assert(d == list[3]);
        if let FilterDecision::Drop(_) = d {
            proof {
                lemma_drop_at(list, 3);
            }
            return d;
        }
    }
    proof {
        lemma_first_drop(list);
    }
    FilterDecision::Allow
}

/// Decide a text field by a pair of geographic lists.
fn eval_text_lists(
    field: Option<&str>,
    deny: &ValueSet<String>,
    allow: &ValueSet<String>,
    policy: UnknownFieldPolicy,
) -> (r: FilterDecision)
    ensures
        r == text_listed(opt_str(field), deny@, allow@, policy),
{
    let membership: Option<(bool, bool)> = match field {
        Some(v) => Some((deny.contains_text(v), allow.contains_text(v))),
        None => None,
    };
    eval_lists(
        membership,
        !deny.is_empty(),
        !allow.is_empty(),
        policy,
        FilterDropReason::GeoNotMet,
        FilterDropReason::GeoNotMet,
    )
}

/// Decide a zone by a pair of geographic lists.
fn eval_zone_lists(
    field: Option<u8>,
    deny: &ValueSet<u8>,
    allow: &ValueSet<u8>,
    policy: UnknownFieldPolicy,
) -> (r: FilterDecision)
    ensures
        r == zone_listed(field, deny@, allow@, policy),
{
    let membership: Option<(bool, bool)> = match field {
        Some(v) => Some((deny.contains(&v), allow.contains(&v))),
        None => None,
    };
    eval_lists(
        membership,
        !deny.is_empty(),
        !allow.is_empty(),
        policy,
        FilterDropReason::GeoNotMet,
        FilterDropReason::GeoNotMet,
    )
}

/// Decide one station by its geographic rules, given which grid patterns match.
pub fn eval_entity(
    res: &GeoResolved<'_>,
    f: &EntityFilters,
    policy: UnknownFieldPolicy,
    hits: GridHits,
) -> (r: FilterDecision)
    ensures
        r == entity_decision(res@, *f, policy, hits),
{
    let ghost list = entity_stages(res@, *f, policy, hits);
    let membership: Option<(bool, bool)> = match res.continent {
        Some(c) => Some((f.continent_deny.contains(&c), f.continent_allow.contains(&c))),
        None => None,
    };
    let d = eval_lists(
        membership,
        !f.continent_deny.is_empty(),
        !f.continent_allow.is_empty(),
        policy,
        FilterDropReason::GeoNotMet,
        FilterDropReason::GeoNotMet,
    );
    assert(d == list[0]);
    if let FilterDecision::Drop(_) = d {
        proof {
            lemma_drop_at(list, 0);
        }
        return d;
    }
    let d = eval_zone_lists(res.cq_zone, &f.cq_zone_deny, &f.cq_zone_allow, policy);
    assert(d == list[1]);
    if let FilterDecision::Drop(_) = d {
        proof {
            lemma_drop_at(list, 1);
        }
        return d;
    }
    let d = eval_zone_lists(res.itu_zone, &f.itu_zone_deny, &f.itu_zone_allow, policy);
    assert(d == list[2]);
    if let FilterDecision::Drop(_) = d {
        proof {
            lemma_drop_at(list, 2);
        }
        return d;
    }
    let d = eval_text_lists(res.entity, &f.entity_deny, &f.entity_allow, policy);
    assert(d == list[3]);
    if let FilterDecision::Drop(_) = d {
        proof {
            lemma_drop_at(list, 3);
        }
        return d;
    }
    let d = eval_text_lists(res.country, &f.country_deny, &f.country_allow, policy);
    assert(d == list[4]);
    if let FilterDecision::Drop(_) = d {
        proof {
            lemma_drop_at(list, 4);
        }
        return d;
    }
    let d = eval_text_lists(res.state, &f.state_deny, &f.state_allow, policy);
    assert(d == list[5]);
    if let FilterDecision::Drop(_) = d {
        proof {
            lemma_drop_at(list, 5);
        }
        return d;
    }
    let has_deny: bool = !f.grid_deny.is_empty();
    let has_allow: bool = !f.grid_allow.is_empty();
    if has_deny || has_allow {
        let membership: Option<(bool, bool)> = match res.grid {
            Some(_) => Some((hits.deny, hits.allow)),
            None => None,
        };
        let d = eval_lists(
            membership,
            has_deny,
            has_allow,
            policy,
            FilterDropReason::GeoNotMet,
            FilterDropReason::GeoNotMet,
        );
        assert(d == list[6]);
        if let FilterDecision::Drop(_) = d {
            proof {
                lemma_drop_at(list, 6);
            }
            return d;
        }
    }
    proof {
        lemma_first_drop(list);
    }
    FilterDecision::Allow
}

/// Decide a spot by the geographic rules, given which grid patterns match.
pub fn eval_geo(view: &SpotView<'_>, cfg: &FilterConfig, hits: &PatternHits) -> (r: FilterDecision)
    ensures
        r == geo_stage(view@, *cfg, *hits),
{
    let ghost list = geo_stages(view@, *cfg, *hits);
    proof {
        lemma_first_drop(list);
    }
    let geo_needed: bool = cfg.geo.require_resolvers || cfg.geo.dx.has_any_filters()
        || cfg.geo.spotter.has_any_filters();
    if !geo_needed {
        proof {
            lemma_no_entity_rules(view.dx_geo@, cfg.geo.dx, cfg.unknown_policy, hits.dx_grid);
            lemma_no_entity_rules(
                view.spotter_geo@,
                cfg.geo.spotter,
                cfg.unknown_policy,
                hits.spotter_grid,
            );
        }
        return FilterDecision::Allow;
    }
    if cfg.geo.require_resolvers && view.dx_geo.entity.is_none() && view.dx_geo.country.is_none() {
        let d = unknown_to_decision(cfg.unknown_policy, true);
        assert(d == list[0]);
        if let FilterDecision::Drop(_) = d {
            proof {
                lemma_drop_at(list, 0);
            }
            return d;
        }
    }
    assert(list[0] == FilterDecision::Allow);
    let d = eval_entity(&view.dx_geo, &cfg.geo.dx, cfg.unknown_policy, hits.dx_grid);
    assert(d == list[1]);
    if let FilterDecision::Drop(_) = d {
        proof {
            lemma_drop_at(list, 1);
        }
        return d;
    }
    let d = eval_entity(
        &view.spotter_geo,
        &cfg.geo.spotter,
        cfg.unknown_policy,
        hits.spotter_grid,
    );
    assert(d == list[2]);
    if let FilterDecision::Drop(_) = d {
        proof {
            lemma_drop_at(list, 2);
        }
    }
    d
}

/// Whether some membership rule requires a membership.
fn any_required(rules: &Vec<MembershipRuleSerde>) -> (r: bool)
    ensures
        r == some_required(rules@),
{
    let mut i: usize = 0;
    while i < rules.len()
        invariant
            i <= rules.len(),
            forall|k: int| 0 <= k < i ==> !(#[trigger] rules@[k] is Require),
        decreases rules.len() - i,
    {
        if let MembershipRuleSerde::Require(_) = &rules[i] {
            assert(rules@[i as int] is Require);
            return true;
        }
        i += 1;
    }
    false
}

/// Decide memberships by the membership rules.
fn eval_membership(
    memberships: Option<&ValueSet<String>>,
    rules: &Vec<MembershipRuleSerde>,
    policy: UnknownFieldPolicy,
) -> (r: FilterDecision)
    ensures
        r == membership_decision(
            match memberships {
                Some(set) => Some(set@),
                None => None,
            },
            rules@,
            policy,
        ),
{
    if rules.len() == 0 {
        return FilterDecision::Allow;
    }
    let have = match memberships {
        Some(set) => set,
        None => {
            return unknown_to_decision(policy, any_required(rules));
        },
    };
    let mut i: usize = 0;
    while i < rules.len()
        invariant
            i <= rules.len(),
            memberships is Some,
            have@ == (memberships->0)@,
            forall|k: int| 0 <= k < i ==> rule_holds(#[trigger] rules@[k], have@),
        decreases rules.len() - i,
    {
        let ok: bool = match &rules[i] {
            MembershipRuleSerde::Require(tag) => have.contains(tag),
            MembershipRuleSerde::Deny(tag) => !have.contains(tag),
        };
        if !ok {
            assert(!rule_holds(rules@[i as int], have@));
            return FilterDecision::Drop(FilterDropReason::EnrichmentNotMet);
        }
        i += 1;
    }
    FilterDecision::Allow
}

/// Decide a spot by the enrichment rules.
pub fn eval_enrichment(view: &SpotView<'_>, cfg: &FilterConfig) -> (r: FilterDecision)
    ensures
        r == enrichment_stage(view@, *cfg),
{
    let ghost list = enrichment_stages(view@, *cfg);
    let d = eval_tristate(view.lotw, cfg.enrichment.lotw, cfg.unknown_policy);
    assert(d == list[0]);
    if let FilterDecision::Drop(_) = d {
        proof {
            lemma_drop_at(list, 0);
        }
        return d;
    }
    let d = eval_tristate(view.in_master_db, cfg.enrichment.in_master_db, cfg.unknown_policy);
    assert(d == list[1]);
    if let FilterDecision::Drop(_) = d {
        proof {
            lemma_drop_at(list, 1);
        }
        return d;
    }
    let d = eval_tristate(view.in_callbook, cfg.enrichment.in_callbook, cfg.unknown_policy);
    assert(d == list[2]);
    if let FilterDecision::Drop(_) = d {
        proof {
            lemma_drop_at(list, 2);
        }
        return d;
    }
    let d = eval_membership(view.memberships, &cfg.enrichment.membership, cfg.unknown_policy);
    assert(d == list[3]);
    if let FilterDecision::Drop(_) = d {
        proof {
            lemma_drop_at(list, 3);
        }
        return d;
    }
    proof {
        lemma_first_drop(list);
    }
    FilterDecision::Allow
}

// ---------------------------------------------------------------------------
// Evaluation
// ---------------------------------------------------------------------------

/// Whether a helper expression is there and matches.
fn helper_matches(regex: &Option<Regex>, text: &str) -> (r: bool)
    ensures
        r == helper_hit(*regex, text@),
{
    match regex {
        Some(rx) => regex_is_match(rx, text),
        None => false,
    }
}

/// The grid hits of one station.
fn grid_hits(geo: &GeoResolved<'_>, f: &EntityFilters) -> (r: GridHits)
    ensures
        r == grid_hits_of(geo@, *f),
{
    match geo.grid {
        Some(grid) => GridHits {
            deny: f.grid_deny.is_match(grid),
            allow: f.grid_allow.is_match(grid),
        },
        None => GridHits { deny: false, allow: false },
    }
}

/// Whether the denylist and the allowlist match a callsign, normalized as the
/// rules say.
fn call_hits(f: &CallsignFilters, call: &str) -> (r: (bool, bool))
    ensures
        r.0 == call_denied(*f, call@),
        r.1 == call_allowed(*f, call@),
{
    let call = normalize_callsign(call, &f.normalization);
    (f.deny.is_match(call.as_str()), f.allow.is_match(call.as_str()))
}

/// Match every pattern of a configuration against a spot.
pub fn pattern_hits(view: &SpotView<'_>, cfg: &FilterConfig) -> (r: PatternHits)
    ensures
        r == hits_of(view@, *cfg),
{
    let comment: &str = match view.comment {
        Some(c) => c,
        None => "",
    };
    proof {
        reveal_strlit("");
        assert(""@ =~= Seq::<char>::empty());
        assert(comment@ == comment_of(view@));
    }
    let (spotter_deny, spotter_allow): (bool, bool) = match view.spotter_call_norm {
        Some(call) => call_hits(&cfg.spotter.callsign, call),
        None => (false, false),
    };
    let (dx_deny, dx_allow): (bool, bool) = call_hits(&cfg.dx, view.dx_call_norm);
    PatternHits {
        dx_deny,
        dx_allow,
        spotter_deny,
        spotter_allow,
        split_qsy: helper_matches(&cfg.content.split_qsy_regex, comment),
        cq: helper_matches(&cfg.content.cq_regex, comment),
        comment_deny: cfg.content.comment_deny.is_match(comment),
        comment_allow: cfg.content.comment_allow.is_match(comment),
        dx_grid: grid_hits(&view.dx_geo, &cfg.geo.dx),
        spotter_grid: grid_hits(&view.spotter_geo, &cfg.geo.spotter),
    }
}

/// Evaluate a spot view against a compiled filter configuration.
///
/// Returns `FilterDecision::Allow` if the spot passes all filters,
/// or `FilterDecision::Drop(reason)` with the first failing reason.
pub fn evaluate(view: &SpotView<'_>, cfg: &FilterConfig) -> (r: FilterDecision)
    ensures
        r == decision(view@, *cfg, hits_of(view@, *cfg)),
{
    let hits = pattern_hits(view, cfg);
    evaluate_with_hits(view, cfg, &hits)
}

/// Evaluate a spot view, given which patterns of the configuration match it.
pub fn evaluate_with_hits(view: &SpotView<'_>, cfg: &FilterConfig, hits: &PatternHits) -> (r:
    FilterDecision)
    ensures
        r == decision(view@, *cfg, *hits),
{
    let ghost list = stages(view@, *cfg, *hits);
    let d = eval_age(view, cfg);
    assert(d == list[0]);
    if let FilterDecision::Drop(_) = d {
        proof {
            lemma_drop_at(list, 0);
        }
        return d;
    }
    let d = eval_sanity(view, cfg);
    assert(d == list[1]);
    if let FilterDecision::Drop(_) = d {
        proof {
            lemma_drop_at(list, 1);
        }
        return d;
    }
    let d = eval_band(view, cfg);
    assert(d == list[2]);
    if let FilterDecision::Drop(_) = d {
        proof {
            lemma_drop_at(list, 2);
        }
        return d;
    }
    let d = eval_mode(view, cfg);
    assert(d == list[3]);
    if let FilterDecision::Drop(_) = d {
        proof {
            lemma_drop_at(list, 3);
        }
        return d;
    }
    let d = eval_freq(view, cfg);
    assert(d == list[4]);
    if let FilterDecision::Drop(_) = d {
        proof {
            lemma_drop_at(list, 4);
        }
        return d;
    }
    let d = eval_profiles(view, cfg);
    assert(d == list[5]);
    if let FilterDecision::Drop(_) = d {
        proof {
            lemma_drop_at(list, 5);
        }
        return d;
    }
    let d = eval_dx_call(cfg, hits);
    assert(d == list[6]);
    if let FilterDecision::Drop(_) = d {
        proof {
            lemma_drop_at(list, 6);
        }
        return d;
    }
    let d = eval_kind(view, cfg);
    assert(d == list[7]);
    if let FilterDecision::Drop(_) = d {
        proof {
            lemma_drop_at(list, 7);
        }
        return d;
    }
    let d = eval_source(view, cfg);
    assert(d == list[8]);
    if let FilterDecision::Drop(_) = d {
        proof {
            lemma_drop_at(list, 8);
        }
        return d;
    }
    let d = eval_spotter_call(view, cfg, hits);
    assert(d == list[9]);
    if let FilterDecision::Drop(_) = d {
        proof {
            lemma_drop_at(list, 9);
        }
        return d;
    }
    let d = decide(
        cfg.content.suppress_split_qsy && hits.split_qsy,
        FilterDropReason::SplitQsySuppressed,
    );
    assert(d == list[10]);
    if let FilterDecision::Drop(_) = d {
        proof {
            lemma_drop_at(list, 10);
        }
        return d;
    }
    let d = decide(
        cfg.content.cq_only && !view.is_skimmer_cq && !hits.cq,
        FilterDropReason::CqRequired,
    );
    assert(d == list[11]);
    if let FilterDecision::Drop(_) = d {
        proof {
            lemma_drop_at(list, 11);
        }
        return d;
    }
    let d = eval_comment(view, cfg, hits);
    assert(d == list[12]);
    if let FilterDecision::Drop(_) = d {
        proof {
            lemma_drop_at(list, 12);
        }
        return d;
    }
    let d = eval_correlation(view, cfg);
    assert(d == list[13]);
    if let FilterDecision::Drop(_) = d {
        proof {
            lemma_drop_at(list, 13);
        }
        return d;
    }
    let d = eval_skimmer(view, cfg);
    assert(d == list[14]);
    if let FilterDecision::Drop(_) = d {
        proof {
            lemma_drop_at(list, 14);
        }
        return d;
    }
    let d = eval_geo(view, cfg, hits);
    assert(d == list[15]);
    if let FilterDecision::Drop(_) = d {
        proof {
            lemma_drop_at(list, 15);
        }
        return d;
    }
    let d = eval_enrichment(view, cfg);
    assert(d == list[16]);
    if let FilterDecision::Drop(_) = d {
        proof {
            lemma_drop_at(list, 16);
        }
        return d;
    }
    proof {
        lemma_first_drop(list);
    }
    FilterDecision::Allow
}

// ---------------------------------------------------------------------------
// Counting originators
// ---------------------------------------------------------------------------

/// The callsigns of the originators that count.
pub open spec fn counted_calls(originators: Seq<(&str, OriginatorKind)>, human_only: bool) -> Set<
    Seq<char>,
>
    decreases originators.len(),
{
    if originators.len() == 0 {
        Set::empty()
    } else {
        let before = counted_calls(originators.drop_last(), human_only);
        let (call, kind) = originators.last();
        if human_only && kind != OriginatorKind::Human {
            before
        } else {
            before.insert(call@)
        }
    }
}

/// A callsign counts exactly when some originator of the list has it, a human
/// one where only humans count.
pub proof fn lemma_counted_calls(
    originators: Seq<(&str, OriginatorKind)>,
    human_only: bool,
    call: Seq<char>,
)
    ensures
        counted_calls(originators, human_only).contains(call) <==> exists|i: int|
            0 <= i < originators.len() && (#[trigger] originators[i]).0@ == call && (human_only
                ==> originators[i].1 == OriginatorKind::Human),
    decreases originators.len(),
{
    if originators.len() > 0 {
        let init = originators.drop_last();
        lemma_counted_calls(init, human_only, call);
        assert(originators[originators.len() - 1] == originators.last());
        if exists|i: int|
            0 <= i < init.len() && (#[trigger] init[i]).0@ == call && (human_only ==> init[i].1
                == OriginatorKind::Human) {
            let i = choose|i: int|
                0 <= i < init.len() && (#[trigger] init[i]).0@ == call && (human_only ==> init[i].1
                    == OriginatorKind::Human);
            assert(originators[i] == init[i]);
        }
        if exists|i: int|
            0 <= i < originators.len() && (#[trigger] originators[i]).0@ == call && (human_only
                ==> originators[i].1 == OriginatorKind::Human) {
            let i = choose|i: int|
                0 <= i < originators.len() && (#[trigger] originators[i]).0@ == call && (human_only
                    ==> originators[i].1 == OriginatorKind::Human);
            if i < init.len() {
                assert(init[i] == originators[i]);
            }
        }
    }
}

/// A count, capped at 255.
pub open spec fn capped(n: nat) -> u8 {
    if n <= 255 {
        n as u8
    } else {
        255
    }
}

/// Count unique originators from a list of (callsign, kind) pairs.
pub fn count_unique_originators(originators: &[(&str, OriginatorKind)], human_only: bool) -> (r: u8)
    ensures
        r == capped(counted_calls(originators@, human_only).len()),
{
    let mut set: ValueSet<String> = ValueSet::new();
    let mut i: usize = 0;
    while i < originators.len()
        invariant
            i <= originators.len(),
            set@ == counted_calls(originators@.take(i as int), human_only),
        decreases originators.len() - i,
    {
        let (call, kind) = originators[i];
        assert(originators@.take(i + 1).drop_last() =~= originators@.take(i as int));
        if !(human_only && kind != OriginatorKind::Human) {
            set.insert(call.to_owned());
        }
        i += 1;
    }
    assert(originators@.take(i as int) =~= originators@);
    let n: usize = set.len();
    if n <= 255 {
        n as u8
    } else {
        255
    }
}

} // verus!
