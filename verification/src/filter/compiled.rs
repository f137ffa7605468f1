//! Validated, compiled runtime filter configuration.
//!
//! These types are produced by `FilterConfigSerde::validate_and_compile()`
//! and used by the filter evaluator on the hot path.

use crate::domain::{Band, Continent, DxMode, ModePolicy, TriState, UnknownFieldPolicy};
use crate::filter::config::{
    CallsignNormalizationSerde, EntityFiltersSerde, FilterConfigSerde, MembershipRuleSerde,
    RfFiltersSerde, RfProfileSerde,
};
use crate::filter::error::{ErrorModel, FilterConfigError};
use crate::filter::pattern::{
    lemma_no_patterns, pattern_error, regex_error, regex_new, regex_source, CompiledPatternSet,
};
use crate::sets::ValueSet;
use crate::time::Duration;
use regex::Regex;
use std::ops::RangeInclusive;
use vstd::prelude::*;

verus! {

// ---------------------------------------------------------------------------
// Compiled types
// ---------------------------------------------------------------------------

/// The compiled filter configuration.
#[derive(Debug, Clone)]
pub struct FilterConfig {
    pub max_age: Duration,
    pub freq_sanity: Option<RangeInclusive<u64>>,
    pub unknown_policy: UnknownFieldPolicy,
    pub rf: RfFilters,
    pub dx: CallsignFilters,
    pub spotter: SpotterFilters,
    pub content: ContentFilters,
    pub correlation: CorrelationFilters,
    pub skimmer: SkimmerMetricFilters,
    pub geo: GeoFilters,
    pub enrichment: EnrichmentFilters,
}

/// Compiled band, mode and frequency rules.
#[derive(Debug, Clone)]
pub struct RfFilters {
    pub band_allow: ValueSet<Band>,
    pub band_deny: ValueSet<Band>,
    pub mode_allow: ValueSet<DxMode>,
    pub mode_deny: ValueSet<DxMode>,
    pub freq_allow_hz: Vec<RangeInclusive<u64>>,
    pub freq_deny_hz: Vec<RangeInclusive<u64>>,
    pub profiles: Vec<RfProfile>,
    pub mode_policy: ModePolicy,
}

/// A named group of frequency ranges.
#[derive(Debug, Clone)]
pub struct RfProfile {
    pub name: String,
    pub ranges_hz: Vec<RangeInclusive<u64>>,
}

/// Compiled callsign patterns.
#[derive(Debug, Clone)]
pub struct CallsignFilters {
    pub allow: CompiledPatternSet,
    pub deny: CompiledPatternSet,
    pub normalization: CallsignNormalizationSerde,
}

/// Compiled rules on who reported the spot.
#[derive(Debug, Clone)]
pub struct SpotterFilters {
    pub callsign: CallsignFilters,
    pub source_allow: ValueSet<String>,
    pub source_deny: ValueSet<String>,
    pub allow_human: bool,
    pub allow_skimmer: bool,
    pub allow_unknown_kind: bool,
}

/// Compiled rules on the comment text.
#[derive(Debug, Clone)]
pub struct ContentFilters {
    pub comment_allow: CompiledPatternSet,
    pub comment_deny: CompiledPatternSet,
    pub cq_only: bool,
    pub suppress_split_qsy: bool,
    pub require_comment_when_allowlist_present: bool,
    /// Pre-compiled regex for detecting split/QSY keywords.
    pub split_qsy_regex: Option<Regex>,
    /// Pre-compiled regex for detecting CQ in comments.
    pub cq_regex: Option<Regex>,
}

/// Confirmation thresholds, each at least one.
#[derive(Debug, Clone)]
pub struct CorrelationFilters {
    pub min_unique_originators: u8,
    pub originators_human_only: bool,
    pub min_unique_sources: u8,
    pub min_observations: u8,
    pub window: Duration,
    pub min_repeats_same_key: u8,
}

/// Compiled rules on skimmer metrics.
#[derive(Debug, Clone)]
pub struct SkimmerMetricFilters {
    pub snr_db: Option<RangeInclusive<i8>>,
    pub wpm: Option<RangeInclusive<u16>>,
    pub drop_dupes: bool,
    pub require_cq: bool,
}

/// Compiled geographic rules.
#[derive(Debug, Clone)]
pub struct GeoFilters {
    pub dx: EntityFilters,
    pub spotter: EntityFilters,
    pub require_resolvers: bool,
}

/// Compiled geographic rules for one station.
#[derive(Debug, Clone)]
pub struct EntityFilters {
    pub continent_allow: ValueSet<Continent>,
    pub continent_deny: ValueSet<Continent>,
    pub cq_zone_allow: ValueSet<u8>,
    pub cq_zone_deny: ValueSet<u8>,
    pub itu_zone_allow: ValueSet<u8>,
    pub itu_zone_deny: ValueSet<u8>,
    pub entity_allow: ValueSet<String>,
    pub entity_deny: ValueSet<String>,
    pub country_allow: ValueSet<String>,
    pub country_deny: ValueSet<String>,
    pub state_allow: ValueSet<String>,
    pub state_deny: ValueSet<String>,
    pub grid_allow: CompiledPatternSet,
    pub grid_deny: CompiledPatternSet,
}

/// Compiled rules on enrichment data.
#[derive(Debug, Clone)]
pub struct EnrichmentFilters {
    pub lotw: TriState,
    pub in_master_db: TriState,
    pub in_callbook: TriState,
    pub membership: Vec<MembershipRuleSerde>,
}

// ---------------------------------------------------------------------------
// What compiling means
// ---------------------------------------------------------------------------

/// The expression that finds split/QSY keywords in a comment.
pub open spec fn split_qsy_pattern() -> Seq<char> {
    "(?i)\\b(UP|QSX|SPLIT|QSY)\\b"@
}

/// The expression that finds the word CQ in a comment.
pub open spec fn cq_pattern() -> Seq<char> {
    "(?i)\\bCQ\\b"@
}

/// The first range whose lower end lies above its upper end.
pub open spec fn first_reversed(ranges: Seq<(u64, u64)>) -> Option<(u64, u64)>
    decreases ranges.len(),
{
    if ranges.len() == 0 {
        None
    } else if ranges[0].0 > ranges[0].1 {
        Some(ranges[0])
    } else {
        first_reversed(ranges.skip(1))
    }
}

/// The first reversed range of the profiles, in order.
pub open spec fn first_reversed_profile(profiles: Seq<RfProfileSerde>) -> Option<(u64, u64)>
    decreases profiles.len(),
{
    if profiles.len() == 0 {
        None
    } else if first_reversed(profiles[0].ranges_hz@) is Some {
        first_reversed(profiles[0].ranges_hz@)
    } else {
        first_reversed_profile(profiles.skip(1))
    }
}

/// The error for a reversed range, if there is one.
pub open spec fn range_error(bad: Option<(u64, u64)>) -> Option<ErrorModel> {
    match bad {
        Some((a, b)) => Some(ErrorModel::InvalidFreqRange(a, b)),
        None => None,
    }
}

/// The error for a helper expression that is needed but does not compile.
pub open spec fn helper_error(needed: bool, pattern: Seq<char>) -> Option<ErrorModel> {
    match regex_error(pattern) {
        Some(message) => if needed { Some(ErrorModel::InvalidRegex(message)) } else { None },
        None => None,
    }
}

/// `a` where it is an error, else `b`.
pub open spec fn error_or(a: Option<ErrorModel>, b: Option<ErrorModel>) -> Option<ErrorModel> {
    if a is Some {
        a
    } else {
        b
    }
}

/// The first thing wrong with the RF rules.
pub open spec fn rf_error(rf: RfFiltersSerde) -> Option<ErrorModel> {
    error_or(
        range_error(first_reversed(rf.freq_allow_hz@)),
        error_or(
            range_error(first_reversed(rf.freq_deny_hz@)),
            range_error(first_reversed_profile(rf.profiles@)),
        ),
    )
}

/// The first thing wrong with the geographic rules for one station.
pub open spec fn entity_error(e: EntityFiltersSerde) -> Option<ErrorModel> {
    error_or(pattern_error(e.grid_allow), pattern_error(e.grid_deny))
}

/// The first thing wrong with a configuration, in the order of its sections.
pub open spec fn config_error(c: FilterConfigSerde) -> Option<ErrorModel> {
    error_or(
        if c.max_age_secs == 0 { Some(ErrorModel::MaxAgeZero) } else { None },
        error_or(
            match c.freq_sanity_hz {
                Some((a, b)) => if a > b {
                    Some(ErrorModel::InvalidFreqRange(a, b))
                } else {
                    None
                },
                None => None,
            },
            error_or(
                rf_error(c.rf),
                error_or(
                    error_or(pattern_error(c.dx.allow), pattern_error(c.dx.deny)),
                    error_or(
                        error_or(
                            pattern_error(c.spotter.callsign.allow),
                            pattern_error(c.spotter.callsign.deny),
                        ),
                        error_or(
                            content_error(c),
                            error_or(entity_error(c.geo.dx), entity_error(c.geo.spotter)),
                        ),
                    ),
                ),
            ),
        ),
    )
}

/// The first thing wrong with the content rules.
pub open spec fn content_error(c: FilterConfigSerde) -> Option<ErrorModel> {
    error_or(
        error_or(
            helper_error(c.content.suppress_split_qsy, split_qsy_pattern()),
            helper_error(c.content.cq_only, cq_pattern()),
        ),
        error_or(pattern_error(c.content.comment_allow), pattern_error(c.content.comment_deny)),
    )
}

/// `r` is the range from `a` to `b`, both included.
pub open spec fn is_range(r: RangeInclusive<u64>, a: u64, b: u64) -> bool {
    r@.start == a && r@.end == b && !r@.exhausted
}

/// The compiled ranges are the configured ones, in order.
pub open spec fn same_ranges(out: Seq<RangeInclusive<u64>>, ranges: Seq<(u64, u64)>) -> bool {
    out.len() == ranges.len() && forall|i: int|
        0 <= i < out.len() ==> is_range(#[trigger] out[i], ranges[i].0, ranges[i].1)
}

/// The compiled profiles are the configured ones, in order.
pub open spec fn same_profiles(out: Seq<RfProfile>, profiles: Seq<RfProfileSerde>) -> bool {
    out.len() == profiles.len() && forall|i: int|
        0 <= i < out.len() ==> (#[trigger] out[i]).name@ == profiles[i].name@ && same_ranges(
            out[i].ranges_hz@,
            profiles[i].ranges_hz@,
        )
}

/// A threshold, raised to one where it is zero.
pub open spec fn at_least_one(n: int) -> int {
    if n < 1 {
        1
    } else {
        n
    }
}

/// A helper expression is there exactly where it is needed.
pub open spec fn helper_is(regex: Option<Regex>, needed: bool, pattern: Seq<char>) -> bool {
    match regex {
        Some(rx) => needed && regex_source(rx) == pattern,
        None => !needed,
    }
}

impl RfFilters {
    /// These are the rules of `c`.
    pub open spec fn compiled_from(&self, c: RfFiltersSerde) -> bool {
        &&& self.band_allow@ == c.band_allow@
        &&& self.band_deny@ == c.band_deny@
        &&& self.mode_allow@ == c.mode_allow@
        &&& self.mode_deny@ == c.mode_deny@
        &&& same_ranges(self.freq_allow_hz@, c.freq_allow_hz@)
        &&& same_ranges(self.freq_deny_hz@, c.freq_deny_hz@)
        &&& same_profiles(self.profiles@, c.profiles@)
        &&& self.mode_policy == c.mode_policy
    }
}

impl EntityFilters {
    /// These are the rules of `e`.
    pub open spec fn compiled_from(&self, e: EntityFiltersSerde) -> bool {
        &&& self.continent_allow@ == e.continent_allow@
        &&& self.continent_deny@ == e.continent_deny@
        &&& self.cq_zone_allow@ == e.cq_zone_allow@
        &&& self.cq_zone_deny@ == e.cq_zone_deny@
        &&& self.itu_zone_allow@ == e.itu_zone_allow@
        &&& self.itu_zone_deny@ == e.itu_zone_deny@
        &&& self.entity_allow@ == e.entity_allow@
        &&& self.entity_deny@ == e.entity_deny@
        &&& self.country_allow@ == e.country_allow@
        &&& self.country_deny@ == e.country_deny@
        &&& self.state_allow@ == e.state_allow@
        &&& self.state_deny@ == e.state_deny@
        &&& self.grid_allow.compiled_from(e.grid_allow)
        &&& self.grid_deny.compiled_from(e.grid_deny)
    }

    /// Some rule is set.
    pub open spec fn any_rule(&self) -> bool {
        ||| self.continent_allow@ != Set::<Continent>::empty()
        ||| self.continent_deny@ != Set::<Continent>::empty()
        ||| self.cq_zone_allow@ != Set::<u8>::empty()
        ||| self.cq_zone_deny@ != Set::<u8>::empty()
        ||| self.itu_zone_allow@ != Set::<u8>::empty()
        ||| self.itu_zone_deny@ != Set::<u8>::empty()
        ||| self.entity_allow@ != Set::<Seq<char>>::empty()
        ||| self.entity_deny@ != Set::<Seq<char>>::empty()
        ||| self.country_allow@ != Set::<Seq<char>>::empty()
        ||| self.country_deny@ != Set::<Seq<char>>::empty()
        ||| self.state_allow@ != Set::<Seq<char>>::empty()
        ||| self.state_deny@ != Set::<Seq<char>>::empty()
        ||| !self.grid_allow.no_patterns()
        ||| !self.grid_deny.no_patterns()
    }
}

impl FilterConfig {
    /// This is what compiling `c` gives.
    pub open spec fn compiled_from(&self, c: FilterConfigSerde) -> bool {
        &&& self.max_age@ == c.max_age_secs * 1_000_000_000
        &&& match (self.freq_sanity, c.freq_sanity_hz) {
            (Some(r), Some((a, b))) => is_range(r, a, b),
            (None, None) => true,
            _ => false,
        }
        &&& self.unknown_policy == c.unknown_policy
        &&& self.rf.compiled_from(c.rf)
        &&& self.dx.allow.compiled_from(c.dx.allow)
        &&& self.dx.deny.compiled_from(c.dx.deny)
        &&& self.dx.normalization == c.dx.normalization
        &&& self.spotter_from(c)
        &&& self.content_from(c)
        &&& self.thresholds_from(c)
        &&& self.geo.dx.compiled_from(c.geo.dx)
        &&& self.geo.spotter.compiled_from(c.geo.spotter)
        &&& self.geo.require_resolvers == c.geo.require_resolvers
        &&& self.enrichment.lotw == c.enrichment.lotw
        &&& self.enrichment.in_master_db == c.enrichment.in_master_db
        &&& self.enrichment.in_callbook == c.enrichment.in_callbook
        &&& self.enrichment.membership@ == c.enrichment.membership@
    }

    /// The spotter rules are those of `c`.
    pub open spec fn spotter_from(&self, c: FilterConfigSerde) -> bool {
        &&& self.spotter.callsign.allow.compiled_from(c.spotter.callsign.allow)
        &&& self.spotter.callsign.deny.compiled_from(c.spotter.callsign.deny)
        &&& self.spotter.callsign.normalization == c.spotter.callsign.normalization
        &&& self.spotter.source_allow@ == c.spotter.source_allow@
        &&& self.spotter.source_deny@ == c.spotter.source_deny@
        &&& self.spotter.allow_human == c.spotter.allow_human
        &&& self.spotter.allow_skimmer == c.spotter.allow_skimmer
        &&& self.spotter.allow_unknown_kind == c.spotter.allow_unknown_kind
    }

    /// The content rules are those of `c`, with the helper expressions they need.
    pub open spec fn content_from(&self, c: FilterConfigSerde) -> bool {
        &&& self.content.comment_allow.compiled_from(c.content.comment_allow)
        &&& self.content.comment_deny.compiled_from(c.content.comment_deny)
        &&& self.content.cq_only == c.content.cq_only
        &&& self.content.suppress_split_qsy == c.content.suppress_split_qsy
        &&& self.content.require_comment_when_allowlist_present
            == c.content.require_comment_when_allowlist_present
        &&& helper_is(
            self.content.split_qsy_regex,
            c.content.suppress_split_qsy,
            split_qsy_pattern(),
        )
        &&& helper_is(self.content.cq_regex, c.content.cq_only, cq_pattern())
    }

    /// The thresholds are those of `c`, none below one; the metric ranges are
    /// those of `c` in ascending order.
    pub open spec fn thresholds_from(&self, c: FilterConfigSerde) -> bool {
        &&& self.correlation.min_unique_originators == at_least_one(
            c.correlation.min_unique_originators as int,
        )
        &&& self.correlation.originators_human_only == c.correlation.originators_human_only
        &&& self.correlation.min_unique_sources == at_least_one(
            c.correlation.min_unique_sources as int,
        )
        &&& self.correlation.min_observations == at_least_one(
            c.correlation.min_observations as int,
        )
        &&& self.correlation.window@ == at_least_one(c.correlation.window_secs as int)
            * 1_000_000_000
        &&& self.correlation.min_repeats_same_key == at_least_one(
            c.correlation.min_repeats_same_key as int,
        )
        &&& match (self.skimmer.snr_db, c.skimmer.snr_db) {
            (Some(r), Some((a, b))) => {
                &&& r@.start == if a <= b { a } else { b }
                &&& r@.end == if a <= b { b } else { a }
                &&& !r@.exhausted
            },
            (None, None) => true,
            _ => false,
        }
        &&& match (self.skimmer.wpm, c.skimmer.wpm) {
            (Some(r), Some((a, b))) => {
                &&& r@.start == if a <= b { a } else { b }
                &&& r@.end == if a <= b { b } else { a }
                &&& !r@.exhausted
            },
            (None, None) => true,
            _ => false,
        }
        &&& self.skimmer.drop_dupes == c.skimmer.drop_dupes
        &&& self.skimmer.require_cq == c.skimmer.require_cq
    }
}

// ---------------------------------------------------------------------------
// Laws
// ---------------------------------------------------------------------------

/// The default configuration compiles.
pub proof fn lemma_default_compiles(c: FilterConfigSerde)
    requires
        c.is_default(),
    ensures
        config_error(c) is None,
{
    lemma_no_patterns(c.dx.allow, Seq::empty());
    lemma_no_patterns(c.dx.deny, Seq::empty());
    lemma_no_patterns(c.spotter.callsign.allow, Seq::empty());
    lemma_no_patterns(c.spotter.callsign.deny, Seq::empty());
    lemma_no_patterns(c.content.comment_allow, Seq::empty());
    lemma_no_patterns(c.content.comment_deny, Seq::empty());
    lemma_no_patterns(c.geo.dx.grid_allow, Seq::empty());
    lemma_no_patterns(c.geo.dx.grid_deny, Seq::empty());
    lemma_no_patterns(c.geo.spotter.grid_allow, Seq::empty());
    lemma_no_patterns(c.geo.spotter.grid_deny, Seq::empty());
}

/// Every threshold of a compiled configuration is at least one, and its metric
/// ranges ascend.
pub proof fn lemma_compiled_thresholds(cfg: FilterConfig, c: FilterConfigSerde)
    requires
        cfg.compiled_from(c),
    ensures
        cfg.correlation.min_unique_originators >= 1,
        cfg.correlation.min_unique_sources >= 1,
        cfg.correlation.min_observations >= 1,
        cfg.correlation.min_repeats_same_key >= 1,
        cfg.correlation.window@ >= 1_000_000_000,
        cfg.skimmer.snr_db matches Some(r) ==> r@.start <= r@.end,
        cfg.skimmer.wpm matches Some(r) ==> r@.start <= r@.end,
{
}

/// A list of ranges compiles exactly when no range is reversed.
pub proof fn lemma_first_reversed(ranges: Seq<(u64, u64)>)
    ensures
        first_reversed(ranges) is None <==> forall|i: int|
            0 <= i < ranges.len() ==> (#[trigger] ranges[i]).0 <= ranges[i].1,
        first_reversed(ranges) matches Some(r) ==> ranges.contains(r) && r.0 > r.1,
    decreases ranges.len(),
{
    if ranges.len() > 0 {
        let rest = ranges.skip(1);
        lemma_first_reversed(rest);
        assert forall|i: int| 0 <= i < rest.len() implies #[trigger] rest[i] == ranges[i + 1] by {}
        if ranges[0].0 <= ranges[0].1 {
            if first_reversed(rest) is None {
                assert forall|i: int| 0 <= i < ranges.len() implies (#[trigger] ranges[i]).0
                    <= ranges[i].1 by {
                    if i > 0 {
                        assert(rest[i - 1].0 <= rest[i - 1].1);
                    }
                }
            } else {
                let r = first_reversed(rest)->0;
                let k = choose|k: int| 0 <= k < rest.len() && rest[k] == r;
                assert(ranges[k + 1] == r);
            }
        } else {
            assert(ranges[0] == first_reversed(ranges)->0);
        }
    }
}

// ---------------------------------------------------------------------------
// validate_and_compile
// ---------------------------------------------------------------------------

/// Compile a list of ranges, refusing the first reversed one.
fn compile_ranges(ranges: &Vec<(u64, u64)>) -> (r: Result<
    Vec<RangeInclusive<u64>>,
    FilterConfigError,
>)
    ensures
        match r {
            Ok(out) => first_reversed(ranges@) is None && same_ranges(out@, ranges@),
            Err(e) => range_error(first_reversed(ranges@)) == Some(e@),
        },
{
    let mut out: Vec<RangeInclusive<u64>> = Vec::new();
    let mut i: usize = 0;
    assert(ranges@.skip(0) =~= ranges@);
    while i < ranges.len()
        invariant
            i <= ranges.len(),
            first_reversed(ranges@) == first_reversed(ranges@.skip(i as int)),
            same_ranges(out@, ranges@.take(i as int)),
        decreases ranges.len() - i,
    {
        let (a, b) = ranges[i];
        assert(ranges@.skip(i as int)[0] == ranges@[i as int]);
        if a > b {
            return Err(FilterConfigError::InvalidFreqRange(a, b));
        }
        assert(ranges@.skip(i as int).skip(1) =~= ranges@.skip(i + 1));
        out.push(a..=b);
        i += 1;
    }
    assert(ranges@.take(i as int) =~= ranges@);
    Ok(out)
}

/// Compile the profiles, refusing the first reversed range.
fn compile_profiles(profiles: &Vec<RfProfileSerde>) -> (r: Result<
    Vec<RfProfile>,
    FilterConfigError,
>)
    ensures
        match r {
            Ok(out) => first_reversed_profile(profiles@) is None && same_profiles(
                out@,
                profiles@,
            ),
            Err(e) => range_error(first_reversed_profile(profiles@)) == Some(e@),
        },
{
    let mut out: Vec<RfProfile> = Vec::new();
    let mut i: usize = 0;
    assert(profiles@.skip(0) =~= profiles@);
    while i < profiles.len()
        invariant
            i <= profiles.len(),
            first_reversed_profile(profiles@) == first_reversed_profile(profiles@.skip(i as int)),
            same_profiles(out@, profiles@.take(i as int)),
        decreases profiles.len() - i,
    {
        assert(profiles@.skip(i as int)[0] == profiles@[i as int]);
        let ranges_hz = match compile_ranges(&profiles[i].ranges_hz) {
            Ok(ranges) => ranges,
            Err(e) => {
                return Err(e);
            },
        };
        assert(profiles@.skip(i as int).skip(1) =~= profiles@.skip(i + 1));
        out.push(RfProfile { name: profiles[i].name.clone(), ranges_hz });
        i += 1;
    }
    assert(profiles@.take(i as int) =~= profiles@);
    Ok(out)
}

/// Compile the RF rules.
fn compile_rf(rf: RfFiltersSerde) -> (r: Result<RfFilters, FilterConfigError>)
    ensures
        match r {
            Ok(out) => rf_error(rf) is None && out.compiled_from(rf),
            Err(e) => rf_error(rf) == Some(e@),
        },
{
    let freq_allow_hz = match compile_ranges(&rf.freq_allow_hz) {
        Ok(ranges) => ranges,
        Err(e) => {
            return Err(e);
        },
    };
    let freq_deny_hz = match compile_ranges(&rf.freq_deny_hz) {
        Ok(ranges) => ranges,
        Err(e) => {
            return Err(e);
        },
    };
    let profiles = match compile_profiles(&rf.profiles) {
        Ok(profiles) => profiles,
        Err(e) => {
            return Err(e);
        },
    };
    Ok(
        RfFilters {
            band_allow: rf.band_allow,
            band_deny: rf.band_deny,
            mode_allow: rf.mode_allow,
            mode_deny: rf.mode_deny,
            freq_allow_hz,
            freq_deny_hz,
            profiles,
            mode_policy: rf.mode_policy,
        },
    )
}

/// Compile the geographic rules for one station.
fn compile_entity(e: EntityFiltersSerde) -> (r: Result<EntityFilters, FilterConfigError>)
    ensures
        match r {
            Ok(out) => entity_error(e) is None && out.compiled_from(e),
            Err(err) => entity_error(e) == Some(err@),
        },
{
    let grid_allow = match CompiledPatternSet::compile(e.grid_allow) {
        Ok(set) => set,
        Err(err) => {
            return Err(err);
        },
    };
    let grid_deny = match CompiledPatternSet::compile(e.grid_deny) {
        Ok(set) => set,
        Err(err) => {
            return Err(err);
        },
    };
    Ok(
        EntityFilters {
            continent_allow: e.continent_allow,
            continent_deny: e.continent_deny,
            cq_zone_allow: e.cq_zone_allow,
            cq_zone_deny: e.cq_zone_deny,
            itu_zone_allow: e.itu_zone_allow,
            itu_zone_deny: e.itu_zone_deny,
            entity_allow: e.entity_allow,
            entity_deny: e.entity_deny,
            country_allow: e.country_allow,
            country_deny: e.country_deny,
            state_allow: e.state_allow,
            state_deny: e.state_deny,
            grid_allow,
            grid_deny,
        },
    )
}

/// Compile a helper expression where it is needed.
fn compile_helper(needed: bool, pattern: &str) -> (r: Result<Option<Regex>, FilterConfigError>)
    ensures
        match r {
            Ok(regex) => helper_error(needed, pattern@) is None && helper_is(
                regex,
                needed,
                pattern@,
            ),
            Err(e) => helper_error(needed, pattern@) == Some(e@),
        },
{
    if !needed {
        return Ok(None);
    }
    match regex_new(pattern) {
        Ok(regex) => Ok(Some(regex)),
        Err(message) => Err(FilterConfigError::InvalidRegex(message)),
    }
}

/// The larger of `n` and one.
fn min_one(n: u8) -> (r: u8)
    ensures
        r == at_least_one(n as int),
{
    if n < 1 {
        1
    } else {
        n
    }
}

impl FilterConfigSerde {
    /// Validate all configuration values and compile patterns into a runtime
    /// `FilterConfig`. Returns an error if any value is invalid.
    pub fn validate_and_compile(self) -> (r: Result<FilterConfig, FilterConfigError>)
        ensures
            match r {
                Ok(cfg) => config_error(self) is None && cfg.compiled_from(self),
                Err(e) => config_error(self) == Some(e@),
            },
    {
        if self.max_age_secs == 0 {
            return Err(FilterConfigError::MaxAgeZero);
        }
        let max_age = Duration::from_secs(self.max_age_secs);
        let freq_sanity = match self.freq_sanity_hz {
            Some((a, b)) => {
                if a > b {
                    return Err(FilterConfigError::InvalidFreqRange(a, b));
                }
                Some(a..=b)
            },
            None => None,
        };
        let rf = match compile_rf(self.rf) {
            Ok(rf) => rf,
            Err(e) => {
                return Err(e);
            },
        };
        let dx_allow = match CompiledPatternSet::compile(self.dx.allow) {
            Ok(set) => set,
            Err(e) => {
                return Err(e);
            },
        };
        let dx_deny = match CompiledPatternSet::compile(self.dx.deny) {
            Ok(set) => set,
            Err(e) => {
                return Err(e);
            },
        };
        let spotter_allow = match CompiledPatternSet::compile(self.spotter.callsign.allow) {
            Ok(set) => set,
            Err(e) => {
                return Err(e);
            },
        };
        let spotter_deny = match CompiledPatternSet::compile(self.spotter.callsign.deny) {
            Ok(set) => set,
            Err(e) => {
                return Err(e);
            },
        };
        // Helper expressions are compiled once, here.
        let split_qsy_regex = match compile_helper(
            self.content.suppress_split_qsy,
            "(?i)\\b(UP|QSX|SPLIT|QSY)\\b",
        ) {
            Ok(regex) => regex,
            Err(e) => {
                return Err(e);
            },
        };
        let cq_regex = match compile_helper(self.content.cq_only, "(?i)\\bCQ\\b") {
            Ok(regex) => regex,
            Err(e) => {
                return Err(e);
            },
        };
        let comment_allow = match CompiledPatternSet::compile(self.content.comment_allow) {
            Ok(set) => set,
            Err(e) => {
                return Err(e);
            },
        };
        let comment_deny = match CompiledPatternSet::compile(self.content.comment_deny) {
            Ok(set) => set,
            Err(e) => {
                return Err(e);
            },
        };
        // Minimums are clamped to one.
        let window_secs: u64 = if self.correlation.window_secs < 1 {
            1
        } else {
            self.correlation.window_secs
        };
        let correlation = CorrelationFilters {
            min_unique_originators: min_one(self.correlation.min_unique_originators),
            originators_human_only: self.correlation.originators_human_only,
            min_unique_sources: min_one(self.correlation.min_unique_sources),
            min_observations: min_one(self.correlation.min_observations),
            window: Duration::from_secs(window_secs),
            min_repeats_same_key: min_one(self.correlation.min_repeats_same_key),
        };
        // Reversed metric ranges are put in order.
        let snr_db = match self.skimmer.snr_db {
            Some((a, b)) => Some(if a <= b { a..=b } else { b..=a }),
            None => None,
        };
        let wpm = match self.skimmer.wpm {
            Some((a, b)) => Some(if a <= b { a..=b } else { b..=a }),
            None => None,
        };
        let geo_dx = match compile_entity(self.geo.dx) {
            Ok(e) => e,
            Err(e) => {
                return Err(e);
            },
        };
        let geo_spotter = match compile_entity(self.geo.spotter) {
            Ok(e) => e,
            Err(e) => {
                return Err(e);
            },
        };
        Ok(
            FilterConfig {
                max_age,
                freq_sanity,
                unknown_policy: self.unknown_policy,
                rf,
                dx: CallsignFilters {
                    allow: dx_allow,
                    deny: dx_deny,
                    normalization: self.dx.normalization,
                },
                spotter: SpotterFilters {
                    callsign: CallsignFilters {
                        allow: spotter_allow,
                        deny: spotter_deny,
                        normalization: self.spotter.callsign.normalization,
                    },
                    source_allow: self.spotter.source_allow,
                    source_deny: self.spotter.source_deny,
                    allow_human: self.spotter.allow_human,
                    allow_skimmer: self.spotter.allow_skimmer,
                    allow_unknown_kind: self.spotter.allow_unknown_kind,
                },
                content: ContentFilters {
                    comment_allow,
                    comment_deny,
                    cq_only: self.content.cq_only,
                    suppress_split_qsy: self.content.suppress_split_qsy,
                    require_comment_when_allowlist_present: self
                        .content
                        .require_comment_when_allowlist_present,
                    split_qsy_regex,
                    cq_regex,
                },
                correlation,
                skimmer: SkimmerMetricFilters {
                    snr_db,
                    wpm,
                    drop_dupes: self.skimmer.drop_dupes,
                    require_cq: self.skimmer.require_cq,
                },
                geo: GeoFilters {
                    dx: geo_dx,
                    spotter: geo_spotter,
                    require_resolvers: self.geo.require_resolvers,
                },
                enrichment: EnrichmentFilters {
                    lotw: self.enrichment.lotw,
                    in_master_db: self.enrichment.in_master_db,
                    in_callbook: self.enrichment.in_callbook,
                    membership: self.enrichment.membership,
                },
            },
        )
    }
}

impl EntityFilters {
    /// Returns true if any filter in this entity filter set is active.
    pub fn has_any_filters(&self) -> (r: bool)
        ensures
            r == self.any_rule(),
    {
        !self.continent_allow.is_empty() || !self.continent_deny.is_empty()
            || !self.cq_zone_allow.is_empty() || !self.cq_zone_deny.is_empty()
            || !self.itu_zone_allow.is_empty() || !self.itu_zone_deny.is_empty()
            || !self.entity_allow.is_empty() || !self.entity_deny.is_empty()
            || !self.country_allow.is_empty() || !self.country_deny.is_empty()
            || !self.state_allow.is_empty() || !self.state_deny.is_empty()
            || !self.grid_allow.is_empty() || !self.grid_deny.is_empty()
    }
}

} // verus!
