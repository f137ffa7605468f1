//! User-facing filter configuration.
//!
//! These types hold the rules as the user writes them. They are validated and
//! compiled into the types of [`crate::filter::compiled`] before use in the
//! filter evaluator.

use crate::domain::{
    Band, Continent, DxMode, ModePolicy, PortablePolicy, TriState, UnknownFieldPolicy,
};
use crate::sets::ValueSet;
use vstd::prelude::*;

verus! {

/// The whole filter configuration.
#[derive(Debug, Clone)]
pub struct FilterConfigSerde {
    /// Maximum age in seconds; spots older than this at evaluation time are dropped.
    pub max_age_secs: u64,
    /// Optional frequency sanity bounds (min_hz, max_hz). Spots outside are dropped.
    pub freq_sanity_hz: Option<(u64, u64)>,
    pub unknown_policy: UnknownFieldPolicy,
    pub rf: RfFiltersSerde,
    pub dx: CallsignFiltersSerde,
    pub spotter: SpotterFiltersSerde,
    pub content: ContentFiltersSerde,
    pub correlation: CorrelationFiltersSerde,
    pub skimmer: SkimmerMetricFiltersSerde,
    pub geo: GeoFiltersSerde,
    pub enrichment: EnrichmentFiltersSerde,
}

/// Band, mode and frequency rules.
#[derive(Debug, Clone)]
pub struct RfFiltersSerde {
    pub band_allow: ValueSet<Band>,
    pub band_deny: ValueSet<Band>,
    pub mode_allow: ValueSet<DxMode>,
    pub mode_deny: ValueSet<DxMode>,
    /// Explicit frequency allow ranges (Hz). Empty = allow all (subject to deny).
    pub freq_allow_hz: Vec<(u64, u64)>,
    pub freq_deny_hz: Vec<(u64, u64)>,
    /// CC-style profiles: if non-empty, spot must match at least one profile.
    pub profiles: Vec<RfProfileSerde>,
    pub mode_policy: ModePolicy,
}

/// A named group of frequency ranges.
#[derive(Debug, Clone)]
pub struct RfProfileSerde {
    pub name: String,
    pub ranges_hz: Vec<(u64, u64)>,
}

/// Callsign allow and deny patterns.
#[derive(Debug, Clone)]
pub struct CallsignFiltersSerde {
    pub allow: PatternSetSerde,
    pub deny: PatternSetSerde,
    pub normalization: CallsignNormalizationSerde,
}

/// How callsigns are normalized.
#[derive(Debug, Clone, Copy, PartialEq, Eq, Structural)]
pub struct CallsignNormalizationSerde {
    pub uppercase: bool,
    pub portable_policy: PortablePolicy,
    pub strip_non_alnum: bool,
}

/// Rules on who reported the spot.
#[derive(Debug, Clone)]
pub struct SpotterFiltersSerde {
    pub callsign: CallsignFiltersSerde,
    pub source_allow: ValueSet<String>,
    pub source_deny: ValueSet<String>,
    pub allow_human: bool,
    pub allow_skimmer: bool,
    pub allow_unknown_kind: bool,
}

/// Rules on the comment text.
#[derive(Debug, Clone)]
pub struct ContentFiltersSerde {
    pub comment_allow: PatternSetSerde,
    pub comment_deny: PatternSetSerde,
    pub cq_only: bool,
    pub suppress_split_qsy: bool,
    pub require_comment_when_allowlist_present: bool,
}

/// How many independent confirmations a spot needs.
#[derive(Debug, Clone)]
pub struct CorrelationFiltersSerde {
    pub min_unique_originators: u8,
    pub originators_human_only: bool,
    pub min_unique_sources: u8,
    pub min_observations: u8,
    pub window_secs: u64,
    pub min_repeats_same_key: u8,
}

/// Rules on the metrics that skimmers report.
#[derive(Debug, Clone)]
pub struct SkimmerMetricFiltersSerde {
    /// Optional SNR range (min_db, max_db).
    pub snr_db: Option<(i8, i8)>,
    /// Optional WPM range (min, max).
    pub wpm: Option<(u16, u16)>,
    pub drop_dupes: bool,
    pub require_cq: bool,
}

/// Rules on resolved geographic data.
#[derive(Debug, Clone)]
pub struct GeoFiltersSerde {
    pub dx: EntityFiltersSerde,
    pub spotter: EntityFiltersSerde,
    pub require_resolvers: bool,
}

/// Geographic rules for one station.
#[derive(Debug, Clone)]
pub struct EntityFiltersSerde {
    pub continent_allow: ValueSet<Continent>,
    pub continent_deny: ValueSet<Continent>,
    pub cq_zone_allow: ValueSet<u8>,
    pub cq_zone_deny: ValueSet<u8>,
    pub itu_zone_allow: ValueSet<u8>,
    pub itu_zone_deny: ValueSet<u8>,
    pub entity_allow: ValueSet<String>,
    pub entity_deny: ValueSet<String>,
    pub country_allow: ValueSet<String>,
    pub country_deny: ValueSet<String>,
    pub state_allow: ValueSet<String>,
    pub state_deny: ValueSet<String>,
    pub grid_allow: PatternSetSerde,
    pub grid_deny: PatternSetSerde,
}

/// Rules on enrichment data.
#[derive(Debug, Clone)]
pub struct EnrichmentFiltersSerde {
    pub lotw: TriState,
    pub in_master_db: TriState,
    pub in_callbook: TriState,
    pub membership: Vec<MembershipRuleSerde>,
}

/// A membership requirement or exclusion rule.
#[derive(Debug, Clone, PartialEq, Eq, PartialOrd, Ord)]
pub enum MembershipRuleSerde {
    Require(String),
    Deny(String),
}

/// A set of glob and/or regex patterns for matching callsigns, comments, etc.
#[derive(Debug, Clone)]
pub struct PatternSetSerde {
    pub globs: Vec<String>,
    pub regexes: Vec<String>,
    pub case_insensitive: bool,
}

impl PatternSetSerde {
    /// No patterns, case-sensitive.
    pub open spec fn is_default(&self) -> bool {
        self.globs@.len() == 0 && self.regexes@.len() == 0 && !self.case_insensitive
    }
}

impl CallsignFiltersSerde {
    /// No patterns, default normalization.
    pub open spec fn is_default(&self) -> bool {
        &&& self.allow.is_default()
        &&& self.deny.is_default()
        &&& self.normalization.is_default()
    }
}

impl CallsignNormalizationSerde {
    /// Upper case only.
    pub open spec fn is_default(&self) -> bool {
        &&& self.uppercase
        &&& self.portable_policy == PortablePolicy::KeepAsIs
        &&& !self.strip_non_alnum
    }
}

impl RfFiltersSerde {
    /// No RF rules.
    pub open spec fn is_default(&self) -> bool {
        &&& self.band_allow@ == Set::<Band>::empty()
        &&& self.band_deny@ == Set::<Band>::empty()
        &&& self.mode_allow@ == Set::<DxMode>::empty()
        &&& self.mode_deny@ == Set::<DxMode>::empty()
        &&& self.freq_allow_hz@.len() == 0
        &&& self.freq_deny_hz@.len() == 0
        &&& self.profiles@.len() == 0
        &&& self.mode_policy == ModePolicy::PreferUpstreamFallbackInfer
    }
}

impl SpotterFiltersSerde {
    /// Every spotter and every kind is accepted.
    pub open spec fn is_default(&self) -> bool {
        &&& self.callsign.is_default()
        &&& self.source_allow@ == Set::<Seq<char>>::empty()
        &&& self.source_deny@ == Set::<Seq<char>>::empty()
        &&& self.allow_human
        &&& self.allow_skimmer
        &&& self.allow_unknown_kind
    }
}

impl ContentFiltersSerde {
    /// No rules on comments; a comment would be asked for by an allowlist.
    pub open spec fn is_default(&self) -> bool {
        &&& self.comment_allow.is_default()
        &&& self.comment_deny.is_default()
        &&& !self.cq_only
        &&& !self.suppress_split_qsy
        &&& self.require_comment_when_allowlist_present
    }
}

impl CorrelationFiltersSerde {
    /// One confirmation suffices, within three minutes.
    pub open spec fn is_default(&self) -> bool {
        &&& self.min_unique_originators == 1
        &&& !self.originators_human_only
        &&& self.min_unique_sources == 1
        &&& self.min_observations == 1
        &&& self.window_secs == 180
        &&& self.min_repeats_same_key == 1
    }
}

impl SkimmerMetricFiltersSerde {
    /// No rules on skimmer metrics.
    pub open spec fn is_default(&self) -> bool {
        &&& self.snr_db is None
        &&& self.wpm is None
        &&& !self.drop_dupes
        &&& !self.require_cq
    }
}

impl EntityFiltersSerde {
    /// No geographic rules.
    pub open spec fn is_default(&self) -> bool {
        &&& self.continent_allow@ == Set::<Continent>::empty()
        &&& self.continent_deny@ == Set::<Continent>::empty()
        &&& self.cq_zone_allow@ == Set::<u8>::empty()
        &&& self.cq_zone_deny@ == Set::<u8>::empty()
        &&& self.itu_zone_allow@ == Set::<u8>::empty()
        &&& self.itu_zone_deny@ == Set::<u8>::empty()
        &&& self.entity_allow@ == Set::<Seq<char>>::empty()
        &&& self.entity_deny@ == Set::<Seq<char>>::empty()
        &&& self.country_allow@ == Set::<Seq<char>>::empty()
        &&& self.country_deny@ == Set::<Seq<char>>::empty()
        &&& self.state_allow@ == Set::<Seq<char>>::empty()
        &&& self.state_deny@ == Set::<Seq<char>>::empty()
        &&& self.grid_allow.is_default()
        &&& self.grid_deny.is_default()
    }
}

impl GeoFiltersSerde {
    /// No geographic rules for either station.
    pub open spec fn is_default(&self) -> bool {
        &&& self.dx.is_default()
        &&& self.spotter.is_default()
        &&& !self.require_resolvers
    }
}

impl EnrichmentFiltersSerde {
    /// No rules on enrichment data.
    pub open spec fn is_default(&self) -> bool {
        &&& self.lotw == TriState::Any
        &&& self.in_master_db == TriState::Any
        &&& self.in_callbook == TriState::Any
        &&& self.membership@.len() == 0
    }
}

impl FilterConfigSerde {
    /// Fifteen minutes, 160 m to 6 m, and no further rules.
    pub open spec fn is_default(&self) -> bool {
        &&& self.max_age_secs == 900
        &&& self.freq_sanity_hz == Some((1_800_000u64, 54_000_000u64))
        &&& self.unknown_policy == UnknownFieldPolicy::Neutral
        &&& self.rf.is_default()
        &&& self.dx.is_default()
        &&& self.spotter.is_default()
        &&& self.content.is_default()
        &&& self.correlation.is_default()
        &&& self.skimmer.is_default()
        &&& self.geo.is_default()
        &&& self.enrichment.is_default()
    }
}

impl Default for FilterConfigSerde {
    fn default() -> (r: Self)
        ensures
            r.is_default(),
    {
        FilterConfigSerde {
            max_age_secs: 15 * 60,
            freq_sanity_hz: Some((1_800_000, 54_000_000)),
            unknown_policy: UnknownFieldPolicy::Neutral,
            rf: RfFiltersSerde::default(),
            dx: CallsignFiltersSerde::default(),
            spotter: SpotterFiltersSerde::default(),
            content: ContentFiltersSerde::default(),
            correlation: CorrelationFiltersSerde::default(),
            skimmer: SkimmerMetricFiltersSerde::default(),
            geo: GeoFiltersSerde::default(),
            enrichment: EnrichmentFiltersSerde::default(),
        }
    }
}

impl Default for RfFiltersSerde {
    fn default() -> (r: Self)
        ensures
            r.is_default(),
    {
        RfFiltersSerde {
            band_allow: ValueSet::new(),
            band_deny: ValueSet::new(),
            mode_allow: ValueSet::new(),
            mode_deny: ValueSet::new(),
            freq_allow_hz: Vec::new(),
            freq_deny_hz: Vec::new(),
            profiles: Vec::new(),
            mode_policy: ModePolicy::PreferUpstreamFallbackInfer,
        }
    }
}

impl Default for CallsignFiltersSerde {
    fn default() -> (r: Self)
        ensures
            r.is_default(),
    {
        CallsignFiltersSerde {
            allow: PatternSetSerde::default(),
            deny: PatternSetSerde::default(),
            normalization: CallsignNormalizationSerde::default(),
        }
    }
}

impl Default for CallsignNormalizationSerde {
    fn default() -> (r: Self)
        ensures
            r.is_default(),
    {
        CallsignNormalizationSerde {
            uppercase: true,
            portable_policy: PortablePolicy::KeepAsIs,
            strip_non_alnum: false,
        }
    }
}

impl Default for SpotterFiltersSerde {
    fn default() -> (r: Self)
        ensures
            r.is_default(),
    {
        SpotterFiltersSerde {
            callsign: CallsignFiltersSerde::default(),
            source_allow: ValueSet::new(),
            source_deny: ValueSet::new(),
            allow_human: true,
            allow_skimmer: true,
            allow_unknown_kind: true,
        }
    }
}

impl Default for ContentFiltersSerde {
    fn default() -> (r: Self)
        ensures
            r.is_default(),
    {
        ContentFiltersSerde {
            comment_allow: PatternSetSerde::default(),
            comment_deny: PatternSetSerde::default(),
            cq_only: false,
            suppress_split_qsy: false,
            require_comment_when_allowlist_present: true,
        }
    }
}

impl Default for CorrelationFiltersSerde {
    fn default() -> (r: Self)
        ensures
            r.is_default(),
    {
        CorrelationFiltersSerde {
            min_unique_originators: 1,
            originators_human_only: false,
            min_unique_sources: 1,
            min_observations: 1,
            window_secs: 180,
            min_repeats_same_key: 1,
        }
    }
}

impl Default for SkimmerMetricFiltersSerde {
    fn default() -> (r: Self)
        ensures
            r.is_default(),
    {
        SkimmerMetricFiltersSerde { snr_db: None, wpm: None, drop_dupes: false, require_cq: false }
    }
}

impl Default for GeoFiltersSerde {
    fn default() -> (r: Self)
        ensures
            r.is_default(),
    {
        GeoFiltersSerde {
            dx: EntityFiltersSerde::default(),
            spotter: EntityFiltersSerde::default(),
            require_resolvers: false,
        }
    }
}

impl Default for EntityFiltersSerde {
    fn default() -> (r: Self)
        ensures
            r.is_default(),
    {
        EntityFiltersSerde {
            continent_allow: ValueSet::new(),
            continent_deny: ValueSet::new(),
            cq_zone_allow: ValueSet::new(),
            cq_zone_deny: ValueSet::new(),
            itu_zone_allow: ValueSet::new(),
            itu_zone_deny: ValueSet::new(),
            entity_allow: ValueSet::new(),
            entity_deny: ValueSet::new(),
            country_allow: ValueSet::new(),
            country_deny: ValueSet::new(),
            state_allow: ValueSet::new(),
            state_deny: ValueSet::new(),
            grid_allow: PatternSetSerde::default(),
            grid_deny: PatternSetSerde::default(),
        }
    }
}

impl Default for EnrichmentFiltersSerde {
    fn default() -> (r: Self)
        ensures
            r.is_default(),
    {
        EnrichmentFiltersSerde {
            lotw: TriState::Any,
            in_master_db: TriState::Any,
            in_callbook: TriState::Any,
            membership: Vec::new(),
        }
    }
}

impl Default for PatternSetSerde {
    fn default() -> (r: Self)
        ensures
            r.is_default(),
    {
        PatternSetSerde { globs: Vec::new(), regexes: Vec::new(), case_insensitive: false }
    }
}

} // verus!
