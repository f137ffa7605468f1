//! Feed configuration and event flow.
//!
//! Use [`DxFeedBuilder`] to configure sources, filters, and options, then call
//! [`prepare()`](DxFeedBuilder::prepare) to validate them into a [`FeedPlan`]
//! that an application can run.

use crate::aggregator::pipeline::{
    event_models, Aggregator, AggregatorConfig, DedupeConfig, LookupsModel,
};
use crate::filter::compiled::{config_error, FilterConfig};
use crate::filter::config::FilterConfigSerde;
use crate::filter::error::{error_text, FilterConfigError};
use crate::model::{DxEvent, EventModel};
use crate::resolver::entity::EntityResolver;
use crate::skimmer::config::SkimmerQualityConfig;
use crate::source::message::{MessageModel, SourceMessage};
use crate::source::supervisor::SourceConfig;
use crate::time::Duration;
use vstd::prelude::*;
use vstd::string::*;

verus! {

// ---------------------------------------------------------------------------
// Errors
// ---------------------------------------------------------------------------

/// Errors from building or configuring a feed.
#[derive(Debug)]
pub enum DxFeedError {
    NoSources,
    FilterConfig(FilterConfigError),
}

impl DxFeedError {
    /// The error in words.
    pub fn message(&self) -> (r: String)
        ensures
            match *self {
                DxFeedError::NoSources => r@ == "no sources configured"@,
                DxFeedError::FilterConfig(e) => r@ == "filter config error: "@ + error_text(e@),
            },
    {
        match self {
            DxFeedError::NoSources => "no sources configured".to_owned(),
            DxFeedError::FilterConfig(e) => {
                let m = e.message();
                "filter config error: ".to_owned().concat(m.as_str())
            },
        }
    }
}

// ---------------------------------------------------------------------------
// Builder
// ---------------------------------------------------------------------------

/// Builder for a feed.
///
/// At minimum, one source must be added via [`add_source()`](DxFeedBuilder::add_source).
/// All other options have sensible defaults.
pub struct DxFeedBuilder {
    pub sources: Vec<SourceConfig>,
    pub filter: FilterConfigSerde,
    pub aggregator_config: AggregatorConfig,
    pub skimmer_quality: Option<SkimmerQualityConfig>,
    pub entity_resolver: Option<Box<dyn EntityResolver>>,
    pub source_channel_capacity: usize,
    pub event_channel_capacity: usize,
    pub tick_interval: Duration,
}

/// A validated feed, ready to run.
pub struct FeedPlan {
    pub sources: Vec<SourceConfig>,
    pub filter: FilterConfig,
    pub aggregator_config: AggregatorConfig,
    pub skimmer_quality: Option<SkimmerQualityConfig>,
    pub entity_resolver: Option<Box<dyn EntityResolver>>,
    pub source_channel_capacity: usize,
    pub event_channel_capacity: usize,
    pub tick_interval: Duration,
}

impl Default for DxFeedBuilder {
    fn default() -> (r: Self)
        ensures
            r.is_default(),
    {
        Self::new()
    }
}

impl DxFeedBuilder {
    /// No sources, default filter and aggregation, no quality engine.
    pub open spec fn is_default(&self) -> bool {
        &&& self.sources@.len() == 0
        &&& self.filter.is_default()
        &&& self.aggregator_config.is_default()
        &&& self.skimmer_quality is None
        &&& self.entity_resolver is None
        &&& self.source_channel_capacity == 256
        &&& self.event_channel_capacity == 256
        &&& self.tick_interval@ == 10 * 1_000_000_000
    }

    /// A builder with default settings and no sources.
    pub fn new() -> (r: Self)
        ensures
            r.is_default(),
    {
        DxFeedBuilder {
            sources: Vec::new(),
            filter: FilterConfigSerde::default(),
            aggregator_config: AggregatorConfig::default(),
            skimmer_quality: None,
            entity_resolver: None,
            source_channel_capacity: 256,
            event_channel_capacity: 256,
            tick_interval: Duration::from_secs(10),
        }
    }

    /// Add a source (telnet cluster or RBN) to the feed.
    pub fn add_source(self, source: SourceConfig) -> (r: Self)
        ensures
            r.sources@ == self.sources@.push(source),
            r == (DxFeedBuilder { sources: r.sources, ..self }),
    {
        let mut sources = self.sources;
        sources.push(source);
        DxFeedBuilder { sources, ..self }
    }

    /// Set the filter configuration. Compiled and validated by `prepare`.
    pub fn set_filter(self, filter: FilterConfigSerde) -> (r: Self)
        ensures
            r == (DxFeedBuilder { filter, ..self }),
    {
        DxFeedBuilder { filter, ..self }
    }

    /// Set the aggregator configuration (freq bucketing, callsign normalization, etc.).
    pub fn set_aggregator_config(self, config: AggregatorConfig) -> (r: Self)
        ensures
            r == (DxFeedBuilder { aggregator_config: config, ..self }),
    {
        DxFeedBuilder { aggregator_config: config, ..self }
    }

    /// Enable skimmer quality gating with the given configuration.
    pub fn set_skimmer_quality(self, config: SkimmerQualityConfig) -> (r: Self)
        ensures
            r == (DxFeedBuilder { skimmer_quality: Some(config), ..self }),
    {
        DxFeedBuilder { skimmer_quality: Some(config), ..self }
    }

    /// Set an entity (DXCC) resolver for geographic data.
    pub fn entity_resolver(self, resolver: Box<dyn EntityResolver>) -> (r: Self)
        ensures
            r == (DxFeedBuilder { entity_resolver: Some(resolver), ..self }),
    {
        DxFeedBuilder { entity_resolver: Some(resolver), ..self }
    }

    /// Set the capacity of the source-to-aggregator channel.
    pub fn source_channel_capacity(self, cap: usize) -> (r: Self)
        ensures
            r == (DxFeedBuilder { source_channel_capacity: cap, ..self }),
    {
        DxFeedBuilder { source_channel_capacity: cap, ..self }
    }

    /// Set the capacity of the aggregator-to-consumer channel.
    pub fn event_channel_capacity(self, cap: usize) -> (r: Self)
        ensures
            r == (DxFeedBuilder { event_channel_capacity: cap, ..self }),
    {
        DxFeedBuilder { event_channel_capacity: cap, ..self }
    }

    /// Set the interval for TTL eviction ticks.
    pub fn tick_interval(self, interval: Duration) -> (r: Self)
        ensures
            r == (DxFeedBuilder { tick_interval: interval, ..self }),
    {
        DxFeedBuilder { tick_interval: interval, ..self }
    }

    /// Validate the settings and compile the filter.
    pub fn prepare(self) -> (r: Result<FeedPlan, DxFeedError>)
        ensures
            match r {
                Ok(plan) => {
                    &&& self.sources@.len() > 0
                    &&& config_error(self.filter) is None
                    &&& plan.filter.compiled_from(self.filter)
                    &&& plan.sources == self.sources
                    &&& plan.aggregator_config == self.aggregator_config
                    &&& plan.skimmer_quality == self.skimmer_quality
                    &&& plan.entity_resolver == self.entity_resolver
                    &&& plan.source_channel_capacity == self.source_channel_capacity
                    &&& plan.event_channel_capacity == self.event_channel_capacity
                    &&& plan.tick_interval == self.tick_interval
                },
                Err(DxFeedError::NoSources) => self.sources@.len() == 0,
                Err(DxFeedError::FilterConfig(e)) => self.sources@.len() > 0 && config_error(
                    self.filter,
                ) == Some(e@),
            },
    {
        if self.sources.len() == 0 {
            return Err(DxFeedError::NoSources);
        }
        let filter = match self.filter.validate_and_compile() {
            Ok(f) => f,
            Err(e) => {
                return Err(DxFeedError::FilterConfig(e));
            },
        };
        Ok(
            FeedPlan {
                sources: self.sources,
                filter,
                aggregator_config: self.aggregator_config,
                skimmer_quality: self.skimmer_quality,
                entity_resolver: self.entity_resolver,
                source_channel_capacity: self.source_channel_capacity,
                event_channel_capacity: self.event_channel_capacity,
                tick_interval: self.tick_interval,
            },
        )
    }
}

// ---------------------------------------------------------------------------
// Settings of a running feed
// ---------------------------------------------------------------------------

/// The settings of a running feed that can be changed one by one.
#[derive(Debug, Clone, Copy, PartialEq, Eq, Structural)]
pub struct FeedSettings {
    pub aggregator: AggregatorConfig,
    pub skimmer: Option<SkimmerQualityConfig>,
}

impl FeedSettings {
    /// Set the time to live of spots.
    pub fn set_spot_ttl(&mut self, ttl: Duration)
        ensures
            *final(self) == (FeedSettings {
                aggregator: AggregatorConfig { spot_ttl: ttl, ..old(self).aggregator },
                ..*old(self)
            }),
    {
        self.aggregator.spot_ttl = ttl;
    }

    /// Turn update events on or off.
    pub fn set_emit_updates(&mut self, on: bool)
        ensures
            *final(self) == (FeedSettings {
                aggregator: AggregatorConfig {
                    dedupe: DedupeConfig { emit_updates: on, ..old(self).aggregator.dedupe },
                    ..old(self).aggregator
                },
                ..*old(self)
            }),
    {
        self.aggregator.dedupe.emit_updates = on;
    }

    /// Set the cap on the number of spots.
    pub fn set_max_spots(&mut self, max: usize)
        ensures
            *final(self) == (FeedSettings {
                aggregator: AggregatorConfig { max_spots: max, ..old(self).aggregator },
                ..*old(self)
            }),
    {
        self.aggregator.max_spots = max;
    }

    /// The quality settings, the default ones where there are none yet.
    fn skimmer_or_default(&self) -> (r: SkimmerQualityConfig)
        ensures
            self.skimmer matches Some(c) ==> r == c,
            self.skimmer is None ==> r.is_default(),
    {
        match self.skimmer {
            Some(c) => c,
            None => SkimmerQualityConfig::default(),
        }
    }

    /// Turn gating of skimmer spots on or off.
    pub fn set_skimmer_gate(&mut self, on: bool)
        ensures
            final(self).aggregator == old(self).aggregator,
            exists|c: SkimmerQualityConfig| #[trigger]
                old(self).skimmer_before(c) && final(self).skimmer == Some(
                    SkimmerQualityConfig { gate_skimmer_output: on, ..c },
                ),
    {
        let mut c = self.skimmer_or_default();
        assert(old(self).skimmer_before(c));
        c.gate_skimmer_output = on;
        self.skimmer = Some(c);
    }

    /// Let spots of unknown quality through, or not.
    pub fn set_allow_unverified(&mut self, on: bool)
        ensures
            final(self).aggregator == old(self).aggregator,
            exists|c: SkimmerQualityConfig| #[trigger]
                old(self).skimmer_before(c) && final(self).skimmer == Some(
                    SkimmerQualityConfig { allow_unknown: on, ..c },
                ),
    {
        let mut c = self.skimmer_or_default();
        assert(old(self).skimmer_before(c));
        c.allow_unknown = on;
        self.skimmer = Some(c);
    }

    /// Set how many distinct skimmers corroborate a spot.
    pub fn set_required_distinct_skimmers(&mut self, n: u8)
        ensures
            final(self).aggregator == old(self).aggregator,
            exists|c: SkimmerQualityConfig| #[trigger]
                old(self).skimmer_before(c) && final(self).skimmer == Some(
                    SkimmerQualityConfig { valid_required_distinct_skimmers: n, ..c },
                ),
    {
        let mut c = self.skimmer_or_default();
        assert(old(self).skimmer_before(c));
        c.valid_required_distinct_skimmers = n;
        self.skimmer = Some(c);
    }

    /// `c` is what a change to the quality settings starts from: those that are
    /// there, else the default ones.
    pub open spec fn skimmer_before(&self, c: SkimmerQualityConfig) -> bool {
        match self.skimmer {
            Some(s) => c == s,
            None => c.is_default(),
        }
    }
}

// ---------------------------------------------------------------------------
// Event flow
// ---------------------------------------------------------------------------

/// Pass a message of a source on: observations go through the aggregator,
/// states and announcements become events as they are.
pub fn on_message(aggregator: &mut Aggregator, message: SourceMessage) -> (r: Vec<DxEvent>)
    requires
        old(aggregator).wf(),
    ensures
        final(aggregator).wf(),
        final(aggregator).same_resolvers(old(aggregator)),
        match message@ {
            MessageModel::Observation(obs) => exists|l: LookupsModel| #[trigger]
                old(aggregator).lookups_fit(obs, l) && final(aggregator)@ == old(
                    aggregator,
                )@.processed(obs, l) && event_models(r@) == old(aggregator)@.events(obs, l),
            MessageModel::Status { source_id, state, timestamp } => {
                &&& final(aggregator)@ == old(aggregator)@
                &&& event_models(r@) == seq![
                    EventModel::SourceStatus { source_id, state, timestamp },
                ]
            },
            MessageModel::Announce { source, text, timestamp } => {
                &&& final(aggregator)@ == old(aggregator)@
                &&& event_models(r@) == seq![EventModel::Announce { source, text, timestamp }]
            },
        },
{
    match message {
        SourceMessage::Observation(obs) => aggregator.process_observation(obs),
        SourceMessage::Status(status) => {
            let mut events: Vec<DxEvent> = Vec::new();
            events.push(DxEvent::SourceStatus(status));
            assert(event_models(events@) =~= seq![events@[0]@]);
            events
        },
        SourceMessage::Announce(announce) => {
            let mut events: Vec<DxEvent> = Vec::new();
            events.push(DxEvent::Announce(announce));
            assert(event_models(events@) =~= seq![events@[0]@]);
            events
        },
    }
}

} // verus!
