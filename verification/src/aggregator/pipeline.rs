//! Aggregator core: wires spot table, skimmer quality, and filter evaluation
//! into a single processing pipeline. A synchronous state machine.

use crate::callsign::{normalize_callsign, normalized};
use crate::domain::{ModePolicy, OriginatorKind};
use crate::filter::compiled::FilterConfig;
use crate::filter::config::CallsignNormalizationSerde;
use crate::filter::decision::FilterDecision;
use crate::filter::evaluate::{capped, decision, evaluate, hits_of};
use crate::freq::{
    band_at, bucket_floor, bucket_width, freq_bucket, freq_to_band, mode_under, resolve_mode,
};
use crate::model::{
    clone_text, no_geo, observation_models, DxEvent, DxSpot, DxSpotEvent, EventModel, GeoModel,
    GeoResolved, KeyModel, ObservationModel, OriginatorId, SkimQualityTag, SourceId, SpotEventKind,
    SpotEventModel, SpotKey, SpotModel, SpotObservation, SpotView, ViewModel,
};
use crate::parser::spot::{ParsedSpot, ParsedSpotModel, SkimmerFields};
use crate::resolver::enrichment::EnrichmentResolver;
use crate::resolver::entity::{opt_entity, EntityInfo, EntityModel, EntityResolver};
use crate::sets::{opt_set, ValueSet};
use crate::skimmer::config::SkimmerQualityConfig;
use crate::skimmer::quality::{gate_open, EngineModel, ObsModel, SkimmerQualityEngine};
use crate::time::{Duration, Timestamp};
use vstd::prelude::*;

use super::spot_table::{
    left_models, lemma_ingested, lemma_row_of_props, lemma_with_state, lemma_with_state_twice,
    lemma_without_row, row_of, stale_spots, station_of, CallBandModeKey, IngestInput, InputModel,
    SpotState, SpotTable, SpotTableConfig, StateModel, TableModel,
};

verus! {

// ---------------------------------------------------------------------------
// Configuration
// ---------------------------------------------------------------------------

/// Frequency bucketing configuration.
#[derive(Debug, Clone, Copy, PartialEq, Eq, Structural)]
pub struct FreqBucketConfig {
    pub cw_bucket_hz: u64,
    pub ssb_bucket_hz: u64,
    pub dig_bucket_hz: u64,
}

impl Default for FreqBucketConfig {
    fn default() -> (r: Self)
        ensures
            r == (FreqBucketConfig { cw_bucket_hz: 10, ssb_bucket_hz: 1000, dig_bucket_hz: 100 }),
    {
        FreqBucketConfig { cw_bucket_hz: 10, ssb_bucket_hz: 1000, dig_bucket_hz: 100 }
    }
}

/// Deduplication / emission control.
#[derive(Debug, Clone, Copy, PartialEq, Eq, Structural)]
pub struct DedupeConfig {
    /// Emit Update events when a spot changes meaningfully.
    pub emit_updates: bool,
    /// Minimum time between Update emissions for the same spot.
    /// When set, Update events for a spot are suppressed until this
    /// duration has elapsed since the last emission. `None` disables
    /// the cooldown (every qualifying Update is emitted immediately).
    pub min_update_interval: Option<Duration>,
    /// When true (default), detect QSY: if a station already has an emitted
    /// spot on this band/mode at a different frequency bucket, withdraw the
    /// old spot before emitting the new one.
    pub detect_qsy: bool,
}

impl Default for DedupeConfig {
    fn default() -> (r: Self)
        ensures
            r == (DedupeConfig {
                emit_updates: false,
                min_update_interval: None,
                detect_qsy: true,
            }),
    {
        DedupeConfig { emit_updates: false, min_update_interval: None, detect_qsy: true }
    }
}

/// Full aggregator configuration.
#[derive(Debug, Clone, Copy, PartialEq, Eq, Structural)]
pub struct AggregatorConfig {
    pub freq_bucket: FreqBucketConfig,
    pub callsign_norm: CallsignNormalizationSerde,
    pub dedupe: DedupeConfig,
    pub spot_ttl: Duration,
    pub max_observations_per_spot: usize,
    pub mode_policy: ModePolicy,
    /// Hard cap on total number of spots in the table.
    pub max_spots: usize,
}

impl Default for AggregatorConfig {
    fn default() -> (r: Self)
        ensures
            r.is_default(),
    {
        AggregatorConfig {
            freq_bucket: FreqBucketConfig::default(),
            callsign_norm: CallsignNormalizationSerde::default(),
            dedupe: DedupeConfig::default(),
            spot_ttl: Duration::from_secs(900),
            max_observations_per_spot: 20,
            mode_policy: ModePolicy::default(),
            max_spots: 50_000,
        }
    }
}

impl AggregatorConfig {
    /// Buckets of 10, 1000 and 100 Hz, no updates, QSY detection, fifteen
    /// minutes, twenty observations per spot, fifty thousand spots.
    pub open spec fn is_default(&self) -> bool {
        &&& self.freq_bucket == (FreqBucketConfig {
            cw_bucket_hz: 10,
            ssb_bucket_hz: 1000,
            dig_bucket_hz: 100,
        })
        &&& self.callsign_norm.is_default()
        &&& self.dedupe == (DedupeConfig {
            emit_updates: false,
            min_update_interval: None,
            detect_qsy: true,
        })
        &&& self.spot_ttl@ == 900 * 1_000_000_000
        &&& self.max_observations_per_spot == 20
        &&& self.mode_policy == ModePolicy::PreferUpstreamFallbackInfer
        &&& self.max_spots == 50_000
    }

    /// The settings that go to the spot table.
    pub open spec fn table(&self) -> SpotTableConfig {
        SpotTableConfig {
            ttl: self.spot_ttl,
            max_observations_per_spot: self.max_observations_per_spot,
            max_spots: self.max_spots,
        }
    }

    /// The settings that go to the spot table.
    fn table_config(&self) -> (r: SpotTableConfig)
        ensures
            r == self.table(),
    {
        SpotTableConfig {
            ttl: self.spot_ttl,
            max_observations_per_spot: self.max_observations_per_spot,
            max_spots: self.max_spots,
        }
    }
}

// ---------------------------------------------------------------------------
// Inputs
// ---------------------------------------------------------------------------

/// A parsed spot observation ready for aggregation.
pub struct IncomingObservation {
    pub parsed: ParsedSpot,
    pub source_id: SourceId,
    pub originator_kind: OriginatorKind,
    pub received_at: Timestamp,
    pub skimmer_fields: Option<SkimmerFields>,
}

/// What an [`IncomingObservation`] stands for.
pub struct IncomingModel {
    pub parsed: ParsedSpotModel,
    pub source_id: Seq<char>,
    pub originator_kind: OriginatorKind,
    pub received_at: int,
    pub skimmer_fields: Option<SkimmerFields>,
}

impl View for IncomingObservation {
    type V = IncomingModel;

    open spec fn view(&self) -> IncomingModel {
        IncomingModel {
            parsed: self.parsed@,
            source_id: self.source_id@,
            originator_kind: self.originator_kind,
            received_at: self.received_at@,
            skimmer_fields: self.skimmer_fields,
        }
    }
}

/// What the resolvers say of an observation. Each part is there exactly where
/// the aggregator has such a resolver.
pub struct Lookups {
    pub entity: Option<EntityLookup>,
    pub enrichment: Option<EnrichmentLookup>,
}

/// The entities of the DX station and of the spotter.
pub struct EntityLookup {
    pub dx: Option<EntityInfo>,
    pub spotter: Option<EntityInfo>,
}

/// Enrichment data of the DX station.
pub struct EnrichmentLookup {
    pub lotw: Option<bool>,
    pub in_master_db: Option<bool>,
    pub in_callbook: Option<bool>,
    pub memberships: Option<ValueSet<String>>,
}

/// What an [`EntityLookup`] stands for.
pub struct EntityLookupModel {
    pub dx: Option<EntityModel>,
    pub spotter: Option<EntityModel>,
}

/// What an [`EnrichmentLookup`] stands for.
pub struct EnrichmentLookupModel {
    pub lotw: Option<bool>,
    pub in_master_db: Option<bool>,
    pub in_callbook: Option<bool>,
    pub memberships: Option<Set<Seq<char>>>,
}

/// What [`Lookups`] stand for.
pub struct LookupsModel {
    pub entity: Option<EntityLookupModel>,
    pub enrichment: Option<EnrichmentLookupModel>,
}

impl View for Lookups {
    type V = LookupsModel;

    open spec fn view(&self) -> LookupsModel {
        LookupsModel {
            entity: match self.entity {
                Some(e) => Some(
                    EntityLookupModel { dx: opt_entity(e.dx), spotter: opt_entity(e.spotter) },
                ),
                None => None,
            },
            enrichment: match self.enrichment {
                Some(e) => Some(
                    EnrichmentLookupModel {
                        lotw: e.lotw,
                        in_master_db: e.in_master_db,
                        in_callbook: e.in_callbook,
                        memberships: opt_set(e.memberships),
                    },
                ),
                None => None,
            },
        }
    }
}

// ---------------------------------------------------------------------------
// The pipeline
// ---------------------------------------------------------------------------

/// The key of the spot that a report belongs to.
pub open spec fn key_for(config: AggregatorConfig, parsed: ParsedSpotModel) -> KeyModel {
    let mode = mode_under(parsed.freq_hz, None, config.mode_policy);
    KeyModel {
        dx_call_norm: normalized(parsed.dx_call, config.callsign_norm),
        band: band_at(parsed.freq_hz),
        mode,
        freq_bucket_hz: bucket_floor(
            parsed.freq_hz,
            bucket_width(
                mode,
                config.freq_bucket.cw_bucket_hz,
                config.freq_bucket.ssb_bucket_hz,
                config.freq_bucket.dig_bucket_hz,
            ),
        ),
    }
}

/// The normalized callsign of the spotter.
pub open spec fn spotter_for(config: AggregatorConfig, parsed: ParsedSpotModel) -> Seq<char> {
    normalized(parsed.spotter_call, config.callsign_norm)
}

/// The skimmer fields of an observation, empty where it has none.
pub open spec fn fields_for(obs: IncomingModel) -> SkimmerFields {
    match obs.skimmer_fields {
        Some(f) => f,
        None => SkimmerFields { snr_db: None, wpm: None, is_cq: false },
    }
}

/// What goes into the spot table.
pub open spec fn input_for(config: AggregatorConfig, obs: IncomingModel) -> InputModel {
    let key = key_for(config, obs.parsed);
    InputModel {
        key,
        dx_call: obs.parsed.dx_call,
        freq_hz: obs.parsed.freq_hz,
        band: key.band,
        mode: key.mode,
        comment: obs.parsed.comment,
        observation: ObservationModel {
            source: obs.source_id,
            originator: spotter_for(config, obs.parsed),
            originator_kind: obs.originator_kind,
            snr_db: fields_for(obs).snr_db,
            wpm: fields_for(obs).wpm,
            obs_time: obs.received_at,
        },
    }
}

/// The state of a spot with what the resolvers said: the entity of the DX
/// station and its enrichment data are kept once known, the entity of the
/// spotter is that of the last one.
pub open spec fn with_lookups(state: StateModel, l: LookupsModel) -> StateModel {
    let located = match l.entity {
        Some(e) => StateModel {
            dx_entity: if state.dx_entity is None { e.dx } else { state.dx_entity },
            spotter_entity: e.spotter,
            ..state
        },
        None => state,
    };
    match l.enrichment {
        Some(e) => if state.lotw is None {
            StateModel {
                lotw: e.lotw,
                in_master_db: e.in_master_db,
                in_callbook: e.in_callbook,
                memberships: e.memberships,
                ..located
            }
        } else {
            located
        },
        None => located,
    }
}

/// The state of a spot with a quality tag, where there is one.
pub open spec fn with_tag(state: StateModel, tag: Option<SkimQualityTag>) -> StateModel {
    match tag {
        Some(t) => StateModel {
            spot: SpotModel { skim_quality: Some(t), ..state.spot },
            ..state
        },
        None => state,
    }
}

/// What the filter sees of an entity.
pub open spec fn geo_for(entity: Option<EntityModel>) -> GeoModel {
    match entity {
        Some(info) => GeoModel {
            continent: Some(info.continent),
            cq_zone: Some(info.cq_zone),
            itu_zone: Some(info.itu_zone),
            entity: Some(info.entity_name),
            country: None,
            state: None,
            grid: None,
        },
        None => no_geo(),
    }
}

/// Number of observations made no longer than `window` before `now`.
pub open spec fn count_within(list: Seq<ObservationModel>, now: int, window: int) -> nat
    decreases list.len(),
{
    if list.len() == 0 {
        0
    } else {
        count_within(list.drop_last(), now, window) + if now - list.last().obs_time <= window {
            1nat
        } else {
            0nat
        }
    }
}

/// What the filter sees of a spot after an observation. Observations are
/// counted within the correlation window.
pub open spec fn view_for(
    state: StateModel,
    spotter: Seq<char>,
    source: Seq<char>,
    kind: OriginatorKind,
    fields: SkimmerFields,
    now: int,
    window: int,
) -> ViewModel {
    ViewModel {
        now,
        last_seen: state.spot.last_seen,
        freq_hz: state.spot.freq_hz,
        band: state.spot.band,
        mode: state.spot.mode,
        dx_call_norm: state.spot.spot_key.dx_call_norm,
        comment: state.spot.comment,
        unique_originators: capped(state.originators.len()),
        unique_human_originators: capped(state.humans.len()),
        unique_sources: capped(state.sources.len()),
        total_observations_in_window: capped(count_within(state.spot.observations, now, window)),
        repeats_same_key_in_window: capped(count_within(state.spot.observations, now, window)),
        spotter_call_norm: Some(spotter),
        spotter_source_id: Some(source),
        originator_kind: kind,
        snr_db: fields.snr_db,
        wpm: fields.wpm,
        is_skimmer_dupe: false,
        is_skimmer_cq: fields.is_cq,
        dx_geo: geo_for(state.dx_entity),
        spotter_geo: geo_for(state.spotter_entity),
        lotw: state.lotw,
        in_master_db: state.in_master_db,
        in_callbook: state.in_callbook,
        memberships: state.memberships,
    }
}

/// The cooldown between updates has elapsed, or there is none.
pub open spec fn cooled(state: StateModel, now: int, interval: Option<Duration>) -> bool {
    match (interval, state.last_emitted_at) {
        (Some(i), Some(last)) => now - last >= i@,
        _ => true,
    }
}

/// What is emitted for a spot that passed: `New` the first time, then `Update`
/// where updates are on, something is new and the cooldown has elapsed.
pub open spec fn emission(state: StateModel, now: int, dedupe: DedupeConfig) -> Option<
    SpotEventKind,
> {
    if !state.first_emitted {
        Some(SpotEventKind::New)
    } else if dedupe.emit_updates && state.revision > state.last_emitted_revision && cooled(
        state,
        now,
        dedupe.min_update_interval,
    ) {
        Some(SpotEventKind::Update)
    } else {
        None
    }
}

/// The state of a spot after something was emitted for it.
pub open spec fn emitted_state(state: StateModel, now: int) -> StateModel {
    StateModel {
        first_emitted: true,
        last_emitted_revision: state.revision,
        last_emitted_at: Some(now),
        ..state
    }
}

/// A spot event.
pub open spec fn spot_event(spot: SpotModel, kind: SpotEventKind, revision: u32) -> EventModel {
    EventModel::Spot(SpotEventModel { spot, kind, revision })
}

/// The withdrawals of spots that have left the table.
pub open spec fn withdrawals(left: Seq<(SpotModel, u32)>) -> Seq<EventModel> {
    Seq::new(left.len(), |i: int| spot_event(left[i].0, SpotEventKind::Withdraw, left[i].1))
}

/// The views of a list of events.
pub open spec fn event_models(events: Seq<DxEvent>) -> Seq<EventModel> {
    Seq::new(events.len(), |i: int| events[i]@)
}

/// What an [`Aggregator`] stands for, but for its resolvers.
pub struct AggregatorModel {
    pub table: TableModel,
    pub filter: FilterConfig,
    pub engine: Option<EngineModel>,
    pub config: AggregatorConfig,
}

impl AggregatorModel {
    /// The parts are well-formed and the table has the aggregator's settings.
    pub open spec fn wf(&self) -> bool {
        &&& self.table.wf()
        &&& self.engine matches Some(e) ==> e.wf()
        &&& self.table.config == self.config.table()
    }

    /// The aggregator after maintenance.
    pub open spec fn ticked(&self, now: int) -> AggregatorModel {
        AggregatorModel {
            table: self.table.evicted(now),
            engine: match self.engine {
                Some(e) => Some(e.expired(now)),
                None => None,
            },
            ..*self
        }
    }

    /// The withdrawals of maintenance.
    pub open spec fn tick_events(&self, now: int) -> Seq<EventModel> {
        withdrawals(stale_spots(self.table.rows, now, self.table.config.ttl@))
    }

    /// The aggregator with another filter.
    pub open spec fn with_filter(&self, filter: FilterConfig) -> AggregatorModel {
        AggregatorModel { filter, ..*self }
    }

    /// The aggregator with other settings, its table included.
    pub open spec fn with_config(&self, config: AggregatorConfig) -> AggregatorModel {
        AggregatorModel {
            config,
            table: TableModel { config: config.table(), ..self.table },
            ..*self
        }
    }

    /// The aggregator with other quality settings: an engine that is there goes
    /// on under them, one that is not starts where they enable it, and without
    /// settings there is none.
    pub open spec fn with_skimmer(&self, config: Option<SkimmerQualityConfig>) -> AggregatorModel {
        AggregatorModel {
            engine: match (self.engine, config) {
                (Some(e), Some(c)) => Some(EngineModel { config: c, ..e }),
                (None, Some(c)) => if c.enabled {
                    Some(EngineModel { config: c, observations: seq![], verified: seq![] })
                } else {
                    None
                },
                (_, None) => None,
            },
            ..*self
        }
    }

    /// The entity of the reported DX station is known.
    pub open spec fn entity_known(&self, obs: IncomingModel) -> bool {
        let key = key_for(self.config, obs.parsed);
        self.table.has(key) && self.table.state(key).dx_entity is Some
    }

    /// The enrichment data of the reported DX station are known.
    pub open spec fn enrichment_known(&self, obs: IncomingModel) -> bool {
        let key = key_for(self.config, obs.parsed);
        self.table.has(key) && self.table.state(key).lotw is Some
    }

    /// The engine after a report by a skimmer was recorded.
    pub open spec fn recorded(&self, obs: IncomingModel) -> EngineModel {
        self.engine->0.recorded(
            key_for(self.config, obs.parsed).dx_call_norm,
            ObsModel {
                freq_hz: obs.parsed.freq_hz,
                skimmer_call: spotter_for(self.config, obs.parsed),
                timestamp: obs.received_at,
            },
        )
    }

    /// The quality tag of a report, where it is a skimmer's and there is an engine.
    pub open spec fn tag(&self, obs: IncomingModel) -> Option<SkimQualityTag> {
        if self.engine is Some && obs.originator_kind == OriginatorKind::Skimmer {
            Some(
                self.recorded(obs).tag(
                    key_for(self.config, obs.parsed).dx_call_norm,
                    obs.parsed.freq_hz,
                    obs.received_at,
                ),
            )
        } else {
            None
        }
    }

    /// The engine after a report.
    pub open spec fn engine_after(&self, obs: IncomingModel) -> Option<EngineModel> {
        if self.engine is Some && obs.originator_kind == OriginatorKind::Skimmer {
            Some(
                self.recorded(obs).tagged(
                    key_for(self.config, obs.parsed).dx_call_norm,
                    obs.parsed.freq_hz,
                    obs.received_at,
                ),
            )
        } else {
            self.engine
        }
    }

    /// The engine lets the report through.
    pub open spec fn gate_passes(&self, obs: IncomingModel) -> bool {
        self.engine matches Some(e) ==> gate_open(
            e.config,
            match self.tag(obs) {
                Some(t) => t,
                None => SkimQualityTag::Unknown,
            },
            obs.originator_kind,
        )
    }

    /// The state of the reported spot, resolved and tagged.
    pub open spec fn spot_after(&self, obs: IncomingModel, l: LookupsModel) -> StateModel {
        let input = input_for(self.config, obs);
        with_tag(with_lookups(self.table.ingested(input).state(input.key), l), self.tag(obs))
    }

    /// The filter lets the reported spot through.
    pub open spec fn filter_passes(&self, obs: IncomingModel, l: LookupsModel) -> bool {
        let view = view_for(
            self.spot_after(obs, l),
            spotter_for(self.config, obs.parsed),
            obs.source_id,
            obs.originator_kind,
            fields_for(obs),
            obs.received_at,
            self.filter.correlation.window@,
        );
        decision(view, self.filter, hits_of(view, self.filter)) == FilterDecision::Allow
    }

    /// The report gets through to emission.
    pub open spec fn passes(&self, obs: IncomingModel, l: LookupsModel) -> bool {
        self.gate_passes(obs) && self.filter_passes(obs, l)
    }

    /// The table with the observation in it, resolved and tagged.
    pub open spec fn table_ready(&self, obs: IncomingModel, l: LookupsModel) -> TableModel {
        let input = input_for(self.config, obs);
        self.table.ingested(input).with_state(input.key, self.spot_after(obs, l))
    }

    /// The aggregator after an observation.
    pub open spec fn processed(&self, obs: IncomingModel, l: LookupsModel) -> AggregatorModel {
        let ready = self.table_ready(obs, l);
        AggregatorModel {
            table: if self.passes(obs, l) {
                table_emitting(
                    ready,
                    key_for(self.config, obs.parsed),
                    obs.received_at,
                    self.config.dedupe,
                )
            } else {
                ready
            },
            engine: self.engine_after(obs),
            ..*self
        }
    }

    /// The events of an observation: withdrawals of the spots it displaced,
    /// then what is emitted for its own spot.
    pub open spec fn events(&self, obs: IncomingModel, l: LookupsModel) -> Seq<EventModel> {
        let displaced = withdrawals(self.table.displaced(input_for(self.config, obs)));
        if self.passes(obs, l) {
            displaced + events_emitting(
                self.table_ready(obs, l),
                key_for(self.config, obs.parsed),
                obs.received_at,
                self.config.dedupe,
            )
        } else {
            displaced
        }
    }
}

/// The table with the spot of `key` marked as emitted, where something is
/// emitted for it.
pub open spec fn table_marked(
    t: TableModel,
    key: KeyModel,
    now: int,
    dedupe: DedupeConfig,
) -> TableModel {
    if emission(t.state(key), now, dedupe) is Some {
        t.with_state(key, emitted_state(t.state(key), now))
    } else {
        t
    }
}

/// The key that a station leaves by moving to a new spot: the one last emitted
/// for it on this band and mode, where it is another.
pub open spec fn key_left(t: TableModel, key: KeyModel, now: int, dedupe: DedupeConfig) -> Option<
    KeyModel,
> {
    if dedupe.detect_qsy && emission(t.state(key), now, dedupe) == Some(SpotEventKind::New) {
        match table_marked(t, key, now, dedupe).emitted_for(station_of(key)) {
            Some(old) => if old == key { None } else { Some(old) },
            None => None,
        }
    } else {
        None
    }
}

/// The table after emission for the spot of `key`: the spot that the station
/// left is gone, and a new spot is remembered as emitted.
pub open spec fn table_emitting(
    t: TableModel,
    key: KeyModel,
    now: int,
    dedupe: DedupeConfig,
) -> TableModel {
    let marked = table_marked(t, key, now, dedupe);
    if dedupe.detect_qsy && emission(t.state(key), now, dedupe) == Some(SpotEventKind::New) {
        match key_left(t, key, now, dedupe) {
            Some(old) => marked.without(old).with_emission(key),
            None => marked.with_emission(key),
        }
    } else {
        marked
    }
}

/// What is emitted for the spot of `key`: the withdrawal of the spot that the
/// station left, if it left one, and the spot itself.
pub open spec fn events_emitting(
    t: TableModel,
    key: KeyModel,
    now: int,
    dedupe: DedupeConfig,
) -> Seq<EventModel> {
    let state = t.state(key);
    match emission(state, now, dedupe) {
        Some(kind) => {
            let own = spot_event(state.spot, kind, state.revision);
            match key_left(t, key, now, dedupe) {
                Some(old) => {
                    let gone = table_marked(t, key, now, dedupe).state(old);
                    seq![spot_event(gone.spot, SpotEventKind::Withdraw, gone.revision), own]
                },
                None => seq![own],
            }
        },
        None => seq![],
    }
}

// ---------------------------------------------------------------------------
// Steps
// ---------------------------------------------------------------------------

/// Put what the resolvers said into the state of a spot.
pub fn apply_lookups(state: &mut SpotState, lookups: Lookups)
    ensures
        final(state)@ == with_lookups(old(state)@, lookups@),
{
    let enrich: bool = state.lotw.is_none();
    if let Some(entity) = lookups.entity {
        if state.dx_entity.is_none() {
            state.dx_entity = entity.dx;
        }
        state.spotter_entity = entity.spotter;
    }
    if let Some(data) = lookups.enrichment {
        if enrich {
            state.lotw = data.lotw;
            state.in_master_db = data.in_master_db;
            state.in_callbook = data.in_callbook;
            state.memberships = data.memberships;
        }
    }
}

/// A count, capped at 255.
fn cap_count(n: usize) -> (r: u8)
    ensures
        r == capped(n as nat),
{
    if n <= 255 {
        n as u8
    } else {
        255
    }
}

/// Number of observations made no longer than `window` before `now`.
fn recent_count(list: &Vec<SpotObservation>, now: Timestamp, window: Duration) -> (r: usize)
    ensures
        r == count_within(observation_models(list@), now@, window@),
{
    let ghost all = observation_models(list@);
    let mut n: usize = 0;
    let mut i: usize = 0;
    assert(all.take(0).len() == 0);
    while i < list.len()
        invariant
            i <= list@.len(),
            n <= i,
            all == observation_models(list@),
            n == count_within(all.take(i as int), now@, window@),
        decreases list@.len() - i,
    {
        proof {
            assert(all.take(i + 1).drop_last() =~= all.take(i as int));
            assert(all.take(i + 1).last() == all[i as int]);
        }
        if now.nanos_since(&list[i].obs_time) <= window.as_nanos() {
            n += 1;
        }
        i += 1;
    }
    assert(all.take(i as int) =~= all);
    n
}

/// What the filter sees of an entity.
fn geo_view<'a>(entity: &'a Option<EntityInfo>) -> (r: GeoResolved<'a>)
    ensures
        r@ == geo_for(opt_entity(*entity)),
{
    match entity {
        Some(info) => GeoResolved {
            continent: Some(info.continent),
            cq_zone: Some(info.cq_zone),
            itu_zone: Some(info.itu_zone),
            entity: Some(info.entity_name.as_str()),
            country: None,
            state: None,
            grid: None,
        },
        None => GeoResolved::default(),
    }
}

/// What the filter sees of a spot after an observation.
pub fn build_spot_view<'a>(
    state: &'a SpotState,
    spotter_call_norm: &'a str,
    source_id: &'a str,
    originator_kind: OriginatorKind,
    skim: &SkimmerFields,
    now: Timestamp,
    window: Duration,
) -> (r: SpotView<'a>)
    ensures
        r@ == view_for(
            state@,
            spotter_call_norm@,
            source_id@,
            originator_kind,
            *skim,
            now@,
            window@,
        ),
{
    let observations: u8 = cap_count(recent_count(&state.spot.observations, now, window));
    SpotView {
        now,
        last_seen: state.spot.last_seen,
        freq_hz: state.spot.freq_hz,
        band: state.spot.band,
        mode: state.spot.mode,
        dx_call_norm: state.spot.spot_key.dx_call_norm.as_str(),
        comment: match &state.spot.comment {
            Some(c) => Some(c.as_str()),
            None => None,
        },
        unique_originators: cap_count(state.originator_set.len()),
        unique_human_originators: cap_count(state.human_originator_set.len()),
        unique_sources: cap_count(state.source_set.len()),
        total_observations_in_window: observations,
        repeats_same_key_in_window: observations,
        spotter_call_norm: Some(spotter_call_norm),
        spotter_source_id: Some(source_id),
        originator_kind,
        snr_db: skim.snr_db,
        wpm: skim.wpm,
        is_skimmer_dupe: false,
        is_skimmer_cq: skim.is_cq,
        dx_geo: geo_view(&state.dx_entity),
        spotter_geo: geo_view(&state.spotter_entity),
        lotw: state.lotw,
        in_master_db: state.in_master_db,
        in_callbook: state.in_callbook,
        memberships: match &state.memberships {
            Some(set) => Some(set),
            None => None,
        },
    }
}

/// Decide what to emit for a spot that passed, and mark the spot as emitted
/// where something is.
pub fn decide_emission(state: &mut SpotState, now: Timestamp, dedupe: &DedupeConfig) -> (r: Option<
    DxSpotEvent,
>)
    ensures
        match r {
            Some(event) => {
                &&& emission(old(state)@, now@, *dedupe) == Some(event.kind)
                &&& event.spot@ == old(state)@.spot
                &&& event.revision == old(state)@.revision
                &&& final(state)@ == emitted_state(old(state)@, now@)
            },
            None => {
                &&& emission(old(state)@, now@, *dedupe) is None
                &&& final(state)@ == old(state)@
            },
        },
{
    let kind = if !state.first_emitted {
        // First time the spot passes, or it was filtered on all earlier attempts.
        SpotEventKind::New
    } else {
        if !dedupe.emit_updates || state.revision <= state.last_emitted_revision {
            return None;
        }
        if let Some(interval) = dedupe.min_update_interval {
            if let Some(last) = state.last_emitted_at {
                if now.nanos_since(&last) < interval.as_nanos() {
                    return None;
                }
            }
        }
        SpotEventKind::Update
    };
    state.first_emitted = true;
    state.last_emitted_revision = state.revision;
    state.last_emitted_at = Some(now);
    Some(DxSpotEvent { spot: state.spot.clone(), kind, revision: state.revision })
}

/// Withdraw events for spots that have left the table.
fn withdraw_all(left: Vec<(DxSpot, u32)>) -> (r: Vec<DxEvent>)
    ensures
        event_models(r@) == withdrawals(left_models(left@)),
{
    let mut events: Vec<DxEvent> = Vec::new();
    let ghost all = left@;
    for gone in it: left
        invariant
            it.seq() == all,
            event_models(events@) == withdrawals(left_models(all)).take(it.index() as int),
    {
        let ghost n = it.index() as int;
        let ghost before = event_models(events@);
        let (spot, revision) = gone;
        events.push(
            DxEvent::Spot(DxSpotEvent { spot, kind: SpotEventKind::Withdraw, revision }),
        );
        proof {
            assert(event_models(events@) =~= before.push(withdrawals(left_models(all))[n]));
            assert(withdrawals(left_models(all)).take(n + 1) =~= withdrawals(
                left_models(all),
            ).take(n).push(withdrawals(left_models(all))[n]));
        }
    }
    assert(withdrawals(left_models(all)).take(all.len() as int) =~= withdrawals(left_models(all)));
    events
}

/// Append an event.
fn push_event(events: &mut Vec<DxEvent>, event: DxEvent)
    ensures
        event_models(final(events)@) == event_models(old(events)@).push(event@),
{
    let ghost before = event_models(events@);
    events.push(event);
    assert(event_models(events@) =~= before.push(event@));
}

/// Record a report by a skimmer and classify it, where there is an engine.
fn quality_tag(
    engine: &mut Option<SkimmerQualityEngine>,
    dx_call: &str,
    freq_hz: u64,
    spotter: &str,
    kind: OriginatorKind,
    now: Timestamp,
) -> (r: Option<SkimQualityTag>)
    requires
        *old(engine) matches Some(e) ==> e.wf(),
    ensures
        *final(engine) matches Some(e) ==> e.wf(),
        match (*old(engine), *final(engine)) {
            (Some(a), Some(b)) => {
                let seen = a@.recorded(
                    dx_call@,
                    ObsModel { freq_hz, skimmer_call: spotter@, timestamp: now@ },
                );
                if kind == OriginatorKind::Skimmer {
                    &&& r == Some(seen.tag(dx_call@, freq_hz, now@))
                    &&& b@ == seen.tagged(dx_call@, freq_hz, now@)
                } else {
                    r is None && b@ == a@
                }
            },
            (None, None) => r is None,
            _ => false,
        },
{
    match engine {
        Some(e) => {
            if kind == OriginatorKind::Skimmer {
                e.record_observation(dx_call, freq_hz, spotter, now);
                Some(e.compute_tag(dx_call, freq_hz, now))
            } else {
                None
            }
        },
        None => None,
    }
}

/// Whether the engine, where there is one, lets a report through.
fn gate_allows(
    engine: &Option<SkimmerQualityEngine>,
    tag: Option<SkimQualityTag>,
    kind: OriginatorKind,
) -> (r: bool)
    ensures
        r == (*engine matches Some(e) ==> gate_open(
            e@.config,
            match tag {
                Some(t) => t,
                None => SkimQualityTag::Unknown,
            },
            kind,
        )),
{
    match engine {
        Some(e) => {
            let t = match tag {
                Some(t) => t,
                None => SkimQualityTag::Unknown,
            };
            e.should_emit(t, kind)
        },
        None => true,
    }
}

/// Put resolver data and the quality tag into the spot of a key.
fn update_spot(
    table: &mut SpotTable,
    key: &SpotKey,
    lookups: Lookups,
    tag: Option<SkimQualityTag>,
)
    requires
        old(table).wf(),
        old(table)@.has(key@),
    ensures
        final(table).wf(),
        final(table)@ == old(table)@.with_state(
            key@,
            with_tag(with_lookups(old(table)@.state(key@), lookups@), tag),
        ),
        final(table)@.has(key@),
{
    let ghost t = table@;
    let ghost s = with_tag(with_lookups(t.state(key@), lookups@), tag);
    proof {
        lemma_with_state(t, key@, s);
        assert(t.with_state(key@, s).has(key@) == t.has(key@));
    }
    if let Some(state) = table.get_mut(key) {
        apply_lookups(state, lookups);
        if let Some(tag) = tag {
            state.spot.skim_quality = Some(tag);
        }
    }
}

/// Emit what there is to emit for the spot of a key.
fn emit_spot(table: &mut SpotTable, key: &SpotKey, now: Timestamp, dedupe: &DedupeConfig) -> (r:
    Vec<DxEvent>)
    requires
        old(table).wf(),
        old(table)@.has(key@),
    ensures
        final(table).wf(),
        final(table)@ == table_emitting(old(table)@, key@, now@, *dedupe),
        event_models(r@) == events_emitting(old(table)@, key@, now@, *dedupe),
{
    let ghost t = table@;
    let ghost marked = table_marked(t, key@, now@, *dedupe);
    proof {
        lemma_with_state_twice(t, key@, t.state(key@), t.state(key@));
        lemma_with_state(t, key@, emitted_state(t.state(key@), now@));
        assert(t.with_state(key@, emitted_state(t.state(key@), now@)).has(key@) == t.has(key@));
    }
    let event: Option<DxSpotEvent> = match table.get_mut(key) {
        Some(state) => decide_emission(state, now, dedupe),
        None => None,
    };
    assert(table@ == marked);
    let mut events: Vec<DxEvent> = Vec::new();
    assert(event_models(events@) =~= Seq::<EventModel>::empty());
    let event = match event {
        Some(e) => e,
        None => {
            return events;
        },
    };
    // QSY: a new spot of a station that was emitted elsewhere on this band
    // and mode withdraws the old one
    if dedupe.detect_qsy && event.kind == SpotEventKind::New {
        let station = CallBandModeKey::of(key);
        let old_key: Option<SpotKey> = match table.lookup_emitted(&station) {
            Some(k) => if k.same(key) {
                None
            } else {
                Some(k.clone())
            },
            None => None,
        };
        if let Some(old_key) = old_key {
            proof {
                lemma_row_of_props(marked.rows, old_key@);
                lemma_without_row(marked, row_of(marked.rows, old_key@) as int);
                assert(marked.without(old_key@).has(key@) == marked.has(key@));
                assert(key_left(t, key@, now@, *dedupe) == Some(old_key@));
            }
            if let Some((spot, revision)) = table.remove_spot(&old_key) {
                push_event(
                    &mut events,
                    DxEvent::Spot(DxSpotEvent { spot, kind: SpotEventKind::Withdraw, revision }),
                );
            }
        }
        table.register_emission(key);
    }
    push_event(&mut events, DxEvent::Spot(event));
    assert(event_models(events@) =~= events_emitting(t, key@, now@, *dedupe));
    events
}

// ---------------------------------------------------------------------------
// Aggregator
// ---------------------------------------------------------------------------

/// The core aggregator that processes observations and emits events.
///
/// All inputs arrive via method calls.
pub struct Aggregator {
    spot_table: SpotTable,
    filter: FilterConfig,
    skimmer_engine: Option<SkimmerQualityEngine>,
    entity_resolver: Option<Box<dyn EntityResolver>>,
    enrichment_resolver: Option<Box<dyn EnrichmentResolver>>,
    config: AggregatorConfig,
}

impl View for Aggregator {
    type V = AggregatorModel;

    closed spec fn view(&self) -> AggregatorModel {
        AggregatorModel {
            table: self.spot_table@,
            filter: self.filter,
            engine: match self.skimmer_engine {
                Some(e) => Some(e@),
                None => None,
            },
            config: self.config,
        }
    }
}

impl Aggregator {
    /// The aggregator is consistent.
    pub closed spec fn wf(&self) -> bool {
        &&& self@.wf()
        &&& self.skimmer_engine matches Some(e) ==> e.wf()
    }

    /// What a consistent aggregator stands for is well-formed.
    pub proof fn lemma_wf(&self)
        requires
            self.wf(),
        ensures
            self@.wf(),
    {
    }

    /// The entity resolver, if there is one.
    pub closed spec fn entities(&self) -> Option<Box<dyn EntityResolver>> {
        self.entity_resolver
    }

    /// The enrichment resolver, if there is one.
    pub closed spec fn enrichment(&self) -> Option<Box<dyn EnrichmentResolver>> {
        self.enrichment_resolver
    }

    /// The resolvers are the same.
    pub open spec fn same_resolvers(&self, other: &Aggregator) -> bool {
        self.entities() == other.entities() && self.enrichment() == other.enrichment()
    }

    /// The lookups are answers of the resolvers to what is asked about an
    /// observation: about the DX station while its entity or its enrichment
    /// data are not known, about the spotter every time.
    pub open spec fn lookups_fit(&self, obs: IncomingModel, l: LookupsModel) -> bool {
        let dx = key_for(self@.config, obs.parsed).dx_call_norm;
        &&& match (self.entities(), l.entity) {
            (Some(resolver), Some(e)) => {
                &&& if self@.entity_known(obs) {
                    e.dx is None
                } else {
                    resolver.may_answer(dx, e.dx)
                }
                &&& resolver.may_answer(spotter_for(self@.config, obs.parsed), e.spotter)
            },
            (None, None) => true,
            _ => false,
        }
        &&& match (self.enrichment(), l.enrichment) {
            (Some(resolver), Some(e)) => if self@.enrichment_known(obs) {
                e.lotw is None && e.in_master_db is None && e.in_callbook is None
                    && e.memberships is None
            } else {
                &&& resolver.may_answer_lotw(dx, e.lotw)
                &&& resolver.may_answer_master_db(dx, e.in_master_db)
                &&& resolver.may_answer_callbook(dx, e.in_callbook)
                &&& resolver.may_answer_memberships(dx, e.memberships)
            },
            (None, None) => true,
            _ => false,
        }
    }

    /// An aggregator that has seen nothing.
    pub fn new(
        filter: FilterConfig,
        skimmer_config: Option<SkimmerQualityConfig>,
        config: AggregatorConfig,
        entity_resolver: Option<Box<dyn EntityResolver>>,
        enrichment_resolver: Option<Box<dyn EnrichmentResolver>>,
    ) -> (r: Self)
        ensures
            r.wf(),
            r@.wf(),
            r@.filter == filter,
            r@.config == config,
            r@.table.config == config.table(),
            r@.table.rows.len() == 0,
            r@.table.emitted.len() == 0,
            match (skimmer_config, r@.engine) {
                (Some(c), Some(e)) => e.config == c && e.observations.len() == 0
                    && e.verified.len() == 0,
                (None, None) => true,
                _ => false,
            },
            r.entities() == entity_resolver,
            r.enrichment() == enrichment_resolver,
    {
        let spot_table = SpotTable::new(config.table_config());
        let skimmer_engine = match skimmer_config {
            Some(c) => Some(SkimmerQualityEngine::new(c)),
            None => None,
        };
        Aggregator {
            spot_table,
            filter,
            skimmer_engine,
            entity_resolver,
            enrichment_resolver,
            config,
        }
    }

    /// The key of the spot that a report belongs to.
    pub fn key_of(&self, parsed: &ParsedSpot) -> (r: SpotKey)
        ensures
            r@ == key_for(self@.config, parsed@),
    {
        let mode = resolve_mode(parsed.freq_hz, None, self.config.mode_policy);
        SpotKey {
            dx_call_norm: normalize_callsign(
                parsed.dx_call.as_str(),
                &self.config.callsign_norm,
            ),
            band: freq_to_band(parsed.freq_hz),
            mode,
            freq_bucket_hz: freq_bucket(
                parsed.freq_hz,
                mode,
                self.config.freq_bucket.cw_bucket_hz,
                self.config.freq_bucket.ssb_bucket_hz,
                self.config.freq_bucket.dig_bucket_hz,
            ),
        }
    }

    /// Ask the resolvers about an observation. The DX station is looked up
    /// only while its entity or its enrichment data are not known.
    fn look_up(&self, obs: &IncomingObservation) -> (r: Lookups)
        requires
            self.wf(),
        ensures
            self.lookups_fit(obs@, r@),
    {
        let key = self.key_of(&obs.parsed);
        let dx = key.dx_call_norm.as_str();
        let (need_entity, need_enrichment): (bool, bool) = match self.spot_table.get(&key) {
            Some(state) => (state.dx_entity.is_none(), state.lotw.is_none()),
            None => (true, true),
        };
        let entity = match &self.entity_resolver {
            Some(resolver) => {
                let spotter = normalize_callsign(
                    obs.parsed.spotter_call.as_str(),
                    &self.config.callsign_norm,
                );
                Some(
                    EntityLookup {
                        dx: if need_entity {
                            resolver.resolve(dx)
                        } else {
                            None
                        },
                        spotter: resolver.resolve(spotter.as_str()),
                    },
                )
            },
            None => None,
        };
        let enrichment = match &self.enrichment_resolver {
            Some(resolver) => {
                if need_enrichment {
                    Some(
                        EnrichmentLookup {
                            lotw: resolver.lotw_user(dx),
                            in_master_db: resolver.in_master_db(dx),
                            in_callbook: resolver.in_callbook(dx),
                            memberships: resolver.memberships(dx),
                        },
                    )
                } else {
                    Some(
                        EnrichmentLookup {
                            lotw: None,
                            in_master_db: None,
                            in_callbook: None,
                            memberships: None,
                        },
                    )
                }
            },
            None => None,
        };
        Lookups { entity, enrichment }
    }

    /// Process an incoming observation through the full pipeline.
    ///
    /// Returns usually 0 or 1 events, but may return `[Withdraw, New]` when
    /// QSY is detected (station changed frequency bucket within the same
    /// band/mode). Spots that the observation displaced from a full table are
    /// withdrawn first.
    pub fn process_observation(&mut self, obs: IncomingObservation) -> (r: Vec<DxEvent>)
        requires
            old(self).wf(),
        ensures
            final(self).wf(),
            final(self).same_resolvers(old(self)),
            exists|l: LookupsModel| #[trigger]
                old(self).lookups_fit(obs@, l) && final(self)@ == old(self)@.processed(obs@, l)
                    && event_models(r@) == old(self)@.events(obs@, l),
    {
        let lookups = self.look_up(&obs);
        let ghost l = lookups@;
        assert(old(self).lookups_fit(obs@, l));
        self.process_resolved(obs, lookups)
    }

    /// Process an incoming observation, given what the resolvers say of it.
    pub fn process_resolved(&mut self, obs: IncomingObservation, lookups: Lookups) -> (r: Vec<
        DxEvent,
    >)
        requires
            old(self).wf(),
        ensures
            final(self).wf(),
            final(self).same_resolvers(old(self)),
            final(self)@ == old(self)@.processed(obs@, lookups@),
            event_models(r@) == old(self)@.events(obs@, lookups@),
    {
        let ghost m = self@;
        let ghost o = obs@;
        let ghost l = lookups@;
        let now = obs.received_at;
        let kind = obs.originator_kind;
        let key = self.key_of(&obs.parsed);
        let spotter = normalize_callsign(
            obs.parsed.spotter_call.as_str(),
            &self.config.callsign_norm,
        );
        let fields: SkimmerFields = match obs.skimmer_fields {
            Some(f) => f,
            None => SkimmerFields { snr_db: None, wpm: None, is_cq: false },
        };
        // Ingest into the spot table
        let input = IngestInput {
            key: key.clone(),
            dx_call: obs.parsed.dx_call.clone(),
            freq_hz: obs.parsed.freq_hz,
            band: key.band,
            mode: key.mode,
            comment: clone_text(&obs.parsed.comment),
            observation: SpotObservation {
                source: obs.source_id.clone(),
                originator: OriginatorId(spotter.clone()),
                originator_kind: kind,
                snr_db: fields.snr_db,
                wpm: fields.wpm,
                obs_time: now,
            },
        };
        assert(input@ == input_for(m.config, o));
        proof {
            lemma_ingested(m.table, input_for(m.config, o));
        }
        let (_, displaced) = self.spot_table.ingest_displacing(input);
        let mut events = withdraw_all(displaced);
        // Skimmer quality
        let tag = quality_tag(
            &mut self.skimmer_engine,
            key.dx_call_norm.as_str(),
            obs.parsed.freq_hz,
            spotter.as_str(),
            kind,
            now,
        );
        assert(tag == m.tag(o));
        // Resolver data and tag
        update_spot(&mut self.spot_table, &key, lookups, tag);
        assert(self.spot_table@ == m.table_ready(o, l));
        proof {
            lemma_with_state(
                m.table.ingested(input_for(m.config, o)),
                key@,
                m.spot_after(o, l),
            );
            assert(self@.table.state(key@) == m.spot_after(o, l));
        }
        // Skimmer gating and general filter
        if !gate_allows(&self.skimmer_engine, tag, kind) {
            return events;
        }
        if !self.filter_allows(&key, spotter.as_str(), obs.source_id.0.as_str(), kind, &fields, now) {
            return events;
        }
        let dedupe = self.config.dedupe;
        let mut emitted = emit_spot(&mut self.spot_table, &key, now, &dedupe);
        let ghost first = event_models(events@);
        let ghost second = event_models(emitted@);
        events.append(&mut emitted);
        assert(event_models(events@) =~= first + second);
        events
    }

    /// Whether the filter lets the spot of a key through.
    fn filter_allows(
        &self,
        key: &SpotKey,
        spotter: &str,
        source: &str,
        kind: OriginatorKind,
        fields: &SkimmerFields,
        now: Timestamp,
    ) -> (r: bool)
        requires
            self.wf(),
            self@.table.has(key@),
        ensures
            r == ({
                let view = view_for(
                    self@.table.state(key@),
                    spotter@,
                    source@,
                    kind,
                    *fields,
                    now@,
                    self@.filter.correlation.window@,
                );
                decision(view, self@.filter, hits_of(view, self@.filter)) == FilterDecision::Allow
            }),
    {
        match self.spot_table.get(key) {
            Some(state) => {
                let view = build_spot_view(
                    state,
                    spotter,
                    source,
                    kind,
                    fields,
                    now,
                    self.filter.correlation.window,
                );
                match evaluate(&view, &self.filter) {
                    FilterDecision::Allow => true,
                    FilterDecision::Drop(_) => false,
                }
            },
            None => false,
        }
    }

    /// Periodic maintenance: evict expired spots and return Withdraw events.
    pub fn tick(&mut self, now: Timestamp) -> (r: Vec<DxEvent>)
        requires
            old(self).wf(),
        ensures
            final(self).wf(),
            final(self).same_resolvers(old(self)),
            final(self)@ == old(self)@.ticked(now@),
            event_models(r@) == old(self)@.tick_events(now@),
    {
        let expired = self.spot_table.evict_expired(now);
        let events = withdraw_all(expired);
        if let Some(engine) = &mut self.skimmer_engine {
            engine.evict_expired(now);
        }
        events
    }

    /// Get a reference to the spot table (for inspection/testing).
    pub fn spot_table(&self) -> (r: &SpotTable)
        requires
            self.wf(),
        ensures
            r@ == self@.table,
            r.wf(),
    {
        &self.spot_table
    }

    /// Replace the active filter with a new compiled filter config.
    pub fn update_filter(&mut self, filter: FilterConfig)
        requires
            old(self).wf(),
        ensures
            final(self).wf(),
            final(self)@ == old(self)@.with_filter(filter),
            final(self).same_resolvers(old(self)),
    {
        self.filter = filter;
    }

    /// Replace the aggregator configuration at runtime.
    ///
    /// Cascades relevant settings to the spot table (TTL, max_spots,
    /// max_observations_per_spot).
    ///
    /// **Warning:** Changing `freq_bucket`, `callsign_norm`, or `mode_policy`
    /// at runtime will cause new observations to hash to different `SpotKey`s
    /// than existing spots. The consumer is responsible for understanding this
    /// effect.
    pub fn update_aggregator_config(&mut self, config: AggregatorConfig)
        requires
            old(self).wf(),
        ensures
            final(self).wf(),
            final(self)@ == old(self)@.with_config(config),
            final(self).same_resolvers(old(self)),
    {
        self.spot_table.update_config(config.table_config());
        self.config = config;
    }

    /// Replace or toggle the skimmer quality engine at runtime.
    ///
    /// - `Some(cfg)` with an existing engine: updates the engine's config.
    /// - `Some(cfg)` with no engine and `cfg.enabled`: creates a new engine.
    /// - `None`: disables the engine entirely.
    pub fn update_skimmer_config(&mut self, config: Option<SkimmerQualityConfig>)
        requires
            old(self).wf(),
        ensures
            final(self).wf(),
            final(self)@ == old(self)@.with_skimmer(config),
            final(self).same_resolvers(old(self)),
    {
        match config {
            Some(cfg) => {
                if let Some(engine) = &mut self.skimmer_engine {
                    engine.update_config(cfg);
                } else if cfg.enabled {
                    let engine = SkimmerQualityEngine::new(cfg);
                    assert(engine@.observations =~= seq![]);
                    assert(engine@.verified =~= seq![]);
                    self.skimmer_engine = Some(engine);
                }
            },
            None => {
                self.skimmer_engine = None;
            },
        }
    }
}

} // verus!
