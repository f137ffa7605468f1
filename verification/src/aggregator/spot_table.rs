//! In-memory spot state table for deduplication and correlation.
//!
//! The `SpotTable` holds one state per `SpotKey`, with TTL eviction, a cap on
//! the number of spots, bounded observation history, and incremental
//! originator/source tracking. It also remembers which spot of a station was
//! last emitted on each band and mode.

use crate::domain::{Band, DxMode, OriginatorKind};
use crate::filter::evaluate::capped;
use crate::model::{
    observation_models, opt_text, opt_time, DxSpot, KeyModel, ObservationModel, SpotConfidence,
    SpotKey, SpotModel, SpotObservation,
};
use crate::resolver::entity::{opt_entity, EntityInfo, EntityModel};
use crate::sets::{opt_set, ValueSet};
use crate::text::str_eq;
use crate::time::{Duration, Timestamp};
use vstd::prelude::*;

verus! {

// ---------------------------------------------------------------------------
// Configuration
// ---------------------------------------------------------------------------

/// Configuration for the spot table.
#[derive(Debug, Clone, Copy, PartialEq, Eq, Structural)]
pub struct SpotTableConfig {
    /// How long a spot lives before eviction (default: 900s / 15 min).
    pub ttl: Duration,
    /// Maximum observations to keep per spot (default: 20).
    pub max_observations_per_spot: usize,
    /// Hard cap on the number of spots (default: 50000).
    pub max_spots: usize,
}

impl Default for SpotTableConfig {
    fn default() -> (r: Self)
        ensures
            r.ttl@ == 900 * 1_000_000_000,
            r.max_observations_per_spot == 20,
            r.max_spots == 50_000,
    {
        SpotTableConfig {
            ttl: Duration::from_secs(900),
            max_observations_per_spot: 20,
            max_spots: 50_000,
        }
    }
}

// ---------------------------------------------------------------------------
// SpotState
// ---------------------------------------------------------------------------

/// Internal state for one aggregated spot in the table.
pub struct SpotState {
    pub spot: DxSpot,
    /// Whether this spot has ever been emitted as a New event.
    pub first_emitted: bool,
    /// The revision number at the last emission.
    pub last_emitted_revision: u32,
    /// When the spot was last emitted.
    pub last_emitted_at: Option<Timestamp>,
    /// Current revision (incremented on each new observation).
    pub revision: u32,
    /// Set of unique originator callsigns (all kinds).
    pub originator_set: ValueSet<String>,
    /// Set of unique human originator callsigns.
    pub human_originator_set: ValueSet<String>,
    /// Set of unique source IDs.
    pub source_set: ValueSet<String>,
    /// Entity of the DX station, once resolved.
    pub dx_entity: Option<EntityInfo>,
    /// Entity of the last spotter.
    pub spotter_entity: Option<EntityInfo>,
    pub lotw: Option<bool>,
    pub in_master_db: Option<bool>,
    pub in_callbook: Option<bool>,
    pub memberships: Option<ValueSet<String>>,
}

/// What a [`SpotState`] stands for.
pub struct StateModel {
    pub spot: SpotModel,
    pub first_emitted: bool,
    pub last_emitted_revision: u32,
    pub last_emitted_at: Option<int>,
    pub revision: u32,
    pub originators: Set<Seq<char>>,
    pub humans: Set<Seq<char>>,
    pub sources: Set<Seq<char>>,
    pub dx_entity: Option<EntityModel>,
    pub spotter_entity: Option<EntityModel>,
    pub lotw: Option<bool>,
    pub in_master_db: Option<bool>,
    pub in_callbook: Option<bool>,
    pub memberships: Option<Set<Seq<char>>>,
}

impl View for SpotState {
    type V = StateModel;

    open spec fn view(&self) -> StateModel {
        StateModel {
            spot: self.spot@,
            first_emitted: self.first_emitted,
            last_emitted_revision: self.last_emitted_revision,
            last_emitted_at: opt_time(self.last_emitted_at),
            revision: self.revision,
            originators: self.originator_set@,
            humans: self.human_originator_set@,
            sources: self.source_set@,
            dx_entity: opt_entity(self.dx_entity),
            spotter_entity: opt_entity(self.spotter_entity),
            lotw: self.lotw,
            in_master_db: self.in_master_db,
            in_callbook: self.in_callbook,
            memberships: opt_set(self.memberships),
        }
    }
}

// ---------------------------------------------------------------------------
// Results and inputs
// ---------------------------------------------------------------------------

/// Result of ingesting an observation into the spot table.
#[derive(Debug, PartialEq, Eq)]
pub enum SpotTableResult {
    /// A brand new spot was created.
    NewSpot(SpotKey),
    /// An existing spot was updated with a new observation.
    UpdatedSpot(SpotKey),
}

impl Clone for SpotTableResult {
    fn clone(&self) -> (r: Self)
        ensures
            match (*self, r) {
                (SpotTableResult::NewSpot(a), SpotTableResult::NewSpot(b)) => a@ == b@,
                (SpotTableResult::UpdatedSpot(a), SpotTableResult::UpdatedSpot(b)) => a@ == b@,
                _ => false,
            },
    {
        match self {
            SpotTableResult::NewSpot(key) => SpotTableResult::NewSpot(key.clone()),
            SpotTableResult::UpdatedSpot(key) => SpotTableResult::UpdatedSpot(key.clone()),
        }
    }
}

/// Bundle of data needed to ingest a new observation.
pub struct IngestInput {
    /// Pre-computed spot key.
    pub key: SpotKey,
    /// Original DX callsign (for display, may differ from key's normalized form).
    pub dx_call: String,
    /// Exact frequency in Hz.
    pub freq_hz: u64,
    pub band: Band,
    pub mode: DxMode,
    pub comment: Option<String>,
    pub observation: SpotObservation,
}

/// What an [`IngestInput`] stands for.
pub struct InputModel {
    pub key: KeyModel,
    pub dx_call: Seq<char>,
    pub freq_hz: u64,
    pub band: Band,
    pub mode: DxMode,
    pub comment: Option<Seq<char>>,
    pub observation: ObservationModel,
}

impl View for IngestInput {
    type V = InputModel;

    open spec fn view(&self) -> InputModel {
        InputModel {
            key: self.key@,
            dx_call: self.dx_call@,
            freq_hz: self.freq_hz,
            band: self.band,
            mode: self.mode,
            comment: opt_text(self.comment),
            observation: self.observation@,
        }
    }
}

/// A station on a band in a mode, whatever its frequency.
#[derive(Debug, PartialEq, Eq, Hash)]
pub struct CallBandModeKey {
    pub dx_call_norm: String,
    pub band: Band,
    pub mode: DxMode,
}

/// What a [`CallBandModeKey`] stands for.
pub struct StationModel {
    pub dx_call_norm: Seq<char>,
    pub band: Band,
    pub mode: DxMode,
}

impl View for CallBandModeKey {
    type V = StationModel;

    open spec fn view(&self) -> StationModel {
        StationModel { dx_call_norm: self.dx_call_norm@, band: self.band, mode: self.mode }
    }
}

/// The station, band and mode of a spot.
pub open spec fn station_of(key: KeyModel) -> StationModel {
    StationModel { dx_call_norm: key.dx_call_norm, band: key.band, mode: key.mode }
}

impl CallBandModeKey {
    /// The station, band and mode of a spot.
    pub fn of(key: &SpotKey) -> (r: Self)
        ensures
            r@ == station_of(key@),
    {
        CallBandModeKey {
            dx_call_norm: key.dx_call_norm.clone(),
            band: key.band,
            mode: key.mode,
        }
    }
}

// ---------------------------------------------------------------------------
// What the table does
// ---------------------------------------------------------------------------

/// One row of the table: a key and the state of its spot.
pub struct RowModel {
    pub key: KeyModel,
    pub state: StateModel,
}

/// What a [`SpotTable`] stands for: its rows in the order in which the spots
/// were created, and the keys last emitted, at most one per station, band and mode.
pub struct TableModel {
    pub config: SpotTableConfig,
    pub rows: Seq<RowModel>,
    pub emitted: Seq<KeyModel>,
}

/// Position of the row of `key`, the number of rows where there is none.
pub open spec fn row_of(rows: Seq<RowModel>, key: KeyModel) -> nat
    decreases rows.len(),
{
    if rows.len() == 0 || rows[0].key == key {
        0
    } else {
        1 + row_of(rows.skip(1), key)
    }
}

/// Position of the emitted key of `station`, the number of emitted keys where
/// there is none.
pub open spec fn emitted_of(emitted: Seq<KeyModel>, station: StationModel) -> nat
    decreases emitted.len(),
{
    if emitted.len() == 0 || station_of(emitted[0]) == station {
        0
    } else {
        1 + emitted_of(emitted.skip(1), station)
    }
}

/// The observations with one more; beyond the cap the oldest is dropped.
pub open spec fn with_recent(
    list: Seq<ObservationModel>,
    obs: ObservationModel,
    cap: usize,
) -> Seq<ObservationModel> {
    let all = list.push(obs);
    if all.len() > cap {
        all.skip(1)
    } else {
        all
    }
}

/// The next revision; the last one is kept.
pub open spec fn next_revision(revision: u32) -> u32 {
    if revision < u32::MAX {
        (revision + 1) as u32
    } else {
        revision
    }
}

/// The set of human originators with the originator of `obs`, if it is human.
pub open spec fn with_human(humans: Set<Seq<char>>, obs: ObservationModel) -> Set<Seq<char>> {
    if obs.originator_kind == OriginatorKind::Human {
        humans.insert(obs.originator)
    } else {
        humans
    }
}

/// The state of a spot made from its first observation.
pub open spec fn fresh_state(input: InputModel) -> StateModel {
    let obs = input.observation;
    StateModel {
        spot: SpotModel {
            spot_key: input.key,
            dx_call: input.dx_call,
            freq_hz: input.freq_hz,
            band: input.band,
            mode: input.mode,
            first_seen: obs.obs_time,
            last_seen: obs.obs_time,
            spot_time: None,
            comment: input.comment,
            observations: seq![obs],
            unique_originators: 1,
            unique_sources: 1,
            skim_quality: None,
            quality_detail: None,
            confidence: SpotConfidence::Unverified,
        },
        first_emitted: false,
        last_emitted_revision: 0,
        last_emitted_at: None,
        revision: 1,
        originators: Set::empty().insert(obs.originator),
        humans: with_human(Set::empty(), obs),
        sources: Set::empty().insert(obs.source),
        dx_entity: None,
        spotter_entity: None,
        lotw: None,
        in_master_db: None,
        in_callbook: None,
        memberships: None,
    }
}

/// The state of a spot after one more observation: seen again, on its latest
/// frequency, with its latest comment.
pub open spec fn updated_state(state: StateModel, input: InputModel, cap: usize) -> StateModel {
    let obs = input.observation;
    let originators = state.originators.insert(obs.originator);
    let sources = state.sources.insert(obs.source);
    StateModel {
        spot: SpotModel {
            last_seen: obs.obs_time,
            freq_hz: input.freq_hz,
            comment: if input.comment is Some { input.comment } else { state.spot.comment },
            observations: with_recent(state.spot.observations, obs, cap),
            unique_originators: capped(originators.len()),
            unique_sources: capped(sources.len()),
            ..state.spot
        },
        revision: next_revision(state.revision),
        originators,
        humans: with_human(state.humans, obs),
        sources,
        ..state
    }
}

/// Position of the row seen longest ago, the first one among equals.
pub open spec fn oldest_row(rows: Seq<RowModel>) -> int
    decreases rows.len(),
{
    if rows.len() <= 1 {
        0
    } else {
        let k = oldest_row(rows.drop_last());
        if rows.last().state.spot.last_seen < rows[k].state.spot.last_seen {
            rows.len() - 1
        } else {
            k
        }
    }
}

/// The emitted keys without `key`.
pub open spec fn without_key(emitted: Seq<KeyModel>, key: KeyModel) -> Seq<KeyModel>
    decreases emitted.len(),
{
    if emitted.len() == 0 {
        emitted
    } else if emitted.last() == key {
        without_key(emitted.drop_last(), key)
    } else {
        without_key(emitted.drop_last(), key).push(emitted.last())
    }
}

/// What leaves the table with a row: the spot and its revision.
pub open spec fn leaving(row: RowModel) -> (SpotModel, u32) {
    (row.state.spot, row.state.revision)
}

/// The row has not been seen for longer than `ttl`.
pub open spec fn stale(row: RowModel, now: int, ttl: int) -> bool {
    now - row.state.spot.last_seen > ttl
}

impl TableModel {
    /// No key has two rows; every emitted key has a row, and no two emitted
    /// keys are of one station, band and mode.
    pub open spec fn wf(&self) -> bool {
        &&& forall|i: int, j: int|
            #![trigger self.rows[i], self.rows[j]]
            0 <= i < j < self.rows.len() ==> self.rows[i].key != self.rows[j].key
        &&& forall|i: int|
            0 <= i < self.emitted.len() ==> self.has(#[trigger] self.emitted[i])
        &&& forall|i: int, j: int|
            #![trigger self.emitted[i], self.emitted[j]]
            0 <= i < j < self.emitted.len() ==> station_of(self.emitted[i]) != station_of(
                self.emitted[j],
            )
    }

    /// The table has a spot for `key`.
    pub open spec fn has(&self, key: KeyModel) -> bool {
        row_of(self.rows, key) < self.rows.len()
    }

    /// The state of the spot of `key`.
    pub open spec fn state(&self, key: KeyModel) -> StateModel {
        self.rows[row_of(self.rows, key) as int].state
    }

    /// The table with `state` for the spot of `key`.
    pub open spec fn with_state(&self, key: KeyModel, state: StateModel) -> TableModel {
        TableModel {
            rows: self.rows.update(row_of(self.rows, key) as int, RowModel { key, state }),
            ..*self
        }
    }

    /// The key emitted for `station`, if there is one.
    pub open spec fn emitted_for(&self, station: StationModel) -> Option<KeyModel> {
        let k = emitted_of(self.emitted, station) as int;
        if k < self.emitted.len() {
            Some(self.emitted[k])
        } else {
            None
        }
    }

    /// The table without the row at `i`; an emission of its key is forgotten.
    pub open spec fn without_row(&self, i: int) -> TableModel {
        TableModel {
            rows: self.rows.remove(i),
            emitted: without_key(self.emitted, self.rows[i].key),
            ..*self
        }
    }

    /// The table with room for one more spot: while it is full, the spot seen
    /// longest ago leaves.
    pub open spec fn with_room(&self) -> TableModel
        decreases self.rows.len() via Self::room_decreases
    {
        if self.rows.len() > 0 && self.rows.len() >= self.config.max_spots {
            self.without_row(oldest_row(self.rows)).with_room()
        } else {
            *self
        }
    }

    /// What leaves while room is made, in order.
    pub open spec fn room_made(&self) -> Seq<(SpotModel, u32)>
        decreases self.rows.len() via Self::room_made_decreases
    {
        if self.rows.len() > 0 && self.rows.len() >= self.config.max_spots {
            seq![leaving(self.rows[oldest_row(self.rows)])] + self.without_row(
                oldest_row(self.rows),
            ).room_made()
        } else {
            seq![]
        }
    }

    /// The table after an observation.
    pub open spec fn ingested(&self, input: InputModel) -> TableModel {
        if self.has(input.key) {
            self.with_state(
                input.key,
                updated_state(
                    self.state(input.key),
                    input,
                    self.config.max_observations_per_spot,
                ),
            )
        } else {
            let room = self.with_room();
            TableModel {
                rows: room.rows.push(RowModel { key: input.key, state: fresh_state(input) }),
                ..room
            }
        }
    }

    /// What leaves the table to make room for an observation.
    pub open spec fn displaced(&self, input: InputModel) -> Seq<(SpotModel, u32)> {
        if self.has(input.key) {
            seq![]
        } else {
            self.room_made()
        }
    }

    /// The table after `key` was emitted: it takes the place of what was
    /// emitted before for its station, band and mode.
    pub open spec fn with_emission(&self, key: KeyModel) -> TableModel {
        let k = emitted_of(self.emitted, station_of(key)) as int;
        TableModel {
            emitted: if !self.has(key) {
                self.emitted
            } else if k < self.emitted.len() {
                self.emitted.update(k, key)
            } else {
                self.emitted.push(key)
            },
            ..*self
        }
    }

    /// The table without the spot of `key`.
    pub open spec fn without(&self, key: KeyModel) -> TableModel {
        if self.has(key) {
            self.without_row(row_of(self.rows, key) as int)
        } else {
            *self
        }
    }

    /// The table without its stale spots; their emissions are forgotten.
    pub open spec fn evicted(&self, now: int) -> TableModel {
        TableModel {
            rows: fresh_rows(self.rows, now, self.config.ttl@),
            emitted: emissions_left(self.emitted, self.rows, now, self.config.ttl@),
            ..*self
        }
    }

    #[via_fn]
    proof fn room_made_decreases(&self) {
        if self.rows.len() > 0 {
            lemma_oldest_row(self.rows);
        }
    }

    #[via_fn]
    proof fn room_decreases(&self) {
        if self.rows.len() > 0 {
            lemma_oldest_row(self.rows);
        }
    }
}

/// The rows that are not stale, in order.
pub open spec fn fresh_rows(rows: Seq<RowModel>, now: int, ttl: int) -> Seq<RowModel>
    decreases rows.len(),
{
    if rows.len() == 0 {
        rows
    } else if stale(rows.last(), now, ttl) {
        fresh_rows(rows.drop_last(), now, ttl)
    } else {
        fresh_rows(rows.drop_last(), now, ttl).push(rows.last())
    }
}

/// What leaves with the stale rows, in order.
pub open spec fn stale_spots(rows: Seq<RowModel>, now: int, ttl: int) -> Seq<(SpotModel, u32)>
    decreases rows.len(),
{
    if rows.len() == 0 {
        seq![]
    } else if stale(rows.last(), now, ttl) {
        stale_spots(rows.drop_last(), now, ttl).push(leaving(rows.last()))
    } else {
        stale_spots(rows.drop_last(), now, ttl)
    }
}

/// `key` is that of a stale row.
pub open spec fn goes_stale(rows: Seq<RowModel>, key: KeyModel, now: int, ttl: int) -> bool {
    exists|i: int| 0 <= i < rows.len() && (#[trigger] rows[i]).key == key && stale(rows[i], now, ttl)
}

/// The emitted keys that are not those of stale rows, in order.
pub open spec fn emissions_left(
    emitted: Seq<KeyModel>,
    rows: Seq<RowModel>,
    now: int,
    ttl: int,
) -> Seq<KeyModel>
    decreases emitted.len(),
{
    if emitted.len() == 0 {
        emitted
    } else if goes_stale(rows, emitted.last(), now, ttl) {
        emissions_left(emitted.drop_last(), rows, now, ttl)
    } else {
        emissions_left(emitted.drop_last(), rows, now, ttl).push(emitted.last())
    }
}

/// The oldest row is a row, and no row was seen before it.
pub proof fn lemma_oldest_row(rows: Seq<RowModel>)
    requires
        rows.len() > 0,
    ensures
        0 <= oldest_row(rows) < rows.len(),
        forall|i: int|
            0 <= i < rows.len() ==> rows[oldest_row(rows)].state.spot.last_seen <= (
            #[trigger] rows[i]).state.spot.last_seen,
    decreases rows.len(),
{
    if rows.len() > 1 {
        let init = rows.drop_last();
        lemma_oldest_row(init);
        assert forall|i: int| 0 <= i < rows.len() implies rows[oldest_row(
            rows,
        )].state.spot.last_seen <= (#[trigger] rows[i]).state.spot.last_seen by {
            if i < init.len() {
                assert(init[i] == rows[i]);
            }
            assert(init[oldest_row(init)] == rows[oldest_row(init)]);
        }
    }
}

// ---------------------------------------------------------------------------
// Lemmas
// ---------------------------------------------------------------------------

/// What characterises the position of a row.
pub proof fn lemma_row_of(rows: Seq<RowModel>, key: KeyModel, i: int)
    requires
        0 <= i <= rows.len(),
        forall|k: int| 0 <= k < i ==> (#[trigger] rows[k]).key != key,
        i < rows.len() ==> rows[i].key == key,
    ensures
        row_of(rows, key) == i,
    decreases rows.len(),
{
    if rows.len() > 0 && i > 0 {
        assert(rows[0].key != key);
        let rest = rows.skip(1);
        assert forall|k: int| 0 <= k < i - 1 implies (#[trigger] rest[k]).key != key by {
            assert(rest[k] == rows[k + 1]);
        }
        lemma_row_of(rest, key, i - 1);
    }
}

/// The position of a row is that of its key, and none before it is.
pub proof fn lemma_row_of_props(rows: Seq<RowModel>, key: KeyModel)
    ensures
        row_of(rows, key) <= rows.len(),
        row_of(rows, key) < rows.len() ==> rows[row_of(rows, key) as int].key == key,
        forall|k: int| 0 <= k < row_of(rows, key) ==> (#[trigger] rows[k]).key != key,
    decreases rows.len(),
{
    if rows.len() > 0 && rows[0].key != key {
        let rest = rows.skip(1);
        lemma_row_of_props(rest, key);
        assert forall|k: int| 0 <= k < row_of(rows, key) implies (#[trigger] rows[k]).key
            != key by {
            if k > 0 {
                assert(rest[k - 1] == rows[k]);
            }
        }
    }
}

/// A key has a row exactly when some row has the key.
proof fn lemma_has_row(rows: Seq<RowModel>, key: KeyModel, i: int)
    requires
        0 <= i < rows.len(),
        rows[i].key == key,
    ensures
        row_of(rows, key) <= i,
{
    lemma_row_of_props(rows, key);
}

proof fn lemma_emitted_of(emitted: Seq<KeyModel>, station: StationModel, i: int)
    requires
        0 <= i <= emitted.len(),
        forall|k: int| 0 <= k < i ==> station_of(#[trigger] emitted[k]) != station,
        i < emitted.len() ==> station_of(emitted[i]) == station,
    ensures
        emitted_of(emitted, station) == i,
    decreases emitted.len(),
{
    if emitted.len() > 0 && i > 0 {
        assert(station_of(emitted[0]) != station);
        let rest = emitted.skip(1);
        assert forall|k: int| 0 <= k < i - 1 implies station_of(#[trigger] rest[k]) != station by {
            assert(rest[k] == emitted[k + 1]);
        }
        lemma_emitted_of(rest, station, i - 1);
    }
}

/// The position of an emitted key is that of its station, and none before it is.
pub proof fn lemma_emitted_of_props(emitted: Seq<KeyModel>, station: StationModel)
    ensures
        emitted_of(emitted, station) <= emitted.len(),
        emitted_of(emitted, station) < emitted.len() ==> station_of(
            emitted[emitted_of(emitted, station) as int],
        ) == station,
        forall|k: int|
            0 <= k < emitted_of(emitted, station) ==> station_of(#[trigger] emitted[k]) != station,
    decreases emitted.len(),
{
    if emitted.len() > 0 && station_of(emitted[0]) != station {
        let rest = emitted.skip(1);
        lemma_emitted_of_props(rest, station);
        assert forall|k: int| 0 <= k < emitted_of(emitted, station) implies station_of(
            #[trigger] emitted[k],
        ) != station by {
            if k > 0 {
                assert(rest[k - 1] == emitted[k]);
            }
        }
    }
}

/// The emitted keys are of different stations, bands or modes.
pub open spec fn stations_apart(emitted: Seq<KeyModel>) -> bool {
    forall|i: int, j: int|
        #![trigger emitted[i], emitted[j]]
        0 <= i < j < emitted.len() ==> station_of(emitted[i]) != station_of(emitted[j])
}

proof fn lemma_without_key(emitted: Seq<KeyModel>, key: KeyModel)
    requires
        stations_apart(emitted),
    ensures
        stations_apart(without_key(emitted, key)),
        forall|k: KeyModel| #[trigger]
            without_key(emitted, key).contains(k) <==> emitted.contains(k) && k != key,
    decreases emitted.len(),
{
    let left = without_key(emitted, key);
    if emitted.len() > 0 {
        let init = emitted.drop_last();
        let last = emitted.last();
        assert(stations_apart(init)) by {
            assert forall|i: int, j: int|
                #![trigger init[i], init[j]]
                0 <= i < j < init.len() implies station_of(init[i]) != station_of(init[j]) by {
                assert(station_of(emitted[i]) != station_of(emitted[j]));
            }
        }
        lemma_without_key(init, key);
        let before = without_key(init, key);
        assert forall|k: KeyModel| #[trigger] left.contains(k) <==> emitted.contains(k) && k
            != key by {
            assert(emitted =~= init.push(last));
            lemma_push_contains(init, last, k);
            if last != key {
                lemma_push_contains(before, last, k);
            }
            assert(before.contains(k) <==> init.contains(k) && k != key);
        }
        assert forall|i: int, j: int|
            #![trigger left[i], left[j]]
            0 <= i < j < left.len() implies station_of(left[i]) != station_of(left[j]) by {
            if j < before.len() {
                assert(station_of(before[i]) != station_of(before[j]));
            } else {
                assert(before.contains(before[i]));
                assert(init.contains(before[i]));
                let q = choose|q: int| 0 <= q < init.len() && init[q] == before[i];
                assert(station_of(emitted[q]) != station_of(emitted[emitted.len() - 1]));
            }
        }
    }
}

proof fn lemma_push_contains(s: Seq<KeyModel>, x: KeyModel, k: KeyModel)
    ensures
        s.push(x).contains(k) <==> s.contains(k) || k == x,
{
    let t = s.push(x);
    if s.contains(k) {
        let i = choose|i: int| 0 <= i < s.len() && s[i] == k;
        assert(t[i] == k);
    }
    if k == x {
        assert(t[s.len() as int] == k);
    }
    if t.contains(k) {
        let i = choose|i: int| 0 <= i < t.len() && t[i] == k;
        if i < s.len() {
            assert(s[i] == k);
        }
    }
}

/// Removing a row keeps the table well-formed.
pub proof fn lemma_without_row(t: TableModel, i: int)
    requires
        t.wf(),
        0 <= i < t.rows.len(),
    ensures
        t.without_row(i).wf(),
        t.without_row(i).rows.len() == t.rows.len() - 1,
        forall|key: KeyModel|
            key != t.rows[i].key ==> (#[trigger] t.without_row(i).has(key) == t.has(key)),
        forall|key: KeyModel|
            key != t.rows[i].key && t.has(key) ==> #[trigger] t.without_row(i).state(key)
                == t.state(key),
        !t.without_row(i).has(t.rows[i].key),
{
    let after = t.without_row(i);
    let gone = t.rows[i].key;
    lemma_without_key(t.emitted, gone);
    assert forall|a: int, b: int|
        #![trigger after.rows[a], after.rows[b]]
        0 <= a < b < after.rows.len() implies after.rows[a].key != after.rows[b].key by {
        let a2 = if a < i { a } else { a + 1 };
        let b2 = if b < i { b } else { b + 1 };
        assert(t.rows[a2].key != t.rows[b2].key);
    }
    assert forall|key: KeyModel| key != gone implies #[trigger] after.has(key) == t.has(key) && (
    t.has(key) ==> after.state(key) == t.state(key)) by {
        lemma_row_of_props(t.rows, key);
        lemma_row_of_props(after.rows, key);
        let k = row_of(t.rows, key) as int;
        if k < t.rows.len() {
            let k2 = if k < i { k } else { k - 1 };
            assert(after.rows[k2] == t.rows[k]);
            assert forall|q: int| 0 <= q < k2 implies (#[trigger] after.rows[q]).key != key by {
                let q2 = if q < i { q } else { q + 1 };
                assert(after.rows[q] == t.rows[q2]);
            }
            lemma_row_of(after.rows, key, k2);
        }
        let k3 = row_of(after.rows, key) as int;
        if k3 < after.rows.len() {
            let k4 = if k3 < i { k3 } else { k3 + 1 };
            assert(after.rows[k3] == t.rows[k4]);
            lemma_has_row(t.rows, key, k4);
        }
    }
    assert forall|key: KeyModel| key != gone && t.has(key) implies #[trigger] after.state(key)
        == t.state(key) by {
        assert(after.has(key) == t.has(key));
    }
    assert(!after.has(gone)) by {
        lemma_row_of_props(after.rows, gone);
        let k = row_of(after.rows, gone) as int;
        if k < after.rows.len() {
            let k2 = if k < i { k } else { k + 1 };
            assert(after.rows[k] == t.rows[k2]);
            assert(t.rows[k2].key != t.rows[i].key);
        }
    }
    assert forall|j: int| 0 <= j < after.emitted.len() implies after.has(
        #[trigger] after.emitted[j],
    ) by {
        let e = after.emitted[j];
        assert(after.emitted.contains(e));
        assert(t.emitted.contains(e) && e != gone);
        let q = choose|q: int| 0 <= q < t.emitted.len() && t.emitted[q] == e;
        assert(t.has(t.emitted[q]));
        assert(after.has(e) == t.has(e));
    }
    assert(stations_apart(after.emitted));
}

/// Replacing the state of a spot keeps the table well-formed and touches no other spot.
pub proof fn lemma_with_state(t: TableModel, key: KeyModel, state: StateModel)
    requires
        t.wf(),
        t.has(key),
    ensures
        t.with_state(key, state).wf(),
        t.with_state(key, state).state(key) == state,
        forall|k: KeyModel| #[trigger] t.with_state(key, state).has(k) == t.has(k),
        forall|k: KeyModel|
            k != key && t.has(k) ==> #[trigger] t.with_state(key, state).state(k) == t.state(k),
{
    let after = t.with_state(key, state);
    lemma_row_of_props(t.rows, key);
    let i = row_of(t.rows, key) as int;
    assert forall|a: int| 0 <= a < after.rows.len() implies (#[trigger] after.rows[a]).key
        == t.rows[a].key by {}
    assert forall|k: KeyModel| #[trigger] row_of(after.rows, k) == row_of(t.rows, k) by {
        lemma_row_of_props(t.rows, k);
        let q = row_of(t.rows, k) as int;
        assert forall|a: int| 0 <= a < q implies (#[trigger] after.rows[a]).key != k by {
            assert(t.rows[a].key != k);
        }
        lemma_row_of(after.rows, k, q);
    }
    assert forall|a: int, b: int|
        #![trigger after.rows[a], after.rows[b]]
        0 <= a < b < after.rows.len() implies after.rows[a].key != after.rows[b].key by {
        assert(t.rows[a].key != t.rows[b].key);
    }
    assert forall|j: int| 0 <= j < after.emitted.len() implies after.has(
        #[trigger] after.emitted[j],
    ) by {
        assert(t.has(t.emitted[j]));
    }
    assert forall|k: KeyModel| k != key && t.has(k) implies #[trigger] after.state(k) == t.state(
        k,
    ) by {
        lemma_row_of_props(t.rows, k);
    }
}

/// Of two states given to a spot in turn the second counts; giving a spot the
/// state it has changes nothing.
pub proof fn lemma_with_state_twice(t: TableModel, key: KeyModel, a: StateModel, b: StateModel)
    requires
        t.wf(),
        t.has(key),
    ensures
        t.with_state(key, a).with_state(key, b) == t.with_state(key, b),
        t.with_state(key, t.state(key)) == t,
{
    lemma_with_state(t, key, a);
    lemma_row_of_props(t.rows, key);
    let once = t.with_state(key, a);
    let i = row_of(t.rows, key) as int;
    assert forall|k: int| 0 <= k < i implies (#[trigger] once.rows[k]).key != key by {
        assert(t.rows[k].key != key);
    }
    lemma_row_of(once.rows, key, i);
    assert(once.with_state(key, b).rows =~= t.with_state(key, b).rows);
    assert(t.with_state(key, t.state(key)).rows =~= t.rows);
}

/// Making room keeps the table well-formed and leaves space under the cap.
pub proof fn lemma_with_room(t: TableModel)
    requires
        t.wf(),
    ensures
        t.with_room().wf(),
        t.with_room().config == t.config,
        t.with_room().rows.len() == 0 || t.with_room().rows.len() < t.config.max_spots,
        t.with_room().rows.len() <= t.rows.len(),
        forall|key: KeyModel| !t.has(key) ==> !(#[trigger] t.with_room().has(key)),
    decreases t.rows.len(),
{
    if t.rows.len() > 0 && t.rows.len() >= t.config.max_spots {
        lemma_oldest_row(t.rows);
        let k = oldest_row(t.rows);
        lemma_without_row(t, k);
        let next = t.without_row(k);
        lemma_with_room(next);
        assert forall|key: KeyModel| !t.has(key) implies !(#[trigger] t.with_room().has(key)) by {
            if key == t.rows[k].key {
                lemma_has_row(t.rows, key, k);
            } else {
                assert(next.has(key) == t.has(key));
            }
        }
    }
}

/// Ingesting keeps the table well-formed; afterwards the key has a row.
pub proof fn lemma_ingested(t: TableModel, input: InputModel)
    requires
        t.wf(),
    ensures
        t.ingested(input).wf(),
        t.ingested(input).has(input.key),
        t.ingested(input).config == t.config,
        t.ingested(input).state(input.key) == (if t.has(input.key) {
            updated_state(t.state(input.key), input, t.config.max_observations_per_spot)
        } else {
            fresh_state(input)
        }),
{
    if t.has(input.key) {
        lemma_with_state(
            t,
            input.key,
            updated_state(t.state(input.key), input, t.config.max_observations_per_spot),
        );
    } else {
        lemma_with_room(t);
        let room = t.with_room();
        let after = t.ingested(input);
        let n = room.rows.len() as int;
        assert(!room.has(input.key));
        lemma_row_of_props(room.rows, input.key);
        assert forall|a: int| 0 <= a < n implies (#[trigger] after.rows[a]).key != input.key by {
            assert(after.rows[a] == room.rows[a]);
        }
        lemma_row_of(after.rows, input.key, n);
        assert forall|a: int, b: int|
            #![trigger after.rows[a], after.rows[b]]
            0 <= a < b < after.rows.len() implies after.rows[a].key != after.rows[b].key by {
            if b < n {
                assert(room.rows[a].key != room.rows[b].key);
            }
        }
        assert forall|j: int| 0 <= j < after.emitted.len() implies after.has(
            #[trigger] after.emitted[j],
        ) by {
            let e = room.emitted[j];
            assert(room.has(e));
            lemma_row_of_props(room.rows, e);
            let k = row_of(room.rows, e) as int;
            assert(after.rows[k] == room.rows[k]);
            lemma_has_row(after.rows, e, k);
        }
        assert(stations_apart(after.emitted));
    }
}

/// Registering an emission keeps the table well-formed.
pub proof fn lemma_with_emission(t: TableModel, key: KeyModel)
    requires
        t.wf(),
    ensures
        t.with_emission(key).wf(),
        t.has(key) ==> t.with_emission(key).emitted_for(station_of(key)) == Some(key),
{
    let after = t.with_emission(key);
    lemma_emitted_of_props(t.emitted, station_of(key));
    let k = emitted_of(t.emitted, station_of(key)) as int;
    if t.has(key) {
        assert forall|i: int, j: int|
            #![trigger after.emitted[i], after.emitted[j]]
            0 <= i < j < after.emitted.len() implies station_of(after.emitted[i]) != station_of(
            after.emitted[j],
        ) by {
            if k < t.emitted.len() {
                assert(station_of(t.emitted[i]) != station_of(t.emitted[j]));
            } else if j < t.emitted.len() {
                assert(station_of(t.emitted[i]) != station_of(t.emitted[j]));
            } else {
                assert(station_of(t.emitted[i]) != station_of(key));
            }
        }
        assert forall|j: int| 0 <= j < after.emitted.len() implies after.has(
            #[trigger] after.emitted[j],
        ) by {
            if j != k {
                assert(t.has(t.emitted[j]));
            }
        }
        assert(after.emitted[k] == key);
        assert forall|i: int| 0 <= i < k implies station_of(#[trigger] after.emitted[i])
            != station_of(key) by {
            assert(after.emitted[i] == t.emitted[i]);
        }
        lemma_emitted_of(after.emitted, station_of(key), k);
    }
}

proof fn lemma_fresh_rows(rows: Seq<RowModel>, now: int, ttl: int)
    ensures
        forall|r: RowModel| #[trigger]
            fresh_rows(rows, now, ttl).contains(r) <==> rows.contains(r) && !stale(r, now, ttl),
        (forall|i: int, j: int|
            #![trigger rows[i], rows[j]]
            0 <= i < j < rows.len() ==> rows[i].key != rows[j].key) ==> (forall|i: int, j: int|
            #![trigger fresh_rows(rows, now, ttl)[i], fresh_rows(rows, now, ttl)[j]]
            0 <= i < j < fresh_rows(rows, now, ttl).len() ==> fresh_rows(rows, now, ttl)[i].key
                != fresh_rows(rows, now, ttl)[j].key),
    decreases rows.len(),
{
    let kept = fresh_rows(rows, now, ttl);
    if rows.len() > 0 {
        let init = rows.drop_last();
        let last = rows.last();
        let before = fresh_rows(init, now, ttl);
        lemma_fresh_rows(init, now, ttl);
        assert forall|r: RowModel| #[trigger] kept.contains(r) <==> rows.contains(r) && !stale(
            r,
            now,
            ttl,
        ) by {
            assert(rows =~= init.push(last));
            lemma_push_row(init, last, r);
            lemma_push_row(before, last, r);
            assert(before.contains(r) <==> init.contains(r) && !stale(r, now, ttl));
        }
        if forall|i: int, j: int|
            #![trigger rows[i], rows[j]]
            0 <= i < j < rows.len() ==> rows[i].key != rows[j].key {
            assert forall|i: int, j: int|
                #![trigger init[i], init[j]]
                0 <= i < j < init.len() implies init[i].key != init[j].key by {
                assert(rows[i].key != rows[j].key);
            }
            assert forall|i: int, j: int|
                #![trigger kept[i], kept[j]]
                0 <= i < j < kept.len() implies kept[i].key != kept[j].key by {
                if j < before.len() {
                    assert(before[i].key != before[j].key);
                } else {
                    assert(before.contains(before[i]));
                    assert(init.contains(before[i]));
                    let q = choose|q: int| 0 <= q < init.len() && init[q] == before[i];
                    assert(rows[q].key != rows[rows.len() - 1].key);
                }
            }
        }
    }
}

proof fn lemma_push_row(s: Seq<RowModel>, x: RowModel, r: RowModel)
    ensures
        s.push(x).contains(r) <==> s.contains(r) || r == x,
{
    let t = s.push(x);
    if s.contains(r) {
        let i = choose|i: int| 0 <= i < s.len() && s[i] == r;
        assert(t[i] == r);
    }
    if r == x {
        assert(t[s.len() as int] == r);
    }
    if t.contains(r) {
        let i = choose|i: int| 0 <= i < t.len() && t[i] == r;
        if i < s.len() {
            assert(s[i] == r);
        }
    }
}

proof fn lemma_emissions_left(emitted: Seq<KeyModel>, rows: Seq<RowModel>, now: int, ttl: int)
    requires
        stations_apart(emitted),
    ensures
        stations_apart(emissions_left(emitted, rows, now, ttl)),
        forall|k: KeyModel| #[trigger]
            emissions_left(emitted, rows, now, ttl).contains(k) <==> emitted.contains(k)
                && !goes_stale(rows, k, now, ttl),
    decreases emitted.len(),
{
    let left = emissions_left(emitted, rows, now, ttl);
    if emitted.len() > 0 {
        let init = emitted.drop_last();
        let last = emitted.last();
        let before = emissions_left(init, rows, now, ttl);
        assert(stations_apart(init)) by {
            assert forall|i: int, j: int|
                #![trigger init[i], init[j]]
                0 <= i < j < init.len() implies station_of(init[i]) != station_of(init[j]) by {
                assert(station_of(emitted[i]) != station_of(emitted[j]));
            }
        }
        lemma_emissions_left(init, rows, now, ttl);
        assert forall|k: KeyModel| #[trigger] left.contains(k) <==> emitted.contains(k)
            && !goes_stale(rows, k, now, ttl) by {
            assert(emitted =~= init.push(last));
            lemma_push_contains(init, last, k);
            lemma_push_contains(before, last, k);
            assert(before.contains(k) <==> init.contains(k) && !goes_stale(rows, k, now, ttl));
        }
        assert forall|i: int, j: int|
            #![trigger left[i], left[j]]
            0 <= i < j < left.len() implies station_of(left[i]) != station_of(left[j]) by {
            if j < before.len() {
                assert(station_of(before[i]) != station_of(before[j]));
            } else {
                assert(before.contains(before[i]));
                assert(init.contains(before[i]));
                let q = choose|q: int| 0 <= q < init.len() && init[q] == before[i];
                assert(station_of(emitted[q]) != station_of(emitted[emitted.len() - 1]));
            }
        }
    }
}

/// Eviction keeps the table well-formed. It removes exactly the spots that
/// have not been seen for longer than the time to live, and no other.
pub proof fn lemma_evicted(t: TableModel, now: int)
    requires
        t.wf(),
    ensures
        t.evicted(now).wf(),
        forall|r: RowModel| #[trigger]
            t.evicted(now).rows.contains(r) <==> t.rows.contains(r) && !stale(
                r,
                now,
                t.config.ttl@,
            ),
{
    let after = t.evicted(now);
    let ttl = t.config.ttl@;
    lemma_fresh_rows(t.rows, now, ttl);
    assert(stations_apart(t.emitted));
    lemma_emissions_left(t.emitted, t.rows, now, ttl);
    assert forall|j: int| 0 <= j < after.emitted.len() implies after.has(
        #[trigger] after.emitted[j],
    ) by {
        let e = after.emitted[j];
        assert(after.emitted.contains(e));
        assert(t.emitted.contains(e) && !goes_stale(t.rows, e, now, ttl));
        let q = choose|q: int| 0 <= q < t.emitted.len() && t.emitted[q] == e;
        assert(t.has(t.emitted[q]));
        lemma_row_of_props(t.rows, e);
        let k = row_of(t.rows, e) as int;
        let row = t.rows[k];
        assert(!stale(row, now, ttl));
        assert(t.rows.contains(row));
        assert(after.rows.contains(row));
        let p = choose|p: int| 0 <= p < after.rows.len() && after.rows[p] == row;
        lemma_has_row(after.rows, e, p);
    }
    assert(stations_apart(after.emitted));
}

/// Removing one more key from the emissions.
proof fn lemma_emissions_step(
    emitted: Seq<KeyModel>,
    rows: Seq<RowModel>,
    row: RowModel,
    now: int,
    ttl: int,
)
    ensures
        emissions_left(emitted, rows.push(row), now, ttl) == (if stale(row, now, ttl) {
            without_key(emissions_left(emitted, rows, now, ttl), row.key)
        } else {
            emissions_left(emitted, rows, now, ttl)
        }),
    decreases emitted.len(),
{
    let all = rows.push(row);
    if emitted.len() > 0 {
        let init = emitted.drop_last();
        let last = emitted.last();
        lemma_emissions_step(init, rows, row, now, ttl);
        if goes_stale(rows, last, now, ttl) {
            let i = choose|i: int|
                0 <= i < rows.len() && (#[trigger] rows[i]).key == last && stale(
                    rows[i],
                    now,
                    ttl,
                );
            assert(all[i] == rows[i]);
            assert(goes_stale(all, last, now, ttl));
        }
        if row.key == last && stale(row, now, ttl) {
            assert(all[rows.len() as int] == row);
            assert(goes_stale(all, last, now, ttl));
        }
        if goes_stale(all, last, now, ttl) {
            let i = choose|i: int|
                0 <= i < all.len() && (#[trigger] all[i]).key == last && stale(all[i], now, ttl);
            if i < rows.len() {
                assert(rows[i] == all[i]);
                assert(goes_stale(rows, last, now, ttl));
            }
        }
        let before = emissions_left(init, rows, now, ttl);
        if !goes_stale(rows, last, now, ttl) {
            assert(before.push(last).drop_last() =~= before);
            assert(before.push(last).last() == last);
        }
    }
}

// ---------------------------------------------------------------------------
// Laws
// ---------------------------------------------------------------------------

/// The cap on spots holds after every observation of a new spot, but for the
/// new spot itself where the cap is zero; an observation of a known spot adds none.
pub proof fn lemma_spot_cap(t: TableModel, input: InputModel)
    requires
        t.wf(),
    ensures
        t.has(input.key) ==> t.ingested(input).rows.len() == t.rows.len(),
        !t.has(input.key) ==> t.ingested(input).rows.len() <= t.config.max_spots || t.ingested(
            input,
        ).rows.len() == 1,
{
    lemma_with_room(t);
    lemma_row_of_props(t.rows, input.key);
}

/// The history of a spot grows by at most one observation, ends in the newest
/// one, and stays within the cap once it is within it.
pub proof fn lemma_history_bounded(list: Seq<ObservationModel>, obs: ObservationModel, cap: usize)
    requires
        list.len() <= cap,
    ensures
        with_recent(list, obs, cap).len() <= cap,
        cap > 0 ==> with_recent(list, obs, cap).last() == obs,
{
}

/// The revision of a spot grows with every observation until it is the largest
/// that can be written, and never falls.
pub proof fn lemma_revision_monotonic(state: StateModel, input: InputModel, cap: usize)
    ensures
        updated_state(state, input, cap).revision >= state.revision,
        state.revision < u32::MAX ==> updated_state(state, input, cap).revision == state.revision
            + 1,
{
}

/// An observation of one spot leaves the state of every other spot that stays
/// in the table as it was.
pub proof fn lemma_other_spots_unchanged(t: TableModel, input: InputModel, key: KeyModel)
    requires
        t.wf(),
        t.has(input.key),
        t.has(key),
        key != input.key,
    ensures
        t.ingested(input).has(key),
        t.ingested(input).state(key) == t.state(key),
{
    let state = updated_state(
        t.state(input.key),
        input,
        t.config.max_observations_per_spot,
    );
    lemma_with_state(t, input.key, state);
    assert(t.with_state(input.key, state).has(key) == t.has(key));
}

/// Making room removes the spot that was seen longest ago.
pub proof fn lemma_oldest_leaves(t: TableModel, i: int)
    requires
        0 <= i < t.rows.len(),
        t.rows.len() >= t.config.max_spots,
    ensures
        t.room_made().len() > 0,
        t.room_made()[0].0.last_seen <= t.rows[i].state.spot.last_seen,
{
    lemma_oldest_row(t.rows);
    reveal_with_fuel(TableModel::room_made, 1);
}

// ---------------------------------------------------------------------------
// The table
// ---------------------------------------------------------------------------

/// In-memory table of aggregated spots, keyed by `SpotKey`.
pub struct SpotTable {
    rows: Vec<Row>,
    emitted: Vec<SpotKey>,
    config: SpotTableConfig,
}

/// One spot of the table.
struct Row {
    key: SpotKey,
    state: SpotState,
}

spec fn row_models(rows: Seq<Row>) -> Seq<RowModel> {
    Seq::new(rows.len(), |i: int| RowModel { key: rows[i].key@, state: rows[i].state@ })
}

spec fn key_models(keys: Seq<SpotKey>) -> Seq<KeyModel> {
    Seq::new(keys.len(), |i: int| keys[i]@)
}

/// The views of what has left a table.
pub open spec fn left_models(list: Seq<(DxSpot, u32)>) -> Seq<(SpotModel, u32)> {
    Seq::new(list.len(), |i: int| (list[i].0@, list[i].1))
}

impl View for SpotTable {
    type V = TableModel;

    closed spec fn view(&self) -> TableModel {
        TableModel {
            config: self.config,
            rows: row_models(self.rows@),
            emitted: key_models(self.emitted@),
        }
    }
}

/// Add an observation to the state of its spot.
fn update_state(state: &mut SpotState, input: IngestInput, cap: usize)
    ensures
        final(state)@ == updated_state(old(state)@, input@, cap),
{
    let ghost obs_model = input.observation@;
    let ghost list = state.spot.observations@;
    let ghost before = state@;
    let ghost model = input@;
    state.revision = state.revision.saturating_add(1);
    state.spot.last_seen = input.observation.obs_time;
    state.spot.freq_hz = input.freq_hz;
    if input.comment.is_some() {
        state.spot.comment = input.comment;
    }
    let originator = input.observation.originator.0.clone();
    if input.observation.originator_kind == OriginatorKind::Human {
        state.human_originator_set.insert(originator.clone());
    }
    state.originator_set.insert(originator);
    state.source_set.insert(input.observation.source.0.clone());
    let originators: usize = state.originator_set.len();
    state.spot.unique_originators = if originators <= 255 {
        originators as u8
    } else {
        255
    };
    let sources: usize = state.source_set.len();
    state.spot.unique_sources = if sources <= 255 {
        sources as u8
    } else {
        255
    };
    state.spot.observations.push(input.observation);
    proof {
        assert(observation_models(state.spot.observations@) =~= observation_models(list).push(
            obs_model,
        ));
    }
    if state.spot.observations.len() > cap {
        state.spot.observations.remove(0);
        assert(observation_models(state.spot.observations@) =~= observation_models(list).push(
            obs_model,
        ).skip(1));
    }
    assert(state@.spot =~= updated_state(before, model, cap).spot);
}

/// The state of a spot made from its first observation.
fn new_state(input: IngestInput) -> (r: SpotState)
    ensures
        r@ == fresh_state(input@),
{
    let ghost obs_model = input.observation@;
    let mut originator_set: ValueSet<String> = ValueSet::new();
    let mut human_originator_set: ValueSet<String> = ValueSet::new();
    let mut source_set: ValueSet<String> = ValueSet::new();
    let originator = input.observation.originator.0.clone();
    if input.observation.originator_kind == OriginatorKind::Human {
        human_originator_set.insert(originator.clone());
    }
    originator_set.insert(originator);
    source_set.insert(input.observation.source.0.clone());
    let obs_time = input.observation.obs_time;
    let mut observations: Vec<SpotObservation> = Vec::new();
    observations.push(input.observation);
    assert(observation_models(observations@) =~= seq![obs_model]);
    SpotState {
        spot: DxSpot {
            spot_key: input.key,
            dx_call: input.dx_call,
            freq_hz: input.freq_hz,
            band: input.band,
            mode: input.mode,
            first_seen: obs_time,
            last_seen: obs_time,
            spot_time: None,
            comment: input.comment,
            observations,
            unique_originators: 1,
            unique_sources: 1,
            skim_quality: None,
            quality_detail: None,
            confidence: SpotConfidence::default(),
        },
        first_emitted: false,
        last_emitted_revision: 0,
        last_emitted_at: None,
        revision: 1,
        originator_set,
        human_originator_set,
        source_set,
        dx_entity: None,
        spotter_entity: None,
        lotw: None,
        in_master_db: None,
        in_callbook: None,
        memberships: None,
    }
}

/// Remove a key from the emitted ones.
fn forget_key(emitted: &mut Vec<SpotKey>, key: &SpotKey)
    ensures
        key_models(final(emitted)@) == without_key(key_models(old(emitted)@), key@),
{
    let ghost all = key_models(emitted@);
    let mut i: usize = 0;
    let ghost mut seen: int = 0;
    proof {
        assert(all.skip(0) =~= all);
        assert(key_models(emitted@).take(0) =~= without_key(all.take(0), key@));
    }
    while i < emitted.len()
        invariant
            i <= emitted@.len(),
            0 <= seen <= all.len(),
            emitted@.len() - i == all.len() - seen,
            key_models(emitted@).take(i as int) == without_key(all.take(seen), key@),
            key_models(emitted@).skip(i as int) == all.skip(seen),
        decreases emitted@.len() - i,
    {
        let ghost before = key_models(emitted@);
        proof {
            assert(before.skip(i as int)[0] == all.skip(seen)[0]);
            assert(before[i as int] == all[seen]);
            assert(all.take(seen + 1).drop_last() =~= all.take(seen));
            assert(all.take(seen + 1).last() == all[seen]);
            assert(all.skip(seen).skip(1) =~= all.skip(seen + 1));
            assert(before.skip(i as int).skip(1) =~= before.skip(i + 1));
        }
        if emitted[i].same(key) {
            emitted.remove(i);
            assert(key_models(emitted@) =~= before.remove(i as int));
            assert(before.remove(i as int).take(i as int) =~= before.take(i as int));
            assert(before.remove(i as int).skip(i as int) =~= before.skip(i + 1));
        } else {
            assert(before.take(i + 1) =~= before.take(i as int).push(before[i as int]));
            i += 1;
        }
        proof {
            seen = seen + 1;
        }
    }
    proof {
        assert(all.take(seen) =~= all);
        assert(key_models(emitted@).take(i as int) =~= key_models(emitted@));
    }
}

impl SpotTable {
    /// The table is consistent.
    pub open spec fn wf(&self) -> bool {
        self@.wf()
    }

    /// An empty table.
    pub fn new(config: SpotTableConfig) -> (r: Self)
        ensures
            r.wf(),
            r@.config == config,
            r@.rows.len() == 0,
            r@.emitted.len() == 0,
    {
        SpotTable { rows: Vec::new(), emitted: Vec::new(), config }
    }

    /// Replace the configuration; the spots stay.
    pub fn update_config(&mut self, config: SpotTableConfig)
        requires
            old(self).wf(),
        ensures
            final(self).wf(),
            final(self)@ == (TableModel { config, ..old(self)@ }),
    {
        let ghost before = self@;
        self.config = config;
        proof {
            assert(self@ == (TableModel { config, ..before }));
            assert forall|k: KeyModel| #[trigger] self@.has(k) == before.has(k) by {}
        }
    }

    /// Position of the row of a key, or the number of rows.
    fn find_row(&self, key: &SpotKey) -> (r: usize)
        ensures
            r == row_of(self@.rows, key@),
            r <= self.rows@.len(),
    {
        let mut i: usize = 0;
        while i < self.rows.len()
            invariant
                i <= self.rows@.len(),
                forall|k: int| 0 <= k < i ==> (#[trigger] self@.rows[k]).key != key@,
            decreases self.rows@.len() - i,
        {
            if self.rows[i].key.same(key) {
                proof {
                    lemma_row_of(self@.rows, key@, i as int);
                }
                return i;
            }
            i += 1;
        }
        proof {
            lemma_row_of(self@.rows, key@, i as int);
        }
        i
    }

    /// Position of the emitted key of a station, or the number of emitted keys.
    fn find_emitted(&self, station: &CallBandModeKey) -> (r: usize)
        ensures
            r == emitted_of(self@.emitted, station@),
            r <= self.emitted@.len(),
    {
        let mut i: usize = 0;
        while i < self.emitted.len()
            invariant
                i <= self.emitted@.len(),
                forall|k: int|
                    0 <= k < i ==> station_of(#[trigger] self@.emitted[k]) != station@,
            decreases self.emitted@.len() - i,
        {
            let key = &self.emitted[i];
            assert(self@.emitted[i as int] == key@);
            if key.band == station.band && key.mode == station.mode && str_eq(
                key.dx_call_norm.as_str(),
                station.dx_call_norm.as_str(),
            ) {
                proof {
                    lemma_emitted_of(self@.emitted, station@, i as int);
                }
                return i;
            }
            i += 1;
        }
        proof {
            lemma_emitted_of(self@.emitted, station@, i as int);
        }
        i
    }

    /// Remove the row at a position and forget an emission of its key.
    fn remove_row(&mut self, i: usize) -> (r: (DxSpot, u32))
        requires
            old(self).wf(),
            i < old(self)@.rows.len(),
        ensures
            final(self).wf(),
            final(self)@ == old(self)@.without_row(i as int),
            (r.0@, r.1) == leaving(old(self)@.rows[i as int]),
    {
        let ghost before = self@;
        proof {
            lemma_without_row(before, i as int);
        }
        let row = self.rows.remove(i);
        forget_key(&mut self.emitted, &row.key);
        assert(self@.rows =~= before.rows.remove(i as int));
        (row.state.spot, row.state.revision)
    }

    /// Make room for one more spot.
    fn make_room(&mut self) -> (r: Vec<(DxSpot, u32)>)
        requires
            old(self).wf(),
        ensures
            final(self).wf(),
            final(self)@ == old(self)@.with_room(),
            left_models(r@) == old(self)@.room_made(),
    {
        let ghost start = self@;
        let mut out: Vec<(DxSpot, u32)> = Vec::new();
        assert(left_models(out@) + self@.room_made() =~= start.room_made());
        while self.rows.len() > 0 && self.rows.len() >= self.config.max_spots
            invariant
                self.wf(),
                self@.with_room() == start.with_room(),
                left_models(out@) + self@.room_made() == start.room_made(),
            decreases self@.rows.len(),
        {
            let ghost before = self@;
            let ghost rows = self@.rows;
            let mut oldest: usize = 0;
            let mut i: usize = 1;
            assert(rows.take(1).len() == 1);
            while i < self.rows.len()
                invariant
                    rows == self@.rows,
                    1 <= i <= self.rows@.len(),
                    oldest < i,
                    oldest == oldest_row(rows.take(i as int)),
                decreases self.rows@.len() - i,
            {
                proof {
                    let next = rows.take(i + 1);
                    assert(next.drop_last() =~= rows.take(i as int));
                    assert(next.last() == rows[i as int]);
                    assert(next[oldest as int] == rows[oldest as int]);
                    assert(rows.take(i as int)[oldest as int] == rows[oldest as int]);
                }
                if self.rows[i].state.spot.last_seen.before(
                    &self.rows[oldest].state.spot.last_seen,
                ) {
                    oldest = i;
                }
                i += 1;
            }
            assert(rows.take(i as int) =~= rows);
            let ghost so_far = left_models(out@);
            let gone = self.remove_row(oldest);
            out.push(gone);
            proof {
                lemma_oldest_row(rows);
                assert(left_models(out@) =~= so_far.push(leaving(rows[oldest as int])));
                assert(before.room_made() == seq![leaving(rows[oldest as int])]
                    + self@.room_made());
                assert(left_models(out@) + self@.room_made() =~= so_far + before.room_made());
            }
        }
        assert(self@.room_made() =~= Seq::<(SpotModel, u32)>::empty());
        assert(left_models(out@) + self@.room_made() =~= left_models(out@));
        out
    }

    /// Ingest a new observation, creating or updating a spot.
    ///
    /// A new spot that finds the table full displaces the spots seen longest ago.
    pub fn ingest(&mut self, input: IngestInput) -> (r: SpotTableResult)
        requires
            old(self).wf(),
        ensures
            final(self).wf(),
            final(self)@ == old(self)@.ingested(input@),
            match r {
                SpotTableResult::NewSpot(key) => !old(self)@.has(input@.key) && key@ == input@.key,
                SpotTableResult::UpdatedSpot(key) => old(self)@.has(input@.key) && key@
                    == input@.key,
            },
    {
        self.ingest_displacing(input).0
    }

    /// Ingest a new observation and return the spots that it displaced.
    pub fn ingest_displacing(&mut self, input: IngestInput) -> (r: (
        SpotTableResult,
        Vec<(DxSpot, u32)>,
    ))
        requires
            old(self).wf(),
        ensures
            final(self).wf(),
            final(self)@ == old(self)@.ingested(input@),
            match r.0 {
                SpotTableResult::NewSpot(key) => !old(self)@.has(input@.key) && key@ == input@.key,
                SpotTableResult::UpdatedSpot(key) => old(self)@.has(input@.key) && key@
                    == input@.key,
            },
            left_models(r.1@) == old(self)@.displaced(input@),
    {
        let ghost before = self@;
        let ghost model = input@;
        proof {
            lemma_ingested(before, model);
            lemma_row_of_props(before.rows, model.key);
        }
        let key = input.key.clone();
        let i: usize = self.find_row(&key);
        if i < self.rows.len() {
            let cap: usize = self.config.max_observations_per_spot;
            update_state(&mut self.rows[i].state, input, cap);
            assert(self@.rows =~= before.ingested(model).rows);
            let none: Vec<(DxSpot, u32)> = Vec::new();
            assert(left_models(none@) =~= Seq::<(SpotModel, u32)>::empty());
            (SpotTableResult::UpdatedSpot(key), none)
        } else {
            let displaced = self.make_room();
            let ghost room = self@;
            let row_key = input.key.clone();
            let state = new_state(input);
            self.rows.push(Row { key: row_key, state });
            assert(self@.rows =~= before.ingested(model).rows);
            (SpotTableResult::NewSpot(key), displaced)
        }
    }

    /// Evict all spots whose `last_seen` is older than TTL relative to `now`.
    ///
    /// Returns the evicted spots with their revisions (for Withdraw event emission).
    pub fn evict_expired(&mut self, now: Timestamp) -> (r: Vec<(DxSpot, u32)>)
        requires
            old(self).wf(),
        ensures
            final(self).wf(),
            final(self)@ == old(self)@.evicted(now@),
            left_models(r@) == stale_spots(old(self)@.rows, now@, old(self)@.config.ttl@),
    {
        let ghost before = self@;
        let ghost all = before.rows;
        let ghost ttl = before.config.ttl@;
        proof {
            lemma_evicted(before, now@);
        }
        let ttl_nanos: i128 = self.config.ttl.as_nanos();
        let mut out: Vec<(DxSpot, u32)> = Vec::new();
        let mut old_rows: Vec<Row> = Vec::new();
        core::mem::swap(&mut self.rows, &mut old_rows);
        let ghost rows = old_rows@;
        proof {
            assert(row_models(rows) == all);
            lemma_no_rows_left(before.emitted, now@, ttl);
            assert(row_models(self.rows@) =~= fresh_rows(all.take(0), now@, ttl));
            assert(left_models(out@) =~= stale_spots(all.take(0), now@, ttl));
            assert(all.take(0) =~= Seq::<RowModel>::empty());
        }
        for row in it: old_rows
            invariant
                it.seq() == rows,
                row_models(rows) == all,
                ttl == before.config.ttl@,
                ttl_nanos == ttl,
                self.config == before.config,
                row_models(self.rows@) == fresh_rows(all.take(it.index() as int), now@, ttl),
                left_models(out@) == stale_spots(all.take(it.index() as int), now@, ttl),
                key_models(self.emitted@) == emissions_left(
                    before.emitted,
                    all.take(it.index() as int),
                    now@,
                    ttl,
                ),
        {
            let ghost n = it.index() as int;
            let ghost kept = row_models(self.rows@);
            let ghost left = left_models(out@);
            proof {
                assert(row == rows[n]);
                assert(all[n] == (RowModel { key: row.key@, state: row.state@ }));
                assert(all.take(n + 1).drop_last() =~= all.take(n));
                assert(all.take(n + 1).last() == all[n]);
                assert(all.take(n + 1) =~= all.take(n).push(all[n]));
                lemma_emissions_step(before.emitted, all.take(n), all[n], now@, ttl);
            }
            if now.nanos_since(&row.state.spot.last_seen) > ttl_nanos {
                forget_key(&mut self.emitted, &row.key);
                out.push((row.state.spot, row.state.revision));
                assert(left_models(out@) =~= left.push(leaving(all[n])));
            } else {
                self.rows.push(row);
                assert(row_models(self.rows@) =~= kept.push(all[n]));
            }
        }
        assert(all.take(all.len() as int) =~= all);
        out
    }

    /// The state of the spot of a key.
    pub fn get(&self, key: &SpotKey) -> (r: Option<&SpotState>)
        requires
            self.wf(),
        ensures
            match r {
                Some(state) => self@.has(key@) && state@ == self@.state(key@),
                None => !self@.has(key@),
            },
    {
        let i: usize = self.find_row(key);
        if i < self.rows.len() {
            Some(&self.rows[i].state)
        } else {
            None
        }
    }

    /// The state of the spot of a key, for changing it.
    pub fn get_mut(&mut self, key: &SpotKey) -> (r: Option<&mut SpotState>)
        requires
            old(self).wf(),
        ensures
            final(self).wf(),
            match r {
                Some(state) => {
                    &&& old(self)@.has(key@)
                    &&& (*state)@ == old(self)@.state(key@)
                    &&& final(self)@ == old(self)@.with_state(key@, (*final(state))@)
                },
                None => !old(self)@.has(key@) && final(self)@ == old(self)@,
            },
    {
        let ghost before = self@;
        let i: usize = self.find_row(key);
        if i < self.rows.len() {
            let state = &mut self.rows[i].state;
            proof {
                lemma_row_of_props(before.rows, key@);
                lemma_with_state(before, key@, (*final(state))@);
                assert(row_models(after_borrow(self).rows@) =~= before.with_state(
                    key@,
                    (*final(state))@,
                ).rows);
            }
            Some(state)
        } else {
            None
        }
    }

    /// The key last emitted for a station on a band in a mode, if its spot is
    /// still in the table.
    pub fn lookup_emitted(&self, station: &CallBandModeKey) -> (r: Option<&SpotKey>)
        requires
            self.wf(),
        ensures
            match r {
                Some(key) => self@.emitted_for(station@) == Some(key@) && self@.has(key@),
                None => self@.emitted_for(station@) is None,
            },
    {
        let i: usize = self.find_emitted(station);
        if i < self.emitted.len() {
            assert(self@.has(self@.emitted[i as int]));
            Some(&self.emitted[i])
        } else {
            None
        }
    }

    /// Remember that a spot was emitted. A key without a spot is not remembered.
    pub fn register_emission(&mut self, key: &SpotKey)
        requires
            old(self).wf(),
        ensures
            final(self).wf(),
            final(self)@ == old(self)@.with_emission(key@),
    {
        let ghost before = self@;
        proof {
            lemma_with_emission(before, key@);
        }
        if self.find_row(key) >= self.rows.len() {
            return;
        }
        let station = CallBandModeKey::of(key);
        let k: usize = self.find_emitted(&station);
        if k < self.emitted.len() {
            self.emitted[k] = key.clone();
        } else {
            self.emitted.push(key.clone());
        }
        assert(self@.emitted =~= before.with_emission(key@).emitted);
    }

    /// Remove the spot of a key and return it with its revision.
    pub fn remove_spot(&mut self, key: &SpotKey) -> (r: Option<(DxSpot, u32)>)
        requires
            old(self).wf(),
        ensures
            final(self).wf(),
            final(self)@ == old(self)@.without(key@),
            match r {
                Some((spot, revision)) => {
                    &&& old(self)@.has(key@)
                    &&& spot@ == old(self)@.state(key@).spot
                    &&& revision == old(self)@.state(key@).revision
                },
                None => !old(self)@.has(key@),
            },
    {
        let i: usize = self.find_row(key);
        if i < self.rows.len() {
            Some(self.remove_row(i))
        } else {
            None
        }
    }

    /// Number of spots.
    pub fn len(&self) -> (r: usize)
        ensures
            r == self@.rows.len(),
    {
        self.rows.len()
    }

    /// Whether there are no spots.
    pub fn is_empty(&self) -> (r: bool)
        ensures
            r == (self@.rows.len() == 0),
    {
        self.rows.len() == 0
    }
}

/// Without rows every emission is left.
proof fn lemma_no_rows_left(emitted: Seq<KeyModel>, now: int, ttl: int)
    ensures
        emissions_left(emitted, Seq::<RowModel>::empty(), now, ttl) == emitted,
    decreases emitted.len(),
{
    if emitted.len() > 0 {
        lemma_no_rows_left(emitted.drop_last(), now, ttl);
        assert(emitted.drop_last().push(emitted.last()) =~= emitted);
    }
}

} // verus!
