//! The feed's data model: spots, observations, events and their views.

use crate::domain::{Band, Continent, DxMode, OriginatorKind};
use crate::sets::ValueSet;
use crate::time::Timestamp;
use vstd::prelude::*;

verus! {

// ---------------------------------------------------------------------------
// Identifiers
// ---------------------------------------------------------------------------

/// Identifies an upstream connection (e.g., a specific telnet cluster node).
#[derive(Debug, PartialEq, Eq, Hash)]
pub struct SourceId(pub String);

/// Identifies a spotter or skimmer callsign.
#[derive(Debug, PartialEq, Eq, Hash)]
pub struct OriginatorId(pub String);

impl View for SourceId {
    type V = Seq<char>;

    open spec fn view(&self) -> Seq<char> {
        self.0@
    }
}

impl View for OriginatorId {
    type V = Seq<char>;

    open spec fn view(&self) -> Seq<char> {
        self.0@
    }
}

impl Clone for SourceId {
    fn clone(&self) -> (r: Self)
        ensures
            r@ == self@,
    {
        SourceId(self.0.clone())
    }
}

impl Clone for OriginatorId {
    fn clone(&self) -> (r: Self)
        ensures
            r@ == self@,
    {
        OriginatorId(self.0.clone())
    }
}

// ---------------------------------------------------------------------------
// SpotKey
// ---------------------------------------------------------------------------

/// Composite key for deduplication and aggregation.
/// Two observations with the same SpotKey are considered the same spot.
#[derive(Debug, PartialEq, Eq, Hash)]
pub struct SpotKey {
    /// Normalized DX callsign (uppercase, portable policy applied).
    pub dx_call_norm: String,
    pub band: Band,
    pub mode: DxMode,
    /// Frequency truncated to the bucket size for this mode (e.g., 10 Hz for CW).
    pub freq_bucket_hz: u64,
}

/// What a [`SpotKey`] stands for.
pub struct KeyModel {
    pub dx_call_norm: Seq<char>,
    pub band: Band,
    pub mode: DxMode,
    pub freq_bucket_hz: u64,
}

impl View for SpotKey {
    type V = KeyModel;

    open spec fn view(&self) -> KeyModel {
        KeyModel {
            dx_call_norm: self.dx_call_norm@,
            band: self.band,
            mode: self.mode,
            freq_bucket_hz: self.freq_bucket_hz,
        }
    }
}

impl Clone for SpotKey {
    fn clone(&self) -> (r: Self)
        ensures
            r@ == self@,
    {
        SpotKey {
            dx_call_norm: self.dx_call_norm.clone(),
            band: self.band,
            mode: self.mode,
            freq_bucket_hz: self.freq_bucket_hz,
        }
    }
}

impl SpotKey {
    /// Whether both keys stand for the same spot.
    pub fn same(&self, other: &SpotKey) -> (r: bool)
        ensures
            r == (self@ == other@),
    {
        self.freq_bucket_hz == other.freq_bucket_hz && self.band == other.band && self.mode
            == other.mode && self.dx_call_norm == other.dx_call_norm
    }
}

// ---------------------------------------------------------------------------
// Events
// ---------------------------------------------------------------------------

/// Top-level event emitted to the consuming application.
#[derive(Debug)]
pub enum DxEvent {
    Spot(DxSpotEvent),
    Announce(DxAnnounce),
    SourceStatus(SourceStatus),
    Error(DxError),
}

/// A spot event with lifecycle tracking.
#[derive(Debug)]
pub struct DxSpotEvent {
    pub spot: DxSpot,
    pub kind: SpotEventKind,
    /// Monotonically increasing per SpotKey.
    pub revision: u32,
}

/// Lifecycle state of a spot event.
#[derive(Debug, Clone, Copy, PartialEq, Eq, Structural)]
pub enum SpotEventKind {
    /// First time this spot passes filters and is emitted.
    New,
    /// Meaningful change to an already-emitted spot.
    Update,
    /// Spot removed (TTL expiry, QSY detection or capacity eviction).
    Withdraw,
}

/// What a [`DxSpotEvent`] stands for.
pub struct SpotEventModel {
    pub spot: SpotModel,
    pub kind: SpotEventKind,
    pub revision: u32,
}

/// What a [`DxEvent`] stands for.
pub enum EventModel {
    Spot(SpotEventModel),
    Announce { source: Seq<char>, text: Seq<char>, timestamp: int },
    SourceStatus { source_id: Seq<char>, state: StateModel, timestamp: int },
    Error { origin: Option<Seq<char>>, message: Seq<char>, timestamp: int },
}

impl View for DxSpotEvent {
    type V = SpotEventModel;

    open spec fn view(&self) -> SpotEventModel {
        SpotEventModel { spot: self.spot@, kind: self.kind, revision: self.revision }
    }
}

impl View for DxEvent {
    type V = EventModel;

    open spec fn view(&self) -> EventModel {
        match *self {
            DxEvent::Spot(e) => EventModel::Spot(e@),
            DxEvent::Announce(a) => EventModel::Announce {
                source: a.source@,
                text: a.text@,
                timestamp: a.timestamp@,
            },
            DxEvent::SourceStatus(s) => EventModel::SourceStatus {
                source_id: s.source_id@,
                state: s.state@,
                timestamp: s.timestamp@,
            },
            DxEvent::Error(e) => EventModel::Error {
                origin: match e.source_id {
                    Some(id) => Some(id@),
                    None => None,
                },
                message: e.message@,
                timestamp: e.timestamp@,
            },
        }
    }
}

// ---------------------------------------------------------------------------
// DxSpot
// ---------------------------------------------------------------------------

/// An aggregated DX spot, built from one or more observations.
#[derive(Debug)]
pub struct DxSpot {
    pub spot_key: SpotKey,
    pub dx_call: String,
    pub freq_hz: u64,
    pub band: Band,
    pub mode: DxMode,
    pub first_seen: Timestamp,
    pub last_seen: Timestamp,
    /// Parsed from the spot line; not trusted for TTL decisions.
    pub spot_time: Option<Timestamp>,
    pub comment: Option<String>,
    /// Bounded list of recent observations contributing to this spot.
    pub observations: Vec<SpotObservation>,
    pub unique_originators: u8,
    pub unique_sources: u8,
    pub skim_quality: Option<SkimQualityTag>,
    pub quality_detail: Option<SkimQualityDetail>,
    pub confidence: SpotConfidence,
}

/// What a [`DxSpot`] stands for.
#[verifier::ext_equal]
pub struct SpotModel {
    pub spot_key: KeyModel,
    pub dx_call: Seq<char>,
    pub freq_hz: u64,
    pub band: Band,
    pub mode: DxMode,
    pub first_seen: int,
    pub last_seen: int,
    pub spot_time: Option<int>,
    pub comment: Option<Seq<char>>,
    pub observations: Seq<ObservationModel>,
    pub unique_originators: u8,
    pub unique_sources: u8,
    pub skim_quality: Option<SkimQualityTag>,
    pub quality_detail: Option<DetailModel>,
    pub confidence: SpotConfidence,
}

/// The text of an optional string.
pub open spec fn opt_text(s: Option<String>) -> Option<Seq<char>> {
    match s {
        Some(t) => Some(t@),
        None => None,
    }
}

/// The view of an optional point in time.
pub open spec fn opt_time(t: Option<Timestamp>) -> Option<int> {
    match t {
        Some(t) => Some(t@),
        None => None,
    }
}

/// The view of an optional quality detail.
pub open spec fn opt_detail(d: Option<SkimQualityDetail>) -> Option<DetailModel> {
    match d {
        Some(d) => Some(d@),
        None => None,
    }
}

/// The views of a list of observations.
pub open spec fn observation_models(list: Seq<SpotObservation>) -> Seq<ObservationModel> {
    Seq::new(list.len(), |i: int| list[i]@)
}

impl View for DxSpot {
    type V = SpotModel;

    open spec fn view(&self) -> SpotModel {
        SpotModel {
            spot_key: self.spot_key@,
            dx_call: self.dx_call@,
            freq_hz: self.freq_hz,
            band: self.band,
            mode: self.mode,
            first_seen: self.first_seen@,
            last_seen: self.last_seen@,
            spot_time: opt_time(self.spot_time),
            comment: opt_text(self.comment),
            observations: observation_models(self.observations@),
            unique_originators: self.unique_originators,
            unique_sources: self.unique_sources,
            skim_quality: self.skim_quality,
            quality_detail: opt_detail(self.quality_detail),
            confidence: self.confidence,
        }
    }
}

/// A copy of an optional string.
pub fn clone_text(s: &Option<String>) -> (r: Option<String>)
    ensures
        opt_text(r) == opt_text(*s),
{
    match s {
        Some(t) => Some(t.clone()),
        None => None,
    }
}

/// A copy of a list of observations.
fn clone_observations(list: &Vec<SpotObservation>) -> (r: Vec<SpotObservation>)
    ensures
        observation_models(r@) == observation_models(list@),
{
    let mut out: Vec<SpotObservation> = Vec::new();
    let mut i: usize = 0;
    while i < list.len()
        invariant
            i <= list.len(),
            out@.len() == i,
            forall|k: int| 0 <= k < i ==> (#[trigger] out@[k])@ == list@[k]@,
        decreases list.len() - i,
    {
        out.push(list[i].clone());
        i += 1;
    }
    assert(observation_models(out@) =~= observation_models(list@));
    out
}

impl Clone for DxSpot {
    fn clone(&self) -> (r: Self)
        ensures
            r@ == self@,
    {
        DxSpot {
            spot_key: self.spot_key.clone(),
            dx_call: self.dx_call.clone(),
            freq_hz: self.freq_hz,
            band: self.band,
            mode: self.mode,
            first_seen: self.first_seen,
            last_seen: self.last_seen,
            spot_time: self.spot_time,
            comment: clone_text(&self.comment),
            observations: clone_observations(&self.observations),
            unique_originators: self.unique_originators,
            unique_sources: self.unique_sources,
            skim_quality: self.skim_quality,
            quality_detail: match &self.quality_detail {
                Some(d) => Some(d.clone()),
                None => None,
            },
            confidence: self.confidence,
        }
    }
}

impl Clone for DxSpotEvent {
    fn clone(&self) -> (r: Self)
        ensures
            r@ == self@,
    {
        DxSpotEvent { spot: self.spot.clone(), kind: self.kind, revision: self.revision }
    }
}

impl Clone for DxEvent {
    fn clone(&self) -> (r: Self)
        ensures
            r@ == self@,
    {
        match self {
            DxEvent::Spot(e) => DxEvent::Spot(e.clone()),
            DxEvent::Announce(a) => DxEvent::Announce(a.clone()),
            DxEvent::SourceStatus(s) => DxEvent::SourceStatus(s.clone()),
            DxEvent::Error(e) => DxEvent::Error(e.clone()),
        }
    }
}

// ---------------------------------------------------------------------------
// SpotObservation
// ---------------------------------------------------------------------------

/// A single observation of a DX spot from one source/originator.
#[derive(Debug)]
pub struct SpotObservation {
    pub source: SourceId,
    pub originator: OriginatorId,
    pub originator_kind: OriginatorKind,
    pub snr_db: Option<i8>,
    pub wpm: Option<u16>,
    pub obs_time: Timestamp,
}

/// What a [`SpotObservation`] stands for.
pub struct ObservationModel {
    pub source: Seq<char>,
    pub originator: Seq<char>,
    pub originator_kind: OriginatorKind,
    pub snr_db: Option<i8>,
    pub wpm: Option<u16>,
    pub obs_time: int,
}

impl View for SpotObservation {
    type V = ObservationModel;

    open spec fn view(&self) -> ObservationModel {
        ObservationModel {
            source: self.source@,
            originator: self.originator@,
            originator_kind: self.originator_kind,
            snr_db: self.snr_db,
            wpm: self.wpm,
            obs_time: self.obs_time@,
        }
    }
}

impl Clone for SpotObservation {
    fn clone(&self) -> (r: Self)
        ensures
            r@ == self@,
    {
        SpotObservation {
            source: self.source.clone(),
            originator: self.originator.clone(),
            originator_kind: self.originator_kind,
            snr_db: self.snr_db,
            wpm: self.wpm,
            obs_time: self.obs_time,
        }
    }
}

// ---------------------------------------------------------------------------
// Skimmer quality
// ---------------------------------------------------------------------------

/// CT1BOH/AR-Cluster-style skimmer quality classification.
#[derive(Debug, Clone, Copy, PartialEq, Eq, Structural)]
pub enum SkimQualityTag {
    /// Corroborated by multiple distinct skimmers.
    Valid,
    /// Likely a decoding error (similar to a verified call at nearby freq).
    Busted,
    /// Previously verified call now on a significantly different frequency.
    Qsy,
    /// Insufficient data to classify.
    Unknown,
}

/// Detailed skimmer quality information for debugging/display.
#[derive(Debug)]
pub struct SkimQualityDetail {
    /// Number of distinct skimmers that reported this call within the frequency window.
    pub corroborating_skimmers: u8,
    /// If Busted: the verified call this was confused with.
    pub similar_call: Option<String>,
    /// If Busted: the edit distance to the similar call.
    pub edit_distance: Option<u8>,
    /// If Qsy: the previous verified frequency.
    pub previous_freq_hz: Option<u64>,
}

/// What a [`SkimQualityDetail`] stands for.
pub struct DetailModel {
    pub corroborating_skimmers: u8,
    pub similar_call: Option<Seq<char>>,
    pub edit_distance: Option<u8>,
    pub previous_freq_hz: Option<u64>,
}

impl View for SkimQualityDetail {
    type V = DetailModel;

    open spec fn view(&self) -> DetailModel {
        DetailModel {
            corroborating_skimmers: self.corroborating_skimmers,
            similar_call: opt_text(self.similar_call),
            edit_distance: self.edit_distance,
            previous_freq_hz: self.previous_freq_hz,
        }
    }
}

impl Clone for SkimQualityDetail {
    fn clone(&self) -> (r: Self)
        ensures
            r@ == self@,
    {
        SkimQualityDetail {
            corroborating_skimmers: self.corroborating_skimmers,
            similar_call: clone_text(&self.similar_call),
            edit_distance: self.edit_distance,
            previous_freq_hz: self.previous_freq_hz,
        }
    }
}

/// General confidence level for a spot (computed from multiple factors).
#[derive(Debug, Clone, Copy, PartialEq, Eq, Structural)]
pub enum SpotConfidence {
    High,
    Medium,
    Low,
    Unverified,
}

impl Default for SpotConfidence {
    fn default() -> (r: Self)
        ensures
            r == SpotConfidence::Unverified,
    {
        SpotConfidence::Unverified
    }
}

// ---------------------------------------------------------------------------
// Announce, SourceStatus, DxError
// ---------------------------------------------------------------------------

/// A text announcement from a cluster node.
#[derive(Debug)]
pub struct DxAnnounce {
    pub source: SourceId,
    pub text: String,
    pub timestamp: Timestamp,
}

/// Connection state of an upstream source.
#[derive(Debug)]
pub struct SourceStatus {
    pub source_id: SourceId,
    pub state: SourceConnectionState,
    pub timestamp: Timestamp,
}

/// Where the connection of a source stands.
#[derive(Debug, PartialEq, Eq)]
pub enum SourceConnectionState {
    Connecting,
    Connected,
    Reconnecting { attempt: u32 },
    Failed { reason: String },
    Shutdown,
}

/// What a [`SourceConnectionState`] stands for.
pub enum StateModel {
    Connecting,
    Connected,
    Reconnecting { attempt: u32 },
    Failed { reason: Seq<char> },
    Shutdown,
}

/// A non-fatal error from a source or the aggregator.
#[derive(Debug)]
pub struct DxError {
    pub source_id: Option<SourceId>,
    pub message: String,
    pub timestamp: Timestamp,
}

impl View for SourceConnectionState {
    type V = StateModel;

    open spec fn view(&self) -> StateModel {
        match *self {
            SourceConnectionState::Connecting => StateModel::Connecting,
            SourceConnectionState::Connected => StateModel::Connected,
            SourceConnectionState::Reconnecting { attempt } => StateModel::Reconnecting {
                attempt,
            },
            SourceConnectionState::Failed { reason } => StateModel::Failed { reason: reason@ },
            SourceConnectionState::Shutdown => StateModel::Shutdown,
        }
    }
}

impl Clone for DxAnnounce {
    fn clone(&self) -> (r: Self)
        ensures
            r.source@ == self.source@,
            r.text@ == self.text@,
            r.timestamp == self.timestamp,
    {
        DxAnnounce {
            source: self.source.clone(),
            text: self.text.clone(),
            timestamp: self.timestamp,
        }
    }
}

impl Clone for SourceConnectionState {
    fn clone(&self) -> (r: Self)
        ensures
            r@ == self@,
    {
        match self {
            SourceConnectionState::Connecting => SourceConnectionState::Connecting,
            SourceConnectionState::Connected => SourceConnectionState::Connected,
            SourceConnectionState::Reconnecting { attempt } => SourceConnectionState::Reconnecting {
                attempt: *attempt,
            },
            SourceConnectionState::Failed { reason } => SourceConnectionState::Failed {
                reason: reason.clone(),
            },
            SourceConnectionState::Shutdown => SourceConnectionState::Shutdown,
        }
    }
}

impl Clone for SourceStatus {
    fn clone(&self) -> (r: Self)
        ensures
            r.source_id@ == self.source_id@,
            r.state@ == self.state@,
            r.timestamp == self.timestamp,
    {
        SourceStatus {
            source_id: self.source_id.clone(),
            state: self.state.clone(),
            timestamp: self.timestamp,
        }
    }
}

impl Clone for DxError {
    fn clone(&self) -> (r: Self)
        ensures
            match (r.source_id, self.source_id) {
                (Some(a), Some(b)) => a@ == b@,
                (None, None) => true,
                _ => false,
            },
            r.message@ == self.message@,
            r.timestamp == self.timestamp,
    {
        DxError {
            source_id: match &self.source_id {
                Some(id) => Some(id.clone()),
                None => None,
            },
            message: self.message.clone(),
            timestamp: self.timestamp,
        }
    }
}

// ---------------------------------------------------------------------------
// SpotView
// ---------------------------------------------------------------------------

/// A lightweight borrow of aggregated spot state, used by the filter
/// evaluator. Constructed cheaply from the spot table by the aggregator.
#[derive(Debug)]
pub struct SpotView<'a> {
    pub now: Timestamp,
    pub last_seen: Timestamp,
    pub freq_hz: u64,
    pub band: Band,
    pub mode: DxMode,
    /// Normalized DX callsign.
    pub dx_call_norm: &'a str,
    pub comment: Option<&'a str>,
    // Correlation stats
    pub unique_originators: u8,
    pub unique_human_originators: u8,
    pub unique_sources: u8,
    pub total_observations_in_window: u8,
    pub repeats_same_key_in_window: u8,
    // Representative spotter info
    pub spotter_call_norm: Option<&'a str>,
    pub spotter_source_id: Option<&'a str>,
    pub originator_kind: OriginatorKind,
    // Skimmer metrics
    pub snr_db: Option<i8>,
    pub wpm: Option<u16>,
    pub is_skimmer_dupe: bool,
    pub is_skimmer_cq: bool,
    // Resolved geo data (optional)
    pub dx_geo: GeoResolved<'a>,
    pub spotter_geo: GeoResolved<'a>,
    // Enrichment flags (optional)
    pub lotw: Option<bool>,
    pub in_master_db: Option<bool>,
    pub in_callbook: Option<bool>,
    pub memberships: Option<&'a ValueSet<String>>,
}

/// Resolved geographic/entity data for a callsign.
#[derive(Debug)]
pub struct GeoResolved<'a> {
    pub continent: Option<Continent>,
    pub cq_zone: Option<u8>,
    pub itu_zone: Option<u8>,
    pub entity: Option<&'a str>,
    pub country: Option<&'a str>,
    pub state: Option<&'a str>,
    pub grid: Option<&'a str>,
}

/// What a [`GeoResolved`] stands for.
pub struct GeoModel {
    pub continent: Option<Continent>,
    pub cq_zone: Option<u8>,
    pub itu_zone: Option<u8>,
    pub entity: Option<Seq<char>>,
    pub country: Option<Seq<char>>,
    pub state: Option<Seq<char>>,
    pub grid: Option<Seq<char>>,
}

/// What a [`SpotView`] stands for.
pub struct ViewModel {
    pub now: int,
    pub last_seen: int,
    pub freq_hz: u64,
    pub band: Band,
    pub mode: DxMode,
    pub dx_call_norm: Seq<char>,
    pub comment: Option<Seq<char>>,
    pub unique_originators: u8,
    pub unique_human_originators: u8,
    pub unique_sources: u8,
    pub total_observations_in_window: u8,
    pub repeats_same_key_in_window: u8,
    pub spotter_call_norm: Option<Seq<char>>,
    pub spotter_source_id: Option<Seq<char>>,
    pub originator_kind: OriginatorKind,
    pub snr_db: Option<i8>,
    pub wpm: Option<u16>,
    pub is_skimmer_dupe: bool,
    pub is_skimmer_cq: bool,
    pub dx_geo: GeoModel,
    pub spotter_geo: GeoModel,
    pub lotw: Option<bool>,
    pub in_master_db: Option<bool>,
    pub in_callbook: Option<bool>,
    pub memberships: Option<Set<Seq<char>>>,
}

/// The text of an optional string slice.
pub open spec fn opt_str(s: Option<&str>) -> Option<Seq<char>> {
    match s {
        Some(t) => Some(t@),
        None => None,
    }
}

/// Nothing is known.
pub open spec fn no_geo() -> GeoModel {
    GeoModel {
        continent: None,
        cq_zone: None,
        itu_zone: None,
        entity: None,
        country: None,
        state: None,
        grid: None,
    }
}

impl<'a> View for GeoResolved<'a> {
    type V = GeoModel;

    open spec fn view(&self) -> GeoModel {
        GeoModel {
            continent: self.continent,
            cq_zone: self.cq_zone,
            itu_zone: self.itu_zone,
            entity: opt_str(self.entity),
            country: opt_str(self.country),
            state: opt_str(self.state),
            grid: opt_str(self.grid),
        }
    }
}

impl<'a> View for SpotView<'a> {
    type V = ViewModel;

    open spec fn view(&self) -> ViewModel {
        ViewModel {
            now: self.now@,
            last_seen: self.last_seen@,
            freq_hz: self.freq_hz,
            band: self.band,
            mode: self.mode,
            dx_call_norm: self.dx_call_norm@,
            comment: opt_str(self.comment),
            unique_originators: self.unique_originators,
            unique_human_originators: self.unique_human_originators,
            unique_sources: self.unique_sources,
            total_observations_in_window: self.total_observations_in_window,
            repeats_same_key_in_window: self.repeats_same_key_in_window,
            spotter_call_norm: opt_str(self.spotter_call_norm),
            spotter_source_id: opt_str(self.spotter_source_id),
            originator_kind: self.originator_kind,
            snr_db: self.snr_db,
            wpm: self.wpm,
            is_skimmer_dupe: self.is_skimmer_dupe,
            is_skimmer_cq: self.is_skimmer_cq,
            dx_geo: self.dx_geo@,
            spotter_geo: self.spotter_geo@,
            lotw: self.lotw,
            in_master_db: self.in_master_db,
            in_callbook: self.in_callbook,
            memberships: match self.memberships {
                Some(set) => Some(set@),
                None => None,
            },
        }
    }
}

impl<'a> Default for GeoResolved<'a> {
    fn default() -> (r: Self)
        ensures
            r@ == no_geo(),
    {
        GeoResolved {
            continent: None,
            cq_zone: None,
            itu_zone: None,
            entity: None,
            country: None,
            state: None,
            grid: None,
        }
    }
}

impl<'a> SpotView<'a> {
    /// A view of one human observation made at `now`, with nothing resolved.
    pub fn test_default(
        now: Timestamp,
        dx_call: &'a str,
        freq_hz: u64,
        band: Band,
        mode: DxMode,
    ) -> (r: Self)
        ensures
            r@ == (ViewModel {
                now: now@,
                last_seen: now@,
                freq_hz,
                band,
                mode,
                dx_call_norm: dx_call@,
                comment: None,
                unique_originators: 1,
                unique_human_originators: 1,
                unique_sources: 1,
                total_observations_in_window: 1,
                repeats_same_key_in_window: 1,
                spotter_call_norm: None,
                spotter_source_id: None,
                originator_kind: OriginatorKind::Human,
                snr_db: None,
                wpm: None,
                is_skimmer_dupe: false,
                is_skimmer_cq: false,
                dx_geo: no_geo(),
                spotter_geo: no_geo(),
                lotw: None,
                in_master_db: None,
                in_callbook: None,
                memberships: None,
            }),
    {
        SpotView {
            now,
            last_seen: now,
            freq_hz,
            band,
            mode,
            dx_call_norm: dx_call,
            comment: None,
            unique_originators: 1,
            unique_human_originators: 1,
            unique_sources: 1,
            total_observations_in_window: 1,
            repeats_same_key_in_window: 1,
            spotter_call_norm: None,
            spotter_source_id: None,
            originator_kind: OriginatorKind::Human,
            snr_db: None,
            wpm: None,
            is_skimmer_dupe: false,
            is_skimmer_cq: false,
            dx_geo: GeoResolved::default(),
            spotter_geo: GeoResolved::default(),
            lotw: None,
            in_master_db: None,
            in_callbook: None,
            memberships: None,
        }
    }
}

} // verus!
