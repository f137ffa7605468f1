//! Skimmer quality engine: SkimValid/Busted/Qsy/Unknown classification.
//!
//! Implements CT1BOH/AR-Cluster-style skimmer quality tagging. Tracks recent
//! skimmer observations in a time-windowed index keyed by DX callsign, and
//! maintains a verified-call map for QSY and busted-call detection.

use crate::domain::OriginatorKind;
use crate::filter::evaluate::capped;
use crate::model::{DetailModel, SkimQualityDetail, SkimQualityTag};
use crate::sets::ValueSet;
use crate::text::str_eq;
use crate::time::Timestamp;
use vstd::prelude::*;
use vstd::string::*;
use vstd::utf8::encode_utf8;

use super::config::SkimmerQualityConfig;
use super::distance::edit_distance;

pub use super::distance::levenshtein;

verus! {

// ---------------------------------------------------------------------------
// State
// ---------------------------------------------------------------------------

/// The skimmer quality engine.
pub struct SkimmerQualityEngine {
    config: SkimmerQualityConfig,
    /// Recent observations, one entry per normalized DX callsign.
    observations: Vec<CallEntry>,
    /// Total observation count across all entries (for hard cap enforcement).
    total_observations: usize,
    /// Verified calls with their last known frequency and verification time.
    verified_calls: Vec<VerifiedCall>,
}

/// The observations of one DX callsign, oldest first.
struct CallEntry {
    call: String,
    list: Vec<SkimObs>,
}

/// A single skimmer observation recorded in the index.
struct SkimObs {
    freq_hz: u64,
    skimmer_call: String,
    timestamp: Timestamp,
}

/// A verified (corroborated) callsign.
struct VerifiedCall {
    call: String,
    last_freq_hz: u64,
    last_verified: Timestamp,
}

/// One observation: where, by whom and when.
pub struct ObsModel {
    pub freq_hz: u64,
    pub skimmer_call: Seq<char>,
    pub timestamp: int,
}

/// The observations of one callsign, oldest first.
pub struct EntryModel {
    pub call: Seq<char>,
    pub list: Seq<ObsModel>,
}

/// A callsign with its last verified frequency and the time of verification.
pub struct VerifiedModel {
    pub call: Seq<char>,
    pub last_freq_hz: u64,
    pub last_verified: int,
}

/// What a [`SkimmerQualityEngine`] knows: its configuration, the tracked
/// observations by callsign, and the verified callsigns, each in the order in
/// which they came.
pub struct EngineModel {
    pub config: SkimmerQualityConfig,
    pub observations: Seq<EntryModel>,
    pub verified: Seq<VerifiedModel>,
}

spec fn obs_models(list: Seq<SkimObs>) -> Seq<ObsModel> {
    Seq::new(
        list.len(),
        |i: int|
            ObsModel {
                freq_hz: list[i].freq_hz,
                skimmer_call: list[i].skimmer_call@,
                timestamp: list[i].timestamp@,
            },
    )
}

spec fn entry_models(entries: Seq<CallEntry>) -> Seq<EntryModel> {
    Seq::new(
        entries.len(),
        |i: int| EntryModel { call: entries[i].call@, list: obs_models(entries[i].list@) },
    )
}

spec fn verified_models(list: Seq<VerifiedCall>) -> Seq<VerifiedModel> {
    Seq::new(
        list.len(),
        |i: int|
            VerifiedModel {
                call: list[i].call@,
                last_freq_hz: list[i].last_freq_hz,
                last_verified: list[i].last_verified@,
            },
    )
}

impl View for SkimmerQualityEngine {
    type V = EngineModel;

    closed spec fn view(&self) -> EngineModel {
        EngineModel {
            config: self.config,
            observations: entry_models(self.observations@),
            verified: verified_models(self.verified_calls@),
        }
    }
}

// ---------------------------------------------------------------------------
// What is tracked
// ---------------------------------------------------------------------------

/// Position of the entry of `call`, the number of entries where there is none.
pub open spec fn entry_of(entries: Seq<EntryModel>, call: Seq<char>) -> nat
    decreases entries.len(),
{
    if entries.len() == 0 || entries[0].call == call {
        0
    } else {
        1 + entry_of(entries.skip(1), call)
    }
}

/// Position of the verified `call`, the number of verified calls where it is
/// not among them.
pub open spec fn verified_at(list: Seq<VerifiedModel>, call: Seq<char>) -> nat
    decreases list.len(),
{
    if list.len() == 0 || list[0].call == call {
        0
    } else {
        1 + verified_at(list.skip(1), call)
    }
}

/// Number of observations in the entries.
pub open spec fn total_of(entries: Seq<EntryModel>) -> nat
    decreases entries.len(),
{
    if entries.len() == 0 {
        0
    } else {
        total_of(entries.drop_last()) + entries.last().list.len()
    }
}

/// Position of the entry whose first observation is the oldest, the first one
/// among equals.
pub open spec fn oldest_entry(entries: Seq<EntryModel>) -> int
    decreases entries.len(),
{
    if entries.len() <= 1 {
        0
    } else {
        let k = oldest_entry(entries.drop_last());
        if entries.last().list[0].timestamp < entries[k].list[0].timestamp {
            entries.len() - 1
        } else {
            k
        }
    }
}

/// The entries after making room: at the cap, the oldest entry leaves.
pub open spec fn with_room(entries: Seq<EntryModel>, cap: usize) -> Seq<EntryModel> {
    if total_of(entries) >= cap && entries.len() > 0 {
        entries.remove(oldest_entry(entries))
    } else {
        entries
    }
}

/// The entries with one more observation of `call`.
pub open spec fn with_observation(
    entries: Seq<EntryModel>,
    call: Seq<char>,
    obs: ObsModel,
) -> Seq<EntryModel> {
    let k = entry_of(entries, call) as int;
    if k < entries.len() {
        entries.update(k, EntryModel { call: entries[k].call, list: entries[k].list.push(obs) })
    } else {
        entries.push(EntryModel { call, list: seq![obs] })
    }
}

/// The verified calls with `call` verified at `freq_hz` and `now`.
pub open spec fn with_verified(
    list: Seq<VerifiedModel>,
    call: Seq<char>,
    freq_hz: u64,
    now: int,
) -> Seq<VerifiedModel> {
    let k = verified_at(list, call) as int;
    let v = VerifiedModel { call, last_freq_hz: freq_hz, last_verified: now };
    if k < list.len() {
        list.update(k, v)
    } else {
        list.push(v)
    }
}

// ---------------------------------------------------------------------------
// Classification
// ---------------------------------------------------------------------------

/// Distance between two frequencies.
pub open spec fn freq_distance(a: u64, b: u64) -> int {
    if a >= b {
        a - b
    } else {
        b - a
    }
}

/// A point in time lies no more than `span` before `now`.
pub open spec fn fresh(timestamp: int, now: int, span: int) -> bool {
    now - timestamp <= span
}

/// The observation corroborates a report at `freq_hz`: recent enough, and
/// within the frequency window.
pub open spec fn corroborates(
    obs: ObsModel,
    freq_hz: u64,
    now: int,
    config: SkimmerQualityConfig,
) -> bool {
    fresh(obs.timestamp, now, config.lookback_window@) && freq_distance(
        freq_hz,
        obs.freq_hz,
    ) <= config.valid_freq_window_hz
}

/// The skimmers among the observations that corroborate a report.
pub open spec fn corroborators(
    list: Seq<ObsModel>,
    freq_hz: u64,
    now: int,
    config: SkimmerQualityConfig,
) -> Set<Seq<char>>
    decreases list.len(),
{
    if list.len() == 0 {
        Set::empty()
    } else {
        let before = corroborators(list.drop_last(), freq_hz, now, config);
        if corroborates(list.last(), freq_hz, now, config) {
            before.insert(list.last().skimmer_call)
        } else {
            before
        }
    }
}

impl EngineModel {
    /// No callsign has two entries or is verified twice; no entry is empty.
    pub open spec fn wf(&self) -> bool {
        &&& forall|i: int, j: int|
            #![trigger self.observations[i], self.observations[j]]
            0 <= i < j < self.observations.len() ==> self.observations[i].call
                != self.observations[j].call
        &&& forall|i: int|
            0 <= i < self.observations.len() ==> (#[trigger] self.observations[i]).list.len() > 0
        &&& forall|i: int, j: int|
            #![trigger self.verified[i], self.verified[j]]
            0 <= i < j < self.verified.len() ==> self.verified[i].call != self.verified[j].call
    }

    /// Number of observations tracked.
    pub open spec fn total(&self) -> nat {
        total_of(self.observations)
    }

    /// The observations of `call`.
    pub open spec fn observations_of(&self, call: Seq<char>) -> Seq<ObsModel> {
        let k = entry_of(self.observations, call) as int;
        if k < self.observations.len() {
            self.observations[k].list
        } else {
            Seq::empty()
        }
    }

    /// The verified frequency of `call`, if it is verified.
    pub open spec fn verified_freq(&self, call: Seq<char>) -> Option<u64> {
        let k = verified_at(self.verified, call) as int;
        if k < self.verified.len() {
            Some(self.verified[k].last_freq_hz)
        } else {
            None
        }
    }

    /// Number of distinct skimmers that corroborate `call` at `freq_hz`.
    pub open spec fn support(&self, call: Seq<char>, freq_hz: u64, now: int) -> nat {
        if self.config.compute_valid {
            corroborators(self.observations_of(call), freq_hz, now, self.config).len()
        } else {
            0
        }
    }

    /// Enough distinct skimmers corroborate the report.
    pub open spec fn corroborated(&self, call: Seq<char>, freq_hz: u64, now: int) -> bool {
        self.config.compute_valid && self.support(call, freq_hz, now)
            >= self.config.valid_required_distinct_skimmers
    }

    /// `call` was verified on a frequency outside the QSY window.
    pub open spec fn moved(&self, call: Seq<char>, freq_hz: u64) -> bool {
        self.config.compute_qsy && (self.verified_freq(call) matches Some(f) && freq_distance(
            freq_hz,
            f,
        ) > self.config.qsy_freq_window_hz)
    }

    /// The verified call at position `k` is similar to `call` and nearby.
    pub open spec fn confusable(&self, k: int, call: Seq<char>, freq_hz: u64) -> bool {
        &&& self.verified[k].call != call
        &&& freq_distance(freq_hz, self.verified[k].last_freq_hz)
            <= self.config.busted_freq_window_hz
        &&& edit_distance(encode_utf8(call), encode_utf8(self.verified[k].call))
            <= self.config.similar_call_max_edit_distance
    }

    /// Position of the first verified call at or after `from` that `call` may
    /// have been confused with, the number of verified calls where there is none.
    pub open spec fn confused_with(&self, call: Seq<char>, freq_hz: u64, from: int) -> int
        decreases self.verified.len() - from,
    {
        if from >= self.verified.len() {
            self.verified.len() as int
        } else if self.confusable(from, call, freq_hz) {
            from
        } else {
            self.confused_with(call, freq_hz, from + 1)
        }
    }

    /// The tag of a report.
    pub open spec fn tag(&self, call: Seq<char>, freq_hz: u64, now: int) -> SkimQualityTag {
        if self.corroborated(call, freq_hz, now) {
            if self.moved(call, freq_hz) {
                SkimQualityTag::Qsy
            } else {
                SkimQualityTag::Valid
            }
        } else if self.config.compute_busted && self.confused_with(call, freq_hz, 0)
            < self.verified.len() {
            SkimQualityTag::Busted
        } else {
            SkimQualityTag::Unknown
        }
    }

    /// The details behind the tag of a report.
    pub open spec fn detail(&self, call: Seq<char>, freq_hz: u64, now: int) -> DetailModel {
        let tag = self.tag(call, freq_hz, now);
        let k = self.confused_with(call, freq_hz, 0);
        DetailModel {
            corroborating_skimmers: capped(self.support(call, freq_hz, now)),
            similar_call: if tag == SkimQualityTag::Busted {
                Some(self.verified[k].call)
            } else {
                None
            },
            edit_distance: if tag == SkimQualityTag::Busted {
                Some(
                    edit_distance(encode_utf8(call), encode_utf8(self.verified[k].call)) as u8,
                )
            } else {
                None
            },
            previous_freq_hz: if tag == SkimQualityTag::Qsy {
                self.verified_freq(call)
            } else {
                None
            },
        }
    }

    /// The engine after a report was tagged: a corroborated call is verified
    /// where it was reported.
    pub open spec fn tagged(&self, call: Seq<char>, freq_hz: u64, now: int) -> EngineModel {
        EngineModel {
            verified: if self.corroborated(call, freq_hz, now) {
                with_verified(self.verified, call, freq_hz, now)
            } else {
                self.verified
            },
            ..*self
        }
    }

    /// The engine after one more observation.
    pub open spec fn recorded(&self, call: Seq<char>, obs: ObsModel) -> EngineModel {
        EngineModel {
            observations: with_observation(
                with_room(self.observations, self.config.max_tracked_observations),
                call,
                obs,
            ),
            ..*self
        }
    }

    /// The engine without what has expired: observations outside the lookback
    /// window and calls last verified more than twice the window ago.
    pub open spec fn expired(&self, now: int) -> EngineModel {
        let span = self.config.lookback_window@;
        EngineModel {
            observations: fresh_entries(self.observations, now, span),
            verified: fresh_verified(self.verified, now, 2 * span),
            ..*self
        }
    }
}

/// The fresh ones of the observations, in order.
pub open spec fn fresh_obs(list: Seq<ObsModel>, now: int, span: int) -> Seq<ObsModel>
    decreases list.len(),
{
    if list.len() == 0 {
        list
    } else if fresh(list.last().timestamp, now, span) {
        fresh_obs(list.drop_last(), now, span).push(list.last())
    } else {
        fresh_obs(list.drop_last(), now, span)
    }
}

/// The entries with their fresh observations; entries without any leave.
pub open spec fn fresh_entries(entries: Seq<EntryModel>, now: int, span: int) -> Seq<EntryModel>
    decreases entries.len(),
{
    if entries.len() == 0 {
        entries
    } else {
        let before = fresh_entries(entries.drop_last(), now, span);
        let kept = fresh_obs(entries.last().list, now, span);
        if kept.len() > 0 {
            before.push(EntryModel { call: entries.last().call, list: kept })
        } else {
            before
        }
    }
}

/// The verified calls that are fresh, in order.
pub open spec fn fresh_verified(list: Seq<VerifiedModel>, now: int, span: int) -> Seq<VerifiedModel>
    decreases list.len(),
{
    if list.len() == 0 {
        list
    } else if fresh(list.last().last_verified, now, span) {
        fresh_verified(list.drop_last(), now, span).push(list.last())
    } else {
        fresh_verified(list.drop_last(), now, span)
    }
}

/// Whether a spot with this tag, from this kind of originator, may be emitted.
pub open spec fn gate_open(
    config: SkimmerQualityConfig,
    tag: SkimQualityTag,
    kind: OriginatorKind,
) -> bool {
    ||| config.apply_only_to_skimmer && kind != OriginatorKind::Skimmer
    ||| !config.enabled
    ||| !config.gate_skimmer_output
    ||| match tag {
        SkimQualityTag::Valid => config.allow_valid,
        SkimQualityTag::Qsy => config.allow_qsy,
        SkimQualityTag::Unknown => config.allow_unknown,
        SkimQualityTag::Busted => config.allow_busted,
    }
}

// ---------------------------------------------------------------------------
// Laws
// ---------------------------------------------------------------------------

/// Human spots always pass where gating applies to skimmers only.
pub proof fn lemma_humans_never_gated(
    config: SkimmerQualityConfig,
    tag: SkimQualityTag,
    kind: OriginatorKind,
)
    requires
        config.apply_only_to_skimmer,
        kind != OriginatorKind::Skimmer,
    ensures
        gate_open(config, tag, kind),
{
}

/// A disabled engine, or one that does not gate, blocks nothing.
pub proof fn lemma_no_gating_when_off(
    config: SkimmerQualityConfig,
    tag: SkimQualityTag,
    kind: OriginatorKind,
)
    requires
        !config.enabled || !config.gate_skimmer_output,
    ensures
        gate_open(config, tag, kind),
{
}

/// A report tagged `Valid` or `Qsy` has the required number of distinct
/// skimmers behind it.
pub proof fn lemma_valid_is_corroborated(m: EngineModel, call: Seq<char>, freq_hz: u64, now: int)
    ensures
        m.tag(call, freq_hz, now) == SkimQualityTag::Valid || m.tag(call, freq_hz, now)
            == SkimQualityTag::Qsy ==> m.support(call, freq_hz, now)
            >= m.config.valid_required_distinct_skimmers,
{
}

/// Where gating is on and lets neither unknown nor busted reports through, a
/// report by a skimmer is held back until enough distinct skimmers corroborate
/// it.
pub proof fn lemma_uncorroborated_held(m: EngineModel, call: Seq<char>, freq_hz: u64, now: int)
    requires
        m.config.enabled,
        m.config.gate_skimmer_output,
        !m.config.allow_unknown,
        !m.config.allow_busted,
        !m.corroborated(call, freq_hz, now),
    ensures
        !gate_open(m.config, m.tag(call, freq_hz, now), OriginatorKind::Skimmer),
{
}

/// Reports of one skimmer alone never count for more than one.
pub proof fn lemma_one_skimmer_counts_once(
    list: Seq<ObsModel>,
    skimmer: Seq<char>,
    freq_hz: u64,
    now: int,
    config: SkimmerQualityConfig,
)
    requires
        forall|i: int| 0 <= i < list.len() ==> (#[trigger] list[i]).skimmer_call == skimmer,
    ensures
        corroborators(list, freq_hz, now, config).subset_of(Set::empty().insert(skimmer)),
        corroborators(list, freq_hz, now, config).len() <= 1,
    decreases list.len(),
{
    let all = corroborators(list, freq_hz, now, config);
    if list.len() > 0 {
        let init = list.drop_last();
        assert forall|i: int| 0 <= i < init.len() implies (#[trigger] init[i]).skimmer_call
            == skimmer by {
            assert(init[i] == list[i]);
        }
        lemma_one_skimmer_counts_once(init, skimmer, freq_hz, now, config);
        assert(list[list.len() - 1].skimmer_call == skimmer);
    }
    let one = Set::<Seq<char>>::empty().insert(skimmer);
    vstd::set_lib::lemma_len_subset(all, one);
}

/// Once a report was tagged `Valid` or `Qsy`, the same report is `Valid`.
pub proof fn lemma_verified_stays_valid(m: EngineModel, call: Seq<char>, freq_hz: u64, now: int)
    requires
        m.corroborated(call, freq_hz, now),
        m.config.qsy_freq_window_hz >= 0,
    ensures
        m.tagged(call, freq_hz, now).verified_freq(call) == Some(freq_hz),
        m.tagged(call, freq_hz, now).tag(call, freq_hz, now) == SkimQualityTag::Valid,
{
    let after = m.tagged(call, freq_hz, now);
    let k = verified_at(m.verified, call) as int;
    lemma_verified_at_props(m.verified, call);
    assert forall|i: int| 0 <= i < k implies #[trigger] after.verified[i].call != call by {
        assert(after.verified[i] == m.verified[i]);
    }
    assert(after.verified[k].call == call);
    lemma_verified_at(after.verified, call, k);
    assert(after.observations == m.observations);
}

/// A call is never held to be a busted copy of itself; what it may have been
/// confused with is verified, nearby and similar.
pub proof fn lemma_busted_names_another(m: EngineModel, call: Seq<char>, freq_hz: u64, now: int)
    requires
        m.tag(call, freq_hz, now) == SkimQualityTag::Busted,
    ensures
        m.detail(call, freq_hz, now).similar_call matches Some(other) && other != call
            && exists|k: int|
            0 <= k < m.verified.len() && (#[trigger] m.verified[k]).call == other && m.confusable(
                k,
                call,
                freq_hz,
            ),
{
    lemma_confused_with(m, call, freq_hz, 0);
    let k = m.confused_with(call, freq_hz, 0);
    assert(m.verified[k].call != call);
}

/// Recording keeps the total within the cap (and one observation where the
/// cap is zero), and never raises a total that lies above it.
pub proof fn lemma_cap_holds(m: EngineModel, call: Seq<char>, obs: ObsModel)
    requires
        m.wf(),
    ensures
        m.recorded(call, obs).total() <= m.config.max_tracked_observations || m.recorded(
            call,
            obs,
        ).total() <= m.total() || m.recorded(call, obs).total() == 1,
        m.recorded(call, obs).total() >= 1,
{
    let base = with_room(m.observations, m.config.max_tracked_observations);
    lemma_recorded(m, call, obs);
    lemma_total_recorded(base, call, obs);
    if total_of(m.observations) >= m.config.max_tracked_observations && m.observations.len() > 0 {
        lemma_oldest_in_range(m.observations);
        lemma_total_remove(m.observations, oldest_entry(m.observations));
    }
}

/// What expiry leaves is fresh, and everything fresh is left.
pub proof fn lemma_expiry_keeps_fresh(list: Seq<ObsModel>, now: int, span: int, obs: ObsModel)
    ensures
        fresh_obs(list, now, span).contains(obs) <==> list.contains(obs) && fresh(
            obs.timestamp,
            now,
            span,
        ),
    decreases list.len(),
{
    if list.len() > 0 {
        let init = list.drop_last();
        lemma_expiry_keeps_fresh(init, now, span, obs);
        let rest = fresh_obs(init, now, span);
        assert(list =~= init.push(list.last()));
        if list.contains(obs) {
            let k = choose|k: int| 0 <= k < list.len() && list[k] == obs;
            if k < init.len() {
                assert(init[k] == obs);
            }
        }
        if init.contains(obs) {
            let k = choose|k: int| 0 <= k < init.len() && init[k] == obs;
            assert(list[k] == obs);
        }
        assert(list[list.len() - 1] == list.last());
        if fresh(list.last().timestamp, now, span) {
            let all = rest.push(list.last());
            assert(all[rest.len() as int] == list.last());
            if rest.contains(obs) {
                let k = choose|k: int| 0 <= k < rest.len() && rest[k] == obs;
                assert(all[k] == obs);
            }
            if all.contains(obs) {
                let k = choose|k: int| 0 <= k < all.len() && all[k] == obs;
                if k < rest.len() {
                    assert(rest[k] == obs);
                }
            }
        }
    }
}

// ---------------------------------------------------------------------------
// Lemmas on the lists
// ---------------------------------------------------------------------------

/// What characterises the position of an entry.
pub proof fn lemma_entry_of(entries: Seq<EntryModel>, call: Seq<char>, i: int)
    requires
        0 <= i <= entries.len(),
        forall|k: int| 0 <= k < i ==> (#[trigger] entries[k]).call != call,
        i < entries.len() ==> entries[i].call == call,
    ensures
        entry_of(entries, call) == i,
    decreases entries.len(),
{
    if entries.len() > 0 && i > 0 {
        assert(entries[0].call != call);
        let rest = entries.skip(1);
        assert forall|k: int| 0 <= k < i - 1 implies (#[trigger] rest[k]).call != call by {
            assert(rest[k] == entries[k + 1]);
        }
        lemma_entry_of(rest, call, i - 1);
    }
}

/// The position of an entry is that of its call, and none before it is.
pub proof fn lemma_entry_of_props(entries: Seq<EntryModel>, call: Seq<char>)
    ensures
        entry_of(entries, call) <= entries.len(),
        entry_of(entries, call) < entries.len() ==> entries[entry_of(entries, call) as int].call
            == call,
        forall|k: int| 0 <= k < entry_of(entries, call) ==> (#[trigger] entries[k]).call != call,
    decreases entries.len(),
{
    if entries.len() > 0 && entries[0].call != call {
        let rest = entries.skip(1);
        lemma_entry_of_props(rest, call);
        assert forall|k: int| 0 <= k < entry_of(entries, call) implies (
        #[trigger] entries[k]).call != call by {
            if k > 0 {
                assert(rest[k - 1] == entries[k]);
            }
        }
    }
}

/// What characterises the position of a verified call.
pub proof fn lemma_verified_at(list: Seq<VerifiedModel>, call: Seq<char>, i: int)
    requires
        0 <= i <= list.len(),
        forall|k: int| 0 <= k < i ==> (#[trigger] list[k]).call != call,
        i < list.len() ==> list[i].call == call,
    ensures
        verified_at(list, call) == i,
    decreases list.len(),
{
    if list.len() > 0 && i > 0 {
        assert(list[0].call != call);
        let rest = list.skip(1);
        assert forall|k: int| 0 <= k < i - 1 implies (#[trigger] rest[k]).call != call by {
            assert(rest[k] == list[k + 1]);
        }
        lemma_verified_at(rest, call, i - 1);
    }
}

/// The position of a verified call is its own, and none before it is.
pub proof fn lemma_verified_at_props(list: Seq<VerifiedModel>, call: Seq<char>)
    ensures
        verified_at(list, call) <= list.len(),
        verified_at(list, call) < list.len() ==> list[verified_at(list, call) as int].call == call,
        forall|k: int| 0 <= k < verified_at(list, call) ==> (#[trigger] list[k]).call != call,
    decreases list.len(),
{
    if list.len() > 0 && list[0].call != call {
        let rest = list.skip(1);
        lemma_verified_at_props(rest, call);
        assert forall|k: int| 0 <= k < verified_at(list, call) implies (#[trigger] list[k]).call
            != call by {
            if k > 0 {
                assert(rest[k - 1] == list[k]);
            }
        }
    }
}

/// A call is confused with one that is similar and nearby, and none before it is.
pub proof fn lemma_confused_with(m: EngineModel, call: Seq<char>, freq_hz: u64, from: int)
    requires
        0 <= from <= m.verified.len(),
    ensures
        from <= m.confused_with(call, freq_hz, from) <= m.verified.len(),
        m.confused_with(call, freq_hz, from) < m.verified.len() ==> m.confusable(
            m.confused_with(call, freq_hz, from),
            call,
            freq_hz,
        ),
        forall|k: int|
            from <= k < m.confused_with(call, freq_hz, from) ==> !#[trigger] m.confusable(
                k,
                call,
                freq_hz,
            ),
    decreases m.verified.len() - from,
{
    if from < m.verified.len() && !m.confusable(from, call, freq_hz) {
        lemma_confused_with(m, call, freq_hz, from + 1);
    }
}

/// The oldest entry is an entry.
pub proof fn lemma_oldest_in_range(entries: Seq<EntryModel>)
    requires
        entries.len() > 0,
    ensures
        0 <= oldest_entry(entries) < entries.len(),
    decreases entries.len(),
{
    if entries.len() > 1 {
        lemma_oldest_in_range(entries.drop_last());
    }
}

proof fn lemma_total_update(entries: Seq<EntryModel>, i: int, e: EntryModel)
    requires
        0 <= i < entries.len(),
    ensures
        total_of(entries.update(i, e)) == total_of(entries) - entries[i].list.len() + e.list.len(),
        total_of(entries) >= entries[i].list.len(),
    decreases entries.len(),
{
    let after = entries.update(i, e);
    if i == entries.len() - 1 {
        assert(after.drop_last() =~= entries.drop_last());
    } else {
        assert(after.drop_last() =~= entries.drop_last().update(i, e));
        lemma_total_update(entries.drop_last(), i, e);
    }
}

proof fn lemma_total_remove(entries: Seq<EntryModel>, i: int)
    requires
        0 <= i < entries.len(),
    ensures
        total_of(entries.remove(i)) == total_of(entries) - entries[i].list.len(),
    decreases entries.len(),
{
    let after = entries.remove(i);
    if i == entries.len() - 1 {
        assert(after =~= entries.drop_last());
    } else {
        assert(after.drop_last() =~= entries.drop_last().remove(i));
        assert(after.last() == entries.last());
        lemma_total_remove(entries.drop_last(), i);
    }
}

proof fn lemma_total_recorded(entries: Seq<EntryModel>, call: Seq<char>, obs: ObsModel)
    ensures
        total_of(with_observation(entries, call, obs)) == total_of(entries) + 1,
{
    let k = entry_of(entries, call) as int;
    lemma_entry_of_props(entries, call);
    if k < entries.len() {
        lemma_total_update(
            entries,
            k,
            EntryModel { call: entries[k].call, list: entries[k].list.push(obs) },
        );
    } else {
        let e = EntryModel { call, list: seq![obs] };
        assert(entries.push(e).drop_last() =~= entries);
    }
}

/// Recording keeps the entries apart.
pub proof fn lemma_recorded(m: EngineModel, call: Seq<char>, obs: ObsModel)
    requires
        m.wf(),
    ensures
        m.recorded(call, obs).wf(),
{
    let base = with_room(m.observations, m.config.max_tracked_observations);
    if m.observations.len() > 0 {
        lemma_oldest_in_range(m.observations);
    }
    let room = EngineModel { observations: base, ..m };
    assert(room.wf());
    lemma_entry_of_props(base, call);
    let after = m.recorded(call, obs);
    let k = entry_of(base, call) as int;
    assert forall|i: int, j: int|
        #![trigger after.observations[i], after.observations[j]]
        0 <= i < j < after.observations.len() implies after.observations[i].call
        != after.observations[j].call by {
        if k < base.len() {
            assert(base[i].call != base[j].call);
        } else if j < base.len() {
            assert(base[i].call != base[j].call);
        } else {
            assert(base[i].call != call);
        }
    }
}

/// Tagging keeps the verified calls apart.
pub proof fn lemma_tagged(m: EngineModel, call: Seq<char>, freq_hz: u64, now: int)
    requires
        m.wf(),
    ensures
        m.tagged(call, freq_hz, now).wf(),
{
    let after = m.tagged(call, freq_hz, now);
    lemma_verified_at_props(m.verified, call);
    let k = verified_at(m.verified, call) as int;
    assert forall|i: int, j: int|
        #![trigger after.verified[i], after.verified[j]]
        0 <= i < j < after.verified.len() implies after.verified[i].call
        != after.verified[j].call by {
        if m.corroborated(call, freq_hz, now) && k >= m.verified.len() && j == m.verified.len() {
            assert(m.verified[i].call != call);
        } else {
            assert(m.verified[i].call != m.verified[j].call);
        }
    }
}

/// Dropping what is stale keeps a list of entries within the original one.
proof fn lemma_fresh_entries(entries: Seq<EntryModel>, now: int, span: int)
    requires
        forall|i: int, j: int|
            #![trigger entries[i], entries[j]]
            0 <= i < j < entries.len() ==> entries[i].call != entries[j].call,
    ensures
        ({
            let kept = fresh_entries(entries, now, span);
            &&& forall|i: int, j: int|
                #![trigger kept[i], kept[j]]
                0 <= i < j < kept.len() ==> kept[i].call != kept[j].call
            &&& forall|i: int| 0 <= i < kept.len() ==> (#[trigger] kept[i]).list.len() > 0
            &&& forall|i: int|
                0 <= i < kept.len() ==> exists|j: int|
                    0 <= j < entries.len() && (#[trigger] entries[j]).call == (
                    #[trigger] kept[i]).call
        }),
    decreases entries.len(),
{
    if entries.len() > 0 {
        let init = entries.drop_last();
        assert forall|i: int, j: int|
            #![trigger init[i], init[j]]
            0 <= i < j < init.len() implies init[i].call != init[j].call by {
            assert(entries[i].call != entries[j].call);
        }
        lemma_fresh_entries(init, now, span);
        let before = fresh_entries(init, now, span);
        let kept = fresh_entries(entries, now, span);
        assert forall|i: int| 0 <= i < kept.len() implies exists|j: int|
            0 <= j < entries.len() && (#[trigger] entries[j]).call == (#[trigger] kept[i]).call by {
            if i < before.len() {
                let j = choose|j: int|
                    0 <= j < init.len() && (#[trigger] init[j]).call == before[i].call;
                assert(entries[j].call == kept[i].call);
            } else {
                assert(entries[entries.len() - 1].call == kept[i].call);
            }
        }
        assert forall|i: int, j: int|
            #![trigger kept[i], kept[j]]
            0 <= i < j < kept.len() implies kept[i].call != kept[j].call by {
            if j < before.len() {
                assert(before[i].call != before[j].call);
            } else {
                assert(before[i].call == kept[i].call);
                let q = choose|q: int|
                    0 <= q < init.len() && (#[trigger] init[q]).call == before[i].call;
                assert(entries[q].call != entries[entries.len() - 1].call);
            }
        }
    }
}

proof fn lemma_fresh_verified(list: Seq<VerifiedModel>, now: int, span: int)
    requires
        forall|i: int, j: int|
            #![trigger list[i], list[j]]
            0 <= i < j < list.len() ==> list[i].call != list[j].call,
    ensures
        ({
            let kept = fresh_verified(list, now, span);
            &&& forall|i: int, j: int|
                #![trigger kept[i], kept[j]]
                0 <= i < j < kept.len() ==> kept[i].call != kept[j].call
            &&& forall|i: int|
                0 <= i < kept.len() ==> exists|j: int|
                    0 <= j < list.len() && #[trigger] list[j] == #[trigger] kept[i]
        }),
    decreases list.len(),
{
    if list.len() > 0 {
        let init = list.drop_last();
        assert forall|i: int, j: int|
            #![trigger init[i], init[j]]
            0 <= i < j < init.len() implies init[i].call != init[j].call by {
            assert(list[i].call != list[j].call);
        }
        lemma_fresh_verified(init, now, span);
        let before = fresh_verified(init, now, span);
        let kept = fresh_verified(list, now, span);
        assert forall|i: int| 0 <= i < kept.len() implies exists|j: int|
            0 <= j < list.len() && #[trigger] list[j] == #[trigger] kept[i] by {
            if i < before.len() {
                let j = choose|j: int| 0 <= j < init.len() && #[trigger] init[j] == before[i];
                assert(list[j] == kept[i]);
            } else {
                assert(list[list.len() - 1] == kept[i]);
            }
        }
        assert forall|i: int, j: int|
            #![trigger kept[i], kept[j]]
            0 <= i < j < kept.len() implies kept[i].call != kept[j].call by {
            if j < before.len() {
                assert(before[i].call != before[j].call);
            } else {
                assert(before[i] == kept[i]);
                let q = choose|q: int| 0 <= q < init.len() && #[trigger] init[q] == before[i];
                assert(list[q].call != list[list.len() - 1].call);
            }
        }
    }
}

/// Expiry keeps the engine well-formed.
pub proof fn lemma_expired_wf(m: EngineModel, now: int)
    requires
        m.wf(),
    ensures
        m.expired(now).wf(),
{
    let span = m.config.lookback_window@;
    lemma_fresh_entries(m.observations, now, span);
    lemma_fresh_verified(m.verified, now, 2 * span);
}

// ---------------------------------------------------------------------------
// The engine
// ---------------------------------------------------------------------------

/// Whether a point in time lies no more than `span` before `now`.
fn is_fresh(timestamp: &Timestamp, now: &Timestamp, span: i128) -> (r: bool)
    ensures
        r == fresh(timestamp@, now@, span as int),
{
    now.nanos_since(timestamp) <= span
}

/// Distance between two frequencies.
fn distance_hz(a: u64, b: u64) -> (r: i128)
    ensures
        r == freq_distance(a, b),
{
    if a >= b {
        (a - b) as i128
    } else {
        (b - a) as i128
    }
}

/// Drop the stale observations of one entry.
fn retain_fresh(list: &mut Vec<SkimObs>, now: &Timestamp, span: i128)
    ensures
        obs_models(final(list)@) == fresh_obs(obs_models(old(list)@), now@, span as int),
        final(list)@.len() <= old(list)@.len(),
{
    let ghost all = obs_models(list@);
    let mut i: usize = 0;
    let ghost mut seen: int = 0;
    proof {
        assert(all.skip(0) =~= all);
        assert(obs_models(list@).take(0) =~= fresh_obs(all.take(0), now@, span as int));
        assert(obs_models(list@).skip(0) =~= all.skip(0));
    }
    while i < list.len()
        invariant
            i <= list@.len(),
            0 <= seen <= all.len(),
            list@.len() - i == all.len() - seen,
            list@.len() <= all.len(),
            obs_models(list@).take(i as int) == fresh_obs(all.take(seen), now@, span as int),
            obs_models(list@).skip(i as int) == all.skip(seen),
        decreases list@.len() - i,
    {
        let ghost before = obs_models(list@);
        proof {
            assert(before.skip(i as int)[0] == all.skip(seen)[0]);
            assert(before[i as int] == all[seen]);
            assert(all.take(seen + 1).drop_last() =~= all.take(seen));
            assert(all.take(seen + 1).last() == all[seen]);
            assert(all.skip(seen).skip(1) =~= all.skip(seen + 1));
            assert(before.skip(i as int).skip(1) =~= before.skip(i + 1));
        }
        if is_fresh(&list[i].timestamp, now, span) {
            assert(before.take(i + 1) =~= before.take(i as int).push(before[i as int]));
            i += 1;
        } else {
            list.remove(i);
            assert(obs_models(list@) =~= before.remove(i as int));
            assert(before.remove(i as int).take(i as int) =~= before.take(i as int));
            assert(before.remove(i as int).skip(i as int) =~= before.skip(i + 1));
        }
        proof {
            seen = seen + 1;
        }
    }
    proof {
        assert(all.take(seen) =~= all);
        assert(obs_models(list@).take(i as int) =~= obs_models(list@));
    }
}

impl SkimmerQualityEngine {
    /// The engine's state is consistent.
    pub open spec fn wf(&self) -> bool {
        &&& self@.wf()
        &&& self.counts()
    }

    /// The running total is the number of observations tracked.
    pub closed spec fn counts(&self) -> bool {
        self.total_observations == self@.total()
    }

    /// An engine that has seen nothing.
    pub fn new(config: SkimmerQualityConfig) -> (r: Self)
        ensures
            r.wf(),
            r@.config == config,
            r@.observations.len() == 0,
            r@.verified.len() == 0,
    {
        SkimmerQualityEngine {
            config,
            observations: Vec::new(),
            total_observations: 0,
            verified_calls: Vec::new(),
        }
    }

    /// Replace the configuration; what has been seen stays.
    pub fn update_config(&mut self, config: SkimmerQualityConfig)
        requires
            old(self).wf(),
        ensures
            final(self).wf(),
            final(self)@ == (EngineModel { config, ..old(self)@ }),
    {
        self.config = config;
    }

    /// Number of observations tracked, over all callsigns.
    pub fn total_observations(&self) -> (r: usize)
        requires
            self.wf(),
        ensures
            r == self@.total(),
    {
        self.total_observations
    }

    /// Number of callsigns with tracked observations.
    pub fn tracked_calls(&self) -> (r: usize)
        ensures
            r == self@.observations.len(),
    {
        self.observations.len()
    }

    /// Position of the entry of a callsign, or the number of entries.
    fn find_entry(&self, call: &str) -> (r: usize)
        ensures
            r == entry_of(self@.observations, call@),
            r <= self.observations@.len(),
    {
        let mut i: usize = 0;
        while i < self.observations.len()
            invariant
                i <= self.observations@.len(),
                forall|k: int|
                    0 <= k < i ==> (#[trigger] self@.observations[k]).call != call@,
            decreases self.observations@.len() - i,
        {
            if str_eq(self.observations[i].call.as_str(), call) {
                proof {
                    lemma_entry_of(self@.observations, call@, i as int);
                }
                return i;
            }
            i += 1;
        }
        proof {
            lemma_entry_of(self@.observations, call@, i as int);
        }
        i
    }

    /// Position of a verified callsign, or the number of verified callsigns.
    fn find_verified(&self, call: &str) -> (r: usize)
        ensures
            r == verified_at(self@.verified, call@),
            r <= self.verified_calls@.len(),
    {
        let mut i: usize = 0;
        while i < self.verified_calls.len()
            invariant
                i <= self.verified_calls@.len(),
                forall|k: int| 0 <= k < i ==> (#[trigger] self@.verified[k]).call != call@,
            decreases self.verified_calls@.len() - i,
        {
            if str_eq(self.verified_calls[i].call.as_str(), call) {
                proof {
                    lemma_verified_at(self@.verified, call@, i as int);
                }
                return i;
            }
            i += 1;
        }
        proof {
            lemma_verified_at(self@.verified, call@, i as int);
        }
        i
    }

    /// Evict the entry with the oldest first observation.
    fn evict_oldest_entries(&mut self)
        requires
            old(self).wf(),
        ensures
            final(self).wf(),
            final(self)@.config == old(self)@.config,
            final(self)@.verified == old(self)@.verified,
            final(self)@.observations == (if old(self)@.observations.len() > 0 {
                old(self)@.observations.remove(oldest_entry(old(self)@.observations))
            } else {
                old(self)@.observations
            }),
    {
        if self.observations.len() == 0 {
            return;
        }
        let ghost m = self@;
        let ghost entries = self@.observations;
        let mut oldest: usize = 0;
        let mut i: usize = 1;
        assert(entries.take(1).len() == 1);
        while i < self.observations.len()
            invariant
                self@.wf(),
                entries == self@.observations,
                1 <= i <= self.observations@.len(),
                oldest < i,
                oldest == oldest_entry(entries.take(i as int)),
            decreases self.observations@.len() - i,
        {
            proof {
                let next = entries.take(i + 1);
                assert(next.drop_last() =~= entries.take(i as int));
                assert(next.last() == entries[i as int]);
                assert(entries[i as int].list.len() > 0 && entries[oldest as int].list.len() > 0);
                assert(entries.take(i as int)[oldest as int] == entries[oldest as int]);
                assert(next[oldest as int] == entries[oldest as int]);
            }
            if self.observations[i].list[0].timestamp.before(
                &self.observations[oldest].list[0].timestamp,
            ) {
                oldest = i;
            }
            i += 1;
        }
        proof {
            assert(entries.take(i as int) =~= entries);
            lemma_total_remove(entries, oldest as int);
            lemma_total_update(entries, oldest as int, entries[oldest as int]);
            let room = EngineModel { observations: entries.remove(oldest as int), ..m };
            assert(room.wf());
        }
        let removed = self.observations.remove(oldest);
        proof {
            assert(self@.observations =~= entries.remove(oldest as int));
            assert(obs_models(removed.list@) == entries[oldest as int].list);
            assert(obs_models(removed.list@).len() == removed.list@.len());
            assert(self@.verified == m.verified);
        }
        self.total_observations = self.total_observations - removed.list.len();
    }

    /// Record a skimmer observation for a DX callsign.
    ///
    /// At the cap on tracked observations, the callsign whose first
    /// observation is the oldest is forgotten first.
    pub fn record_observation(
        &mut self,
        dx_call: &str,
        freq_hz: u64,
        skimmer_call: &str,
        now: Timestamp,
    )
        requires
            old(self).wf(),
        ensures
            final(self).wf(),
            final(self)@ == old(self)@.recorded(
                dx_call@,
                ObsModel { freq_hz, skimmer_call: skimmer_call@, timestamp: now@ },
            ),
    {
        let ghost m = self@;
        let ghost obs_model = ObsModel {
            freq_hz,
            skimmer_call: skimmer_call@,
            timestamp: now@,
        };
        if self.total_observations >= self.config.max_tracked_observations {
            proof {
                if m.observations.len() > 0 {
                    lemma_oldest_in_range(m.observations);
                    lemma_total_remove(m.observations, oldest_entry(m.observations));
                    assert(m.observations[oldest_entry(m.observations)].list.len() > 0);
                }
            }
            self.evict_oldest_entries();
        }
        let ghost base = self@.observations;
        proof {
            assert(base == with_room(m.observations, m.config.max_tracked_observations));
            lemma_total_recorded(base, dx_call@, obs_model);
            lemma_recorded(m, dx_call@, obs_model);
            lemma_entry_of_props(base, dx_call@);
        }
        let obs = SkimObs { freq_hz, skimmer_call: skimmer_call.to_owned(), timestamp: now };
        let k: usize = self.find_entry(dx_call);
        if k < self.observations.len() {
            let ghost list = self.observations@[k as int].list@;
            self.observations[k].list.push(obs);
            proof {
                assert(obs_models(list.push(obs)) =~= obs_models(list).push(obs_model));
                assert(self@.observations =~= with_observation(base, dx_call@, obs_model));
            }
        } else {
            let mut list: Vec<SkimObs> = Vec::new();
            list.push(obs);
            assert(obs_models(list@) =~= seq![obs_model]);
            self.observations.push(CallEntry { call: dx_call.to_owned(), list });
            assert(self@.observations =~= with_observation(base, dx_call@, obs_model));
        }
        self.total_observations = self.total_observations + 1;
        assert(self@ == m.recorded(dx_call@, obs_model));
    }

    /// Count distinct skimmer callsigns reporting `dx_call` within the
    /// frequency and time windows.
    fn count_distinct_skimmers(&self, dx_call: &str, freq_hz: u64, now: &Timestamp) -> (r: usize)
        ensures
            r == corroborators(
                self@.observations_of(dx_call@),
                freq_hz,
                now@,
                self@.config,
            ).len(),
    {
        let span: i128 = self.config.lookback_window.as_nanos();
        let window: i128 = self.config.valid_freq_window_hz as i128;
        let k: usize = self.find_entry(dx_call);
        if k >= self.observations.len() {
            return 0;
        }
        let list = &self.observations[k].list;
        let ghost models = obs_models(list@);
        assert(models == self@.observations_of(dx_call@));
        let mut seen: ValueSet<String> = ValueSet::new();
        let mut i: usize = 0;
        while i < list.len()
            invariant
                i <= list@.len(),
                models == obs_models(list@),
                span == self@.config.lookback_window@,
                window == self@.config.valid_freq_window_hz,
                seen@ == corroborators(models.take(i as int), freq_hz, now@, self@.config),
            decreases list@.len() - i,
        {
            proof {
                assert(models.take(i + 1).drop_last() =~= models.take(i as int));
                assert(models.take(i + 1).last() == models[i as int]);
            }
            let obs = &list[i];
            if is_fresh(&obs.timestamp, now, span) && distance_hz(freq_hz, obs.freq_hz) <= window {
                seen.insert(obs.skimmer_call.clone());
            }
            i += 1;
        }
        assert(models.take(i as int) =~= models);
        seen.len()
    }

    /// Find a verified call that is similar to `dx_call` at a nearby frequency.
    /// Returns its position and the edit distance.
    fn find_busted_match(&self, dx_call: &str, freq_hz: u64) -> (r: Option<(usize, usize)>)
        ensures
            match r {
                Some((k, dist)) => {
                    &&& k < self.verified_calls@.len()
                    &&& self@.confused_with(dx_call@, freq_hz, 0) == k
                    &&& dist == edit_distance(
                        encode_utf8(dx_call@),
                        encode_utf8(self@.verified[k as int].call),
                    )
                    &&& dist <= self@.config.similar_call_max_edit_distance
                },
                None => self@.confused_with(dx_call@, freq_hz, 0) == self@.verified.len(),
            },
    {
        let max_dist: usize = self.config.similar_call_max_edit_distance as usize;
        let window: i128 = self.config.busted_freq_window_hz as i128;
        let mut i: usize = 0;
        while i < self.verified_calls.len()
            invariant
                i <= self.verified_calls@.len(),
                max_dist == self@.config.similar_call_max_edit_distance,
                window == self@.config.busted_freq_window_hz,
                self@.confused_with(dx_call@, freq_hz, 0) == self@.confused_with(
                    dx_call@,
                    freq_hz,
                    i as int,
                ),
            decreases self.verified_calls@.len() - i,
        {
            let verified = &self.verified_calls[i];
            if !str_eq(verified.call.as_str(), dx_call) && distance_hz(
                freq_hz,
                verified.last_freq_hz,
            ) <= window {
                let dist: usize = levenshtein(dx_call, verified.call.as_str());
                if dist <= max_dist {
                    assert(self@.confusable(i as int, dx_call@, freq_hz));
                    return Some((i, dist));
                }
            }
            assert(!self@.confusable(i as int, dx_call@, freq_hz));
            i += 1;
        }
        None
    }

    /// Verify a callsign on a frequency.
    fn verify_call(&mut self, dx_call: &str, freq_hz: u64, now: Timestamp)
        requires
            old(self).wf(),
        ensures
            final(self)@ == (EngineModel {
                verified: with_verified(old(self)@.verified, dx_call@, freq_hz, now@),
                ..old(self)@
            }),
            final(self).total_observations == old(self).total_observations,
    {
        let ghost before = self@.verified;
        let k: usize = self.find_verified(dx_call);
        let v = VerifiedCall {
            call: dx_call.to_owned(),
            last_freq_hz: freq_hz,
            last_verified: now,
        };
        if k < self.verified_calls.len() {
            self.verified_calls[k] = v;
        } else {
            self.verified_calls.push(v);
        }
        assert(self@.verified =~= with_verified(before, dx_call@, freq_hz, now@));
    }

    /// Compute the quality tag for a DX callsign at a given frequency.
    ///
    /// Call this after `record_observation()` for the current spot.
    pub fn compute_tag(&mut self, dx_call: &str, freq_hz: u64, now: Timestamp) -> (r:
        SkimQualityTag)
        requires
            old(self).wf(),
        ensures
            final(self).wf(),
            r == old(self)@.tag(dx_call@, freq_hz, now@),
            final(self)@ == old(self)@.tagged(dx_call@, freq_hz, now@),
    {
        self.compute_tag_with_detail(dx_call, freq_hz, now).0
    }

    /// Compute the quality tag with detailed information.
    pub fn compute_tag_with_detail(&mut self, dx_call: &str, freq_hz: u64, now: Timestamp) -> (r: (
        SkimQualityTag,
        SkimQualityDetail,
    ))
        requires
            old(self).wf(),
        ensures
            final(self).wf(),
            r.0 == old(self)@.tag(dx_call@, freq_hz, now@),
            r.1@ == old(self)@.detail(dx_call@, freq_hz, now@),
            final(self)@ == old(self)@.tagged(dx_call@, freq_hz, now@),
    {
        let ghost m = self@;
        proof {
            lemma_tagged(m, dx_call@, freq_hz, now@);
            lemma_verified_at_props(m.verified, dx_call@);
        }
        let distinct: usize = if self.config.compute_valid {
            self.count_distinct_skimmers(dx_call, freq_hz, &now)
        } else {
            0
        };
        let corroborating_skimmers: u8 = if distinct <= 255 {
            distinct as u8
        } else {
            255
        };
        if self.config.compute_valid && distinct
            >= self.config.valid_required_distinct_skimmers as usize {
            let mut previous_freq_hz: Option<u64> = None;
            if self.config.compute_qsy {
                let k: usize = self.find_verified(dx_call);
                if k < self.verified_calls.len() {
                    let prev: u64 = self.verified_calls[k].last_freq_hz;
                    if distance_hz(freq_hz, prev) > self.config.qsy_freq_window_hz as i128 {
                        previous_freq_hz = Some(prev);
                    }
                }
            }
            self.verify_call(dx_call, freq_hz, now);
            let tag = if previous_freq_hz.is_some() {
                SkimQualityTag::Qsy
            } else {
                SkimQualityTag::Valid
            };
            return (
                tag,
                SkimQualityDetail {
                    corroborating_skimmers,
                    similar_call: None,
                    edit_distance: None,
                    previous_freq_hz,
                },
            );
        }
        if self.config.compute_busted {
            if let Some((k, dist)) = self.find_busted_match(dx_call, freq_hz) {
                return (
                    SkimQualityTag::Busted,
                    SkimQualityDetail {
                        corroborating_skimmers,
                        similar_call: Some(self.verified_calls[k].call.clone()),
                        edit_distance: Some(dist as u8),
                        previous_freq_hz: None,
                    },
                );
            }
        }
        (
            SkimQualityTag::Unknown,
            SkimQualityDetail {
                corroborating_skimmers,
                similar_call: None,
                edit_distance: None,
                previous_freq_hz: None,
            },
        )
    }

    /// Check whether a spot with the given tag and originator kind should be emitted.
    pub fn should_emit(&self, tag: SkimQualityTag, originator_kind: OriginatorKind) -> (r: bool)
        ensures
            r == gate_open(self@.config, tag, originator_kind),
    {
        // Human-originated spots are never blocked by skimmer gating
        if self.config.apply_only_to_skimmer && originator_kind != OriginatorKind::Skimmer {
            return true;
        }
        if !self.config.enabled || !self.config.gate_skimmer_output {
            return true;
        }
        match tag {
            SkimQualityTag::Valid => self.config.allow_valid,
            SkimQualityTag::Qsy => self.config.allow_qsy,
            SkimQualityTag::Unknown => self.config.allow_unknown,
            SkimQualityTag::Busted => self.config.allow_busted,
        }
    }

    /// Evict observations older than the lookback window, and verified calls
    /// older than twice the window.
    pub fn evict_expired(&mut self, now: Timestamp)
        requires
            old(self).wf(),
        ensures
            final(self).wf(),
            final(self)@ == old(self)@.expired(now@),
    {
        let ghost m = self@;
        let span: i128 = self.config.lookback_window.as_nanos();
        proof {
            lemma_expired_wf(m, now@);
        }
        self.expire_entries(&now, span);
        self.expire_verified(&now, span * 2);
    }

    /// Drop the stale observations, and the entries left without any.
    fn expire_entries(&mut self, now: &Timestamp, span: i128)
        requires
            old(self).wf(),
        ensures
            final(self)@ == (EngineModel {
                observations: fresh_entries(old(self)@.observations, now@, span as int),
                ..old(self)@
            }),
            final(self).total_observations == final(self)@.total(),
    {
        let ghost m = self@;
        let ghost all = m.observations;
        let mut i: usize = 0;
        let ghost mut seen: int = 0;
        proof {
            assert(all.skip(0) =~= all);
            assert(self@.observations.take(0) =~= fresh_entries(all.take(0), now@, span as int));
        }
        while i < self.observations.len()
            invariant
                i <= self.observations@.len(),
                0 <= seen <= all.len(),
                self.observations@.len() - i == all.len() - seen,
                self@.config == m.config,
                self@.verified == m.verified,
                self.total_observations == total_of(self@.observations),
                self@.observations.take(i as int) == fresh_entries(
                    all.take(seen),
                    now@,
                    span as int,
                ),
                self@.observations.skip(i as int) == all.skip(seen),
            decreases self.observations@.len() - i,
        {
            let ghost before = self@.observations;
            let ghost entry = before[i as int];
            proof {
                assert(before.skip(i as int)[0] == all.skip(seen)[0]);
                assert(entry == all[seen]);
                assert(all.take(seen + 1).drop_last() =~= all.take(seen));
                assert(all.take(seen + 1).last() == all[seen]);
                assert(all.skip(seen).skip(1) =~= all.skip(seen + 1));
                assert(before.skip(i as int).skip(1) =~= before.skip(i + 1));
            }
            let count: usize = self.observations[i].list.len();
            retain_fresh(&mut self.observations[i].list, now, span);
            let left: usize = self.observations[i].list.len();
            let ghost kept = EntryModel {
                call: entry.call,
                list: fresh_obs(entry.list, now@, span as int),
            };
            let ghost after = self@.observations;
            proof {
                assert(after =~= before.update(i as int, kept));
                lemma_total_update(before, i as int, kept);
                lemma_total_update(after, i as int, kept);
            }
            self.total_observations = self.total_observations - (count - left);
            if left > 0 {
                proof {
                    assert(after.take(i + 1) =~= before.take(i as int).push(kept));
                    assert(after.skip(i + 1) =~= before.skip(i + 1));
                }
                i += 1;
            } else {
                self.observations.remove(i);
                proof {
                    lemma_total_remove(after, i as int);
                    assert(self@.observations =~= after.remove(i as int));
                    assert(after.remove(i as int).take(i as int) =~= before.take(i as int));
                    assert(after.remove(i as int).skip(i as int) =~= before.skip(i + 1));
                }
            }
            proof {
                seen = seen + 1;
            }
        }
        proof {
            assert(all.take(seen) =~= all);
            assert(self@.observations.take(i as int) =~= self@.observations);
        }
    }

    /// Drop the verified calls that are stale.
    fn expire_verified(&mut self, now: &Timestamp, span: i128)
        ensures
            final(self)@ == (EngineModel {
                verified: fresh_verified(old(self)@.verified, now@, span as int),
                ..old(self)@
            }),
            final(self).total_observations == old(self).total_observations,
    {
        let ghost m = self@;
        let ghost all = m.verified;
        let ghost total = self.total_observations;
        let mut i: usize = 0;
        let ghost mut seen: int = 0;
        proof {
            assert(all.skip(0) =~= all);
            assert(self@.verified.take(0) =~= fresh_verified(all.take(0), now@, span as int));
        }
        while i < self.verified_calls.len()
            invariant
                i <= self.verified_calls@.len(),
                0 <= seen <= all.len(),
                self.verified_calls@.len() - i == all.len() - seen,
                self@.config == m.config,
                self@.observations == m.observations,
                self.total_observations == total,
                self@.verified.take(i as int) == fresh_verified(all.take(seen), now@, span as int),
                self@.verified.skip(i as int) == all.skip(seen),
            decreases self.verified_calls@.len() - i,
        {
            let ghost before = self@.verified;
            proof {
                assert(before.skip(i as int)[0] == all.skip(seen)[0]);
                assert(before[i as int] == all[seen]);
                assert(all.take(seen + 1).drop_last() =~= all.take(seen));
                assert(all.take(seen + 1).last() == all[seen]);
                assert(all.skip(seen).skip(1) =~= all.skip(seen + 1));
                assert(before.skip(i as int).skip(1) =~= before.skip(i + 1));
            }
            if is_fresh(&self.verified_calls[i].last_verified, now, span) {
                assert(before.take(i + 1) =~= before.take(i as int).push(before[i as int]));
                i += 1;
            } else {
                self.verified_calls.remove(i);
                assert(self@.verified =~= before.remove(i as int));
                assert(before.remove(i as int).take(i as int) =~= before.take(i as int));
                assert(before.remove(i as int).skip(i as int) =~= before.skip(i + 1));
            }
            proof {
                seen = seen + 1;
            }
        }
        proof {
            assert(all.take(seen) =~= all);
            assert(self@.verified.take(i as int) =~= self@.verified);
        }
    }
}

} // verus!
