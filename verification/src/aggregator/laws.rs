//! What holds of the aggregation pipeline as a whole.

use crate::callsign::normalized;
use crate::domain::OriginatorKind;
use crate::filter::config::FilterConfigSerde;
use crate::filter::evaluate::lemma_default_allows;
use crate::freq::{band_at, bucket_floor, bucket_width, mode_under};
use crate::model::{EventModel, KeyModel, SpotEventKind};
use crate::parser::spot::ParsedSpotModel;
use crate::skimmer::quality::{
    lemma_recorded, lemma_tagged, lemma_uncorroborated_held, ObsModel,
};
use vstd::prelude::*;

use super::pipeline::{
    count_within, emission, emitted_state, events_emitting, fields_for, input_for, key_for,
    key_left, spot_event, spotter_for, table_emitting, table_marked, view_for, withdrawals,
    AggregatorConfig, AggregatorModel, DedupeConfig, IncomingModel, LookupsModel,
};
use super::spot_table::{
    fresh_state, lemma_emitted_of_props, lemma_ingested, lemma_row_of_props, lemma_with_emission,
    lemma_with_state, lemma_without_row, row_of, stale, station_of, RowModel, TableModel,
};

verus! {

/// Two reports belong to one spot exactly when they agree in normalized
/// callsign, band, mode and frequency bucket.
pub proof fn lemma_same_spot(config: AggregatorConfig, a: ParsedSpotModel, b: ParsedSpotModel)
    ensures
        key_for(config, a) == key_for(config, b) <==> {
            let mode_a = mode_under(a.freq_hz, None, config.mode_policy);
            let mode_b = mode_under(b.freq_hz, None, config.mode_policy);
            let w = config.freq_bucket;
            &&& normalized(a.dx_call, config.callsign_norm) == normalized(
                b.dx_call,
                config.callsign_norm,
            )
            &&& band_at(a.freq_hz) == band_at(b.freq_hz)
            &&& mode_a == mode_b
            &&& bucket_floor(
                a.freq_hz,
                bucket_width(mode_a, w.cw_bucket_hz, w.ssb_bucket_hz, w.dig_bucket_hz),
            ) == bucket_floor(
                b.freq_hz,
                bucket_width(mode_b, w.cw_bucket_hz, w.ssb_bucket_hz, w.dig_bucket_hz),
            )
        },
{
}

/// A report that gating blocks or the filter drops emits nothing for its
/// spot; only spots that it displaced are withdrawn.
pub proof fn lemma_blocked_emits_nothing(m: AggregatorModel, obs: IncomingModel, l: LookupsModel)
    requires
        !m.passes(obs, l),
    ensures
        m.events(obs, l) == withdrawals(m.table.displaced(input_for(m.config, obs))),
{
}

/// A table that is not full displaces nothing.
pub proof fn lemma_nothing_displaced(m: AggregatorModel, obs: IncomingModel)
    requires
        m.table.rows.len() < m.table.config.max_spots,
    ensures
        m.table.displaced(input_for(m.config, obs)).len() == 0,
{
}

/// Where gating applies to skimmers only, no human report is blocked by it.
pub proof fn lemma_human_reports_pass_gate(m: AggregatorModel, obs: IncomingModel)
    requires
        m.engine matches Some(e) ==> e.config.apply_only_to_skimmer,
        obs.originator_kind != OriginatorKind::Skimmer,
    ensures
        m.gate_passes(obs),
{
}

/// Where gating is on and lets neither unknown nor busted reports through, a
/// report by a skimmer emits nothing for its spot until enough distinct
/// skimmers, its own among them, corroborate it.
pub proof fn lemma_uncorroborated_emits_nothing(
    m: AggregatorModel,
    obs: IncomingModel,
    l: LookupsModel,
)
    requires
        m.engine matches Some(e) && e.config.enabled && e.config.gate_skimmer_output
            && !e.config.allow_unknown && !e.config.allow_busted,
        obs.originator_kind == OriginatorKind::Skimmer,
        !m.recorded(obs).corroborated(
            key_for(m.config, obs.parsed).dx_call_norm,
            obs.parsed.freq_hz,
            obs.received_at,
        ),
    ensures
        m.events(obs, l) == withdrawals(m.table.displaced(input_for(m.config, obs))),
{
    lemma_uncorroborated_held(
        m.recorded(obs),
        key_for(m.config, obs.parsed).dx_call_norm,
        obs.parsed.freq_hz,
        obs.received_at,
    );
    lemma_blocked_emits_nothing(m, obs, l);
}

/// Every event of an observation concerns a spot; it is the withdrawal of a
/// displaced spot, or one of at most two events for its own station.
pub proof fn lemma_events_shape(m: AggregatorModel, obs: IncomingModel, l: LookupsModel)
    ensures
        m.events(obs, l).len() <= m.table.displaced(input_for(m.config, obs)).len() + 2,
        forall|i: int| 0 <= i < m.events(obs, l).len() ==> #[trigger] m.events(obs, l)[i] is Spot,
{
}

/// With updates off, only `New` and `Withdraw` events are emitted.
pub proof fn lemma_updates_off(m: AggregatorModel, obs: IncomingModel, l: LookupsModel, i: int)
    requires
        !m.config.dedupe.emit_updates,
        0 <= i < m.events(obs, l).len(),
    ensures
        m.events(obs, l)[i] matches EventModel::Spot(e) && e.kind != SpotEventKind::Update,
{
}

/// A spot that has been emitted is not emitted as `New` again while it is in
/// the table.
pub proof fn lemma_new_only_once(m: AggregatorModel, obs: IncomingModel, l: LookupsModel, i: int)
    requires
        m.wf(),
        m.table.has(key_for(m.config, obs.parsed)),
        m.table.state(key_for(m.config, obs.parsed)).first_emitted,
        0 <= i < m.events(obs, l).len(),
    ensures
        m.events(obs, l)[i] matches EventModel::Spot(e) && e.kind != SpotEventKind::New,
{
    let input = input_for(m.config, obs);
    lemma_ingested(m.table, input);
    lemma_with_state(m.table.ingested(input), input.key, m.spot_after(obs, l));
    assert(m.spot_after(obs, l).first_emitted);
}

/// A report that gets through leaves its spot marked as emitted, and the first
/// one to get through is emitted as `New`.
pub proof fn lemma_first_pass_is_new(m: AggregatorModel, obs: IncomingModel, l: LookupsModel)
    requires
        m.wf(),
        m.passes(obs, l),
    ensures
        ({
            let key = key_for(m.config, obs.parsed);
            let state = m.spot_after(obs, l);
            &&& m.processed(obs, l).table.has(key)
            &&& m.processed(obs, l).table.state(key).first_emitted
            &&& !state.first_emitted ==> m.events(obs, l).len() > 0 && m.events(obs, l).last()
                == spot_event(state.spot, SpotEventKind::New, state.revision)
        }),
{
    let input = input_for(m.config, obs);
    let key = input.key;
    lemma_ingested(m.table, input);
    lemma_with_state(m.table.ingested(input), key, m.spot_after(obs, l));
    let ready = m.table_ready(obs, l);
    assert(ready.has(key) == m.table.ingested(input).has(key));
    lemma_emitting(ready, key, obs.received_at, m.config.dedupe);
}

/// Emission keeps the table well-formed, keeps the spot, and leaves it marked.
pub proof fn lemma_emitting(t: TableModel, key: KeyModel, now: int, dedupe: DedupeConfig)
    requires
        t.wf(),
        t.has(key),
    ensures
        table_emitting(t, key, now, dedupe).wf(),
        table_emitting(t, key, now, dedupe).config == t.config,
        table_emitting(t, key, now, dedupe).has(key),
        table_emitting(t, key, now, dedupe).state(key) == (if emission(
            t.state(key),
            now,
            dedupe,
        ) is Some {
            emitted_state(t.state(key), now)
        } else {
            t.state(key)
        }),
{
    let marked = table_marked(t, key, now, dedupe);
    lemma_with_state(t, key, emitted_state(t.state(key), now));
    assert(t.with_state(key, emitted_state(t.state(key), now)).has(key) == t.has(key));
    lemma_with_emission(marked, key);
    lemma_left(t, key, now, dedupe);
    match key_left(t, key, now, dedupe) {
        Some(old) => {
            lemma_row_of_props(marked.rows, old);
            lemma_without_row(marked, row_of(marked.rows, old) as int);
            assert(marked.without(old).has(key) == marked.has(key));
            assert(marked.without(old).state(key) == marked.state(key));
            lemma_with_emission(marked.without(old), key);
        },
        None => {},
    }
}

/// What a station leaves is another spot of the table, on the same band and
/// mode, in another frequency bucket.
pub proof fn lemma_left(t: TableModel, key: KeyModel, now: int, dedupe: DedupeConfig)
    requires
        t.wf(),
        t.has(key),
    ensures
        key_left(t, key, now, dedupe) matches Some(old) ==> {
            &&& old.dx_call_norm == key.dx_call_norm
            &&& old.band == key.band
            &&& old.mode == key.mode
            &&& old.freq_bucket_hz != key.freq_bucket_hz
            &&& table_marked(t, key, now, dedupe).has(old)
            &&& t.has(old)
            &&& table_marked(t, key, now, dedupe).state(old) == t.state(old)
        },
{
    let marked = table_marked(t, key, now, dedupe);
    let state = emitted_state(t.state(key), now);
    lemma_with_state(t, key, state);
    lemma_emitted_of_props(marked.emitted, station_of(key));
    if key_left(t, key, now, dedupe) is Some {
        let old = key_left(t, key, now, dedupe)->0;
        assert(marked.has(old));
        assert(t.with_state(key, state).has(old) == t.has(old));
        assert(station_of(old) == station_of(key));
    }
}

/// When a station moves, the spot it left is withdrawn right before the new
/// one is emitted, and is gone from the table afterwards.
pub proof fn lemma_qsy(t: TableModel, key: KeyModel, now: int, dedupe: DedupeConfig)
    requires
        t.wf(),
        t.has(key),
        key_left(t, key, now, dedupe) is Some,
    ensures
        ({
            let old = key_left(t, key, now, dedupe)->0;
            &&& events_emitting(t, key, now, dedupe) == seq![
                spot_event(t.state(old).spot, SpotEventKind::Withdraw, t.state(old).revision),
                spot_event(t.state(key).spot, SpotEventKind::New, t.state(key).revision),
            ]
            &&& !table_emitting(t, key, now, dedupe).has(old)
            &&& table_emitting(t, key, now, dedupe).emitted_for(station_of(key)) == Some(key)
        }),
{
    let marked = table_marked(t, key, now, dedupe);
    let old = key_left(t, key, now, dedupe)->0;
    lemma_left(t, key, now, dedupe);
    lemma_with_state(t, key, emitted_state(t.state(key), now));
    assert(t.with_state(key, emitted_state(t.state(key), now)).has(key) == t.has(key));
    lemma_row_of_props(marked.rows, old);
    lemma_without_row(marked, row_of(marked.rows, old) as int);
    assert(marked.without(old).has(key) == marked.has(key));
    lemma_with_emission(marked.without(old), key);
}

/// Without QSY detection no spot is withdrawn for a move.
pub proof fn lemma_qsy_off(t: TableModel, key: KeyModel, now: int, dedupe: DedupeConfig)
    requires
        !dedupe.detect_qsy,
    ensures
        key_left(t, key, now, dedupe) is None,
        events_emitting(t, key, now, dedupe).len() <= 1,
{
}

/// An update comes no sooner after the last emission than the cooldown asks.
pub proof fn lemma_cooldown(t: TableModel, key: KeyModel, now: int, dedupe: DedupeConfig)
    requires
        emission(t.state(key), now, dedupe) == Some(SpotEventKind::Update),
        dedupe.min_update_interval is Some,
        t.state(key).last_emitted_at is Some,
    ensures
        now - t.state(key).last_emitted_at->0 >= (dedupe.min_update_interval->0)@,
{
}

/// Processing keeps the aggregator consistent.
pub proof fn lemma_processed_wf(m: AggregatorModel, obs: IncomingModel, l: LookupsModel)
    requires
        m.wf(),
    ensures
        m.processed(obs, l).wf(),
{
    let input = input_for(m.config, obs);
    lemma_ingested(m.table, input);
    let ingested = m.table.ingested(input);
    lemma_with_state(ingested, input.key, m.spot_after(obs, l));
    let ready = m.table_ready(obs, l);
    assert(ready.has(input.key) == ingested.has(input.key));
    lemma_emitting(ready, input.key, obs.received_at, m.config.dedupe);
    if m.engine is Some {
        lemma_recorded(
            m.engine->0,
            input.key.dx_call_norm,
            ObsModel {
                freq_hz: obs.parsed.freq_hz,
                skimmer_call: spotter_for(m.config, obs.parsed),
                timestamp: obs.received_at,
            },
        );
        lemma_tagged(
            m.recorded(obs),
            input.key.dx_call_norm,
            obs.parsed.freq_hz,
            obs.received_at,
        );
    }
}

/// The revision of a spot event is that of the spot after the observation: one
/// more than before for a known spot, one for a new spot.
pub proof fn lemma_revision_of_event(m: AggregatorModel, obs: IncomingModel, l: LookupsModel)
    requires
        m.wf(),
    ensures
        ({
            let key = key_for(m.config, obs.parsed);
            let after = m.spot_after(obs, l).revision;
            &&& !m.table.has(key) ==> after == 1
            &&& m.table.has(key) && m.table.state(key).revision < u32::MAX ==> after
                == m.table.state(key).revision + 1
        }),
{
    lemma_ingested(m.table, input_for(m.config, obs));
}

/// Under the default filter, the first report of a spot between 1.8 and 54 MHz
/// is emitted as `New`, with revision one, unless gating blocks it.
pub proof fn lemma_first_report_emits_new(
    m: AggregatorModel,
    c: FilterConfigSerde,
    obs: IncomingModel,
    l: LookupsModel,
)
    requires
        m.wf(),
        m.gate_passes(obs),
        c.is_default(),
        m.filter.compiled_from(c),
        !m.table.has(key_for(m.config, obs.parsed)),
        1_800_000 <= obs.parsed.freq_hz <= 54_000_000,
    ensures
        m.events(obs, l).len() > 0,
        m.events(obs, l).last() == spot_event(m.spot_after(obs, l).spot, SpotEventKind::New, 1),
{
    let input = input_for(m.config, obs);
    lemma_ingested(m.table, input);
    let state = m.spot_after(obs, l);
    let view = view_for(
        state,
        spotter_for(m.config, obs.parsed),
        obs.source_id,
        obs.originator_kind,
        fields_for(obs),
        obs.received_at,
        m.filter.correlation.window@,
    );
    let fresh = fresh_state(input);
    assert(state.originators == fresh.originators && state.sources == fresh.sources);
    assert(fresh.originators.len() == 1 && fresh.sources.len() == 1);
    let seen = fresh.spot.observations;
    assert(seen.drop_last() =~= Seq::empty());
    assert(count_within(seen.drop_last(), obs.received_at, m.filter.correlation.window@) == 0);
    assert(count_within(seen, obs.received_at, m.filter.correlation.window@) == 1);
    lemma_default_allows(view, c, m.filter);
    lemma_first_pass_is_new(m, obs, l);
}

/// After maintenance no spot is left that has outlived its time, and no spot
/// that has not is gone.
pub proof fn lemma_tick_leaves_fresh(m: AggregatorModel, now: int, row: RowModel)
    requires
        m.wf(),
    ensures
        m.table.evicted(now).rows.contains(row) <==> m.table.rows.contains(row) && !stale(
            row,
            now,
            m.config.spot_ttl@,
        ),
{
    super::spot_table::lemma_evicted(m.table, now);
}

} // verus!
