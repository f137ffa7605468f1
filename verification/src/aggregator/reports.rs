//! What becomes of a report: what is kept of it, and what the filter sees.

use crate::callsign::normalized;
use crate::domain::{Continent, DxMode, ModePolicy, OriginatorKind};
use crate::filter::compiled::FilterConfig;
use crate::filter::evaluate::hits_of;
use crate::filter::laws::{
    counts_pass, field_passes, flag_passes, lemma_allowed_iff, memberships_pass, radio_passes,
    report_passes, set_passes, whole_ranges,
};
use crate::freq::{band_at, lemma_bucket_of_mode, mode_at};
use crate::model::{GeoModel, ObservationModel, SkimQualityTag, SpotEventKind, ViewModel};
use crate::parser::spot::{ParsedSpotModel, RbnFields};
use crate::resolver::enrichment::EnrichmentResolver;
use crate::resolver::entity::{EntityModel, EntityResolver};
use crate::skimmer::config::SkimmerQualityConfig;
use crate::skimmer::laws::lemma_records;
use crate::skimmer::quality::ObsModel;
use vstd::prelude::*;

use super::pipeline::{
    count_within, emission, fields_for, input_for, key_for, spot_event, spotter_for, view_for,
    with_lookups, Aggregator, AggregatorConfig, AggregatorModel, DedupeConfig,
    EnrichmentLookupModel, EntityLookupModel, IncomingModel, LookupsModel,
};
use super::spot_table::{
    lemma_evicted, lemma_ingested, lemma_with_state, with_recent, RowModel, StateModel, TableModel,
};

verus! {

// ---------------------------------------------------------------------------
// What the filter sees
// ---------------------------------------------------------------------------

/// What the filter sees of a report.
pub open spec fn report_view(
    m: AggregatorModel,
    obs: IncomingModel,
    l: LookupsModel,
) -> ViewModel {
    view_for(
        m.spot_after(obs, l),
        spotter_for(m.config, obs.parsed),
        obs.source_id,
        obs.originator_kind,
        fields_for(obs),
        obs.received_at,
        m.filter.correlation.window@,
    )
}

/// The place that the filter is given is that of the entity: its continent,
/// zones and name.
pub open spec fn place_is(geo: GeoModel, entity: Option<EntityModel>) -> bool {
    match entity {
        Some(e) => {
            &&& geo.continent == Some(e.continent)
            &&& geo.cq_zone == Some(e.cq_zone)
            &&& geo.itu_zone == Some(e.itu_zone)
            &&& geo.entity == Some(e.entity_name)
            &&& geo.country is None
            &&& geo.state is None
            &&& geo.grid is None
        },
        None => {
            &&& geo.continent is None
            &&& geo.cq_zone is None
            &&& geo.itu_zone is None
            &&& geo.entity is None
            &&& geo.country is None
            &&& geo.state is None
            &&& geo.grid is None
        },
    }
}

/// The filter sees the DX station in the place of the DX station's entity and
/// the spotter in that of the spotter's, whatever the other is.
pub proof fn lemma_places_seen(
    state: StateModel,
    spotter: Seq<char>,
    source: Seq<char>,
    kind: OriginatorKind,
    fields: RbnFields,
    now: int,
    window: int,
)
    ensures
        place_is(
            view_for(state, spotter, source, kind, fields, now, window).dx_geo,
            state.dx_entity,
        ),
        place_is(
            view_for(state, spotter, source, kind, fields, now, window).spotter_geo,
            state.spotter_entity,
        ),
{
}

/// What else the filter sees: the report's own spotter, source, kind and
/// skimmer fields, and the spot's frequency, band, mode, call, comment, times
/// and enrichment data.
pub proof fn lemma_report_seen(
    state: StateModel,
    spotter: Seq<char>,
    source: Seq<char>,
    kind: OriginatorKind,
    fields: RbnFields,
    now: int,
    window: int,
)
    ensures
        ({
            let v = view_for(state, spotter, source, kind, fields, now, window);
            &&& v.now == now
            &&& v.last_seen == state.spot.last_seen
            &&& v.freq_hz == state.spot.freq_hz
            &&& v.band == state.spot.band
            &&& v.mode == state.spot.mode
            &&& v.dx_call_norm == state.spot.spot_key.dx_call_norm
            &&& v.comment == state.spot.comment
            &&& v.spotter_call_norm == Some(spotter)
            &&& v.spotter_source_id == Some(source)
            &&& v.originator_kind == kind
            &&& v.snr_db == fields.snr_db
            &&& v.wpm == fields.wpm
            &&& v.is_skimmer_cq == fields.is_cq
            &&& !v.is_skimmer_dupe
            &&& v.lotw == state.lotw
            &&& v.in_master_db == state.in_master_db
            &&& v.in_callbook == state.in_callbook
            &&& v.memberships == state.memberships
        }),
{
}

/// The counts that the filter sees, up to 255: all originators, the human ones
/// among them, the sources, and the observations kept that were made within the
/// window.
pub proof fn lemma_counts_seen(
    state: StateModel,
    spotter: Seq<char>,
    source: Seq<char>,
    kind: OriginatorKind,
    fields: RbnFields,
    now: int,
    window: int,
)
    ensures
        ({
            let v = view_for(state, spotter, source, kind, fields, now, window);
            let recent = state.spot.observations.filter(
                |o: ObservationModel| o.obs_time >= now - window,
            ).len();
            let up_to_255 = |n: nat| if n < 255 { n } else { 255 };
            &&& v.unique_originators == up_to_255(state.originators.len())
            &&& v.unique_human_originators == up_to_255(state.humans.len())
            &&& v.unique_sources == up_to_255(state.sources.len())
            &&& v.total_observations_in_window == up_to_255(recent)
            &&& v.repeats_same_key_in_window == up_to_255(recent)
        }),
{
    lemma_count_within(state.spot.observations, now, window);
}

/// The observations within the window are those made no longer than it before.
pub proof fn lemma_count_within(list: Seq<ObservationModel>, now: int, window: int)
    ensures
        count_within(list, now, window) == list.filter(
            |o: ObservationModel| o.obs_time >= now - window,
        ).len(),
    decreases list.len(),
{
    reveal(Seq::filter);
    if list.len() > 0 {
        lemma_count_within(list.drop_last(), now, window);
    }
}

/// A report that the filter lets through was made by a spotter in a place that
/// the rules for spotters accept, of a station in one that those for DX
/// stations accept.
pub proof fn lemma_places_filtered(m: AggregatorModel, obs: IncomingModel, l: LookupsModel)
    requires
        m.wf(),
        whole_ranges(m.filter),
        m.filter_passes(obs, l),
    ensures
        ({
            let geo = m.filter.geo;
            let policy = m.filter.unknown_policy;
            let dx = m.spot_after(obs, l).dx_entity;
            &&& l.entity matches Some(e) ==> match e.spotter {
                Some(info) => {
                    &&& set_passes(
                        info.continent,
                        geo.spotter.continent_deny@,
                        geo.spotter.continent_allow@,
                    )
                    &&& set_passes(
                        info.cq_zone,
                        geo.spotter.cq_zone_deny@,
                        geo.spotter.cq_zone_allow@,
                    )
                    &&& set_passes(
                        info.itu_zone,
                        geo.spotter.itu_zone_deny@,
                        geo.spotter.itu_zone_allow@,
                    )
                    &&& set_passes(
                        info.entity_name,
                        geo.spotter.entity_deny@,
                        geo.spotter.entity_allow@,
                    )
                },
                None => field_passes(
                    None::<Continent>,
                    geo.spotter.continent_deny@,
                    geo.spotter.continent_allow@,
                    policy,
                ),
            }
            &&& dx matches Some(info) ==> {
                &&& set_passes(info.continent, geo.dx.continent_deny@, geo.dx.continent_allow@)
                &&& set_passes(info.cq_zone, geo.dx.cq_zone_deny@, geo.dx.cq_zone_allow@)
                &&& set_passes(info.itu_zone, geo.dx.itu_zone_deny@, geo.dx.itu_zone_allow@)
                &&& set_passes(info.entity_name, geo.dx.entity_deny@, geo.dx.entity_allow@)
            }
        }),
{
    let view = report_view(m, obs, l);
    lemma_allowed_iff(view, m.filter, hits_of(view, m.filter));
    lemma_ingested(m.table, input_for(m.config, obs));
}

/// With rules on the spotter's place alone, where the DX station is does not
/// matter: two lookups that agree on the spotter are filtered alike.
pub proof fn lemma_spotter_rules_alone(
    m: AggregatorModel,
    obs: IncomingModel,
    a: LookupsModel,
    b: LookupsModel,
)
    requires
        m.wf(),
        whole_ranges(m.filter),
        !m.filter.geo.dx.any_rule(),
        !m.filter.geo.require_resolvers,
        a.enrichment == b.enrichment,
        a.entity is Some,
        b.entity is Some,
        (a.entity->0).spotter == (b.entity->0).spotter,
    ensures
        m.filter_passes(obs, a) == m.filter_passes(obs, b),
{
    let va = report_view(m, obs, a);
    let vb = report_view(m, obs, b);
    lemma_allowed_iff(va, m.filter, hits_of(va, m.filter));
    lemma_allowed_iff(vb, m.filter, hits_of(vb, m.filter));
    lemma_ingested(m.table, input_for(m.config, obs));
    assert(vb == (ViewModel { dx_geo: vb.dx_geo, ..va }));
}

/// With a continent allowlist for spotters as the only rule on places, and every
/// other rule met, a report by a spotter whose entity is known passes exactly
/// when the spotter's continent is on the list.
pub proof fn lemma_spotter_continent_decides(
    m: AggregatorModel,
    obs: IncomingModel,
    l: LookupsModel,
    spotter: EntityModel,
)
    requires
        m.wf(),
        whole_ranges(m.filter),
        l.entity matches Some(e) && e.spotter == Some(spotter),
        ({
            let v = report_view(m, obs, l);
            let cfg = m.filter;
            &&& radio_passes(v, cfg)
            &&& report_passes(v, cfg, hits_of(v, cfg))
            &&& counts_pass(v, cfg)
            &&& flag_passes(v.lotw, cfg.enrichment.lotw, cfg.unknown_policy)
            &&& flag_passes(v.in_master_db, cfg.enrichment.in_master_db, cfg.unknown_policy)
            &&& flag_passes(v.in_callbook, cfg.enrichment.in_callbook, cfg.unknown_policy)
            &&& memberships_pass(v.memberships, cfg.enrichment.membership@, cfg.unknown_policy)
        }),
        !m.filter.geo.require_resolvers,
        !m.filter.geo.dx.any_rule(),
        m.filter.geo.spotter.continent_allow@ != Set::<Continent>::empty(),
        ({
            let f = m.filter.geo.spotter;
            &&& f.continent_deny@ == Set::<Continent>::empty()
            &&& f.cq_zone_allow@ == Set::<u8>::empty()
            &&& f.cq_zone_deny@ == Set::<u8>::empty()
            &&& f.itu_zone_allow@ == Set::<u8>::empty()
            &&& f.itu_zone_deny@ == Set::<u8>::empty()
            &&& f.entity_allow@ == Set::<Seq<char>>::empty()
            &&& f.entity_deny@ == Set::<Seq<char>>::empty()
            &&& f.country_allow@ == Set::<Seq<char>>::empty()
            &&& f.country_deny@ == Set::<Seq<char>>::empty()
            &&& f.state_allow@ == Set::<Seq<char>>::empty()
            &&& f.state_deny@ == Set::<Seq<char>>::empty()
            &&& f.grid_allow.no_patterns()
            &&& f.grid_deny.no_patterns()
        }),
    ensures
        m.filter_passes(obs, l) <==> m.filter.geo.spotter.continent_allow@.contains(
            spotter.continent,
        ),
{
    let view = report_view(m, obs, l);
    lemma_allowed_iff(view, m.filter, hits_of(view, m.filter));
    lemma_ingested(m.table, input_for(m.config, obs));
}

// ---------------------------------------------------------------------------
// What is kept
// ---------------------------------------------------------------------------

/// The spot that a report belongs to: the normalized call, the band of the
/// frequency, the mode that the policy infers, and the bucket of that mode.
pub proof fn lemma_key_fields(config: AggregatorConfig, parsed: ParsedSpotModel)
    ensures
        ({
            let key = key_for(config, parsed);
            let w = config.freq_bucket;
            let width = if key.mode == DxMode::CW {
                w.cw_bucket_hz
            } else if key.mode == DxMode::DIG {
                w.dig_bucket_hz
            } else {
                w.ssb_bucket_hz
            };
            &&& key.dx_call_norm == normalized(
                parsed.dx_call,
                config.callsign_norm,
            )
            &&& key.band == band_at(parsed.freq_hz)
            &&& config.mode_policy == ModePolicy::TrustUpstream ==> key.mode == DxMode::Unknown
            &&& config.mode_policy != ModePolicy::TrustUpstream ==> key.mode == mode_at(
                parsed.freq_hz,
            )
            &&& width == 0 ==> key.freq_bucket_hz == parsed.freq_hz
            &&& width > 0 ==> key.freq_bucket_hz <= parsed.freq_hz && parsed.freq_hz
                - key.freq_bucket_hz < width && key.freq_bucket_hz % width == 0
        }),
{
    let w = config.freq_bucket;
    let key = key_for(config, parsed);
    lemma_bucket_of_mode(
        parsed.freq_hz,
        key.mode,
        w.cw_bucket_hz,
        w.ssb_bucket_hz,
        w.dig_bucket_hz,
    );
}

/// The observation that a report leaves: its source, its normalized spotter and
/// the spotter's kind, its metrics, and when it was received.
pub open spec fn observation_is(
    o: ObservationModel,
    m: AggregatorModel,
    obs: IncomingModel,
) -> bool {
    &&& o.source == obs.source_id
    &&& o.originator == normalized(
        obs.parsed.spotter_call,
        m.config.callsign_norm,
    )
    &&& o.originator_kind == obs.originator_kind
    &&& o.obs_time == obs.received_at
    &&& match obs.skimmer_fields {
        Some(f) => o.snr_db == f.snr_db && o.wpm == f.wpm,
        None => o.snr_db is None && o.wpm is None,
    }
}

/// What the first report of a spot makes of it.
pub proof fn lemma_first_report_kept(m: AggregatorModel, obs: IncomingModel, l: LookupsModel)
    requires
        m.wf(),
        !m.table.has(key_for(m.config, obs.parsed)),
    ensures
        ({
            let key = key_for(m.config, obs.parsed);
            let s = m.spot_after(obs, l);
            let spotter = normalized(
                obs.parsed.spotter_call,
                m.config.callsign_norm,
            );
            &&& s.spot.spot_key == key
            &&& s.spot.dx_call == obs.parsed.dx_call
            &&& s.spot.freq_hz == obs.parsed.freq_hz
            &&& s.spot.band == key.band
            &&& s.spot.mode == key.mode
            &&& s.spot.first_seen == obs.received_at
            &&& s.spot.last_seen == obs.received_at
            &&& s.spot.comment == obs.parsed.comment
            &&& s.spot.observations.len() == 1
            &&& observation_is(s.spot.observations[0], m, obs)
            &&& s.spot.unique_originators == 1
            &&& s.spot.unique_sources == 1
            &&& s.originators == Set::<Seq<char>>::empty().insert(spotter)
            &&& s.humans == if obs.originator_kind == OriginatorKind::Human {
                Set::<Seq<char>>::empty().insert(spotter)
            } else {
                Set::empty()
            }
            &&& s.sources == Set::<Seq<char>>::empty().insert(obs.source_id)
            &&& s.revision == 1
            &&& !s.first_emitted
        }),
{
    lemma_ingested(m.table, input_for(m.config, obs));
}

/// What a further report makes of a spot: it is seen again, on the frequency of
/// the report and with its comment if it has one; its originator and source
/// join those before; and when it was first seen, how it is written, and when
/// it was emitted stay as they were.
pub proof fn lemma_further_report_kept(m: AggregatorModel, obs: IncomingModel, l: LookupsModel)
    requires
        m.wf(),
        m.table.has(key_for(m.config, obs.parsed)),
    ensures
        ({
            let old = m.table.state(key_for(m.config, obs.parsed));
            let s = m.spot_after(obs, l);
            let spotter = normalized(
                obs.parsed.spotter_call,
                m.config.callsign_norm,
            );
            let up_to_255 = |n: nat| if n < 255 { n } else { 255 };
            &&& s.spot.spot_key == old.spot.spot_key
            &&& s.spot.dx_call == old.spot.dx_call
            &&& s.spot.band == old.spot.band
            &&& s.spot.mode == old.spot.mode
            &&& s.spot.first_seen == old.spot.first_seen
            &&& s.spot.last_seen == obs.received_at
            &&& s.spot.freq_hz == obs.parsed.freq_hz
            &&& obs.parsed.comment is Some ==> s.spot.comment == obs.parsed.comment
            &&& obs.parsed.comment is None ==> s.spot.comment == old.spot.comment
            &&& s.originators == old.originators.insert(spotter)
            &&& s.sources == old.sources.insert(obs.source_id)
            &&& s.humans == if obs.originator_kind == OriginatorKind::Human {
                old.humans.insert(spotter)
            } else {
                old.humans
            }
            &&& s.spot.unique_originators == up_to_255(s.originators.len())
            &&& s.spot.unique_sources == up_to_255(s.sources.len())
            &&& m.config.max_observations_per_spot > 0 ==> observation_is(
                s.spot.observations.last(),
                m,
                obs,
            )
            &&& s.first_emitted == old.first_emitted
            &&& s.last_emitted_at == old.last_emitted_at
            &&& s.last_emitted_revision == old.last_emitted_revision
        }),
{
    lemma_ingested(m.table, input_for(m.config, obs));
    let old = m.table.state(key_for(m.config, obs.parsed));
    let o = input_for(m.config, obs).observation;
    let all = old.spot.observations.push(o);
    assert(all.last() == o);
    if all.len() > m.config.max_observations_per_spot && m.config.max_observations_per_spot > 0 {
        assert(all.skip(1).last() == o);
    }
}

/// The observations kept are the latest ones, in order: all of them below the
/// cap, and without the oldest beyond it.
pub proof fn lemma_latest_kept(list: Seq<ObservationModel>, obs: ObservationModel, cap: usize)
    ensures
        list.len() < cap ==> with_recent(list, obs, cap) == list.push(obs),
        list.len() >= cap ==> with_recent(list, obs, cap).len() == list.len() && forall|i: int|
            0 <= i < list.len() ==> #[trigger] with_recent(list, obs, cap)[i] == if i + 1
                < list.len() {
                list[i + 1]
            } else {
                obs
            },
{
}

/// What is looked up is kept: the DX station's entity and enrichment data once
/// they are known, the spotter's entity as of the last report, and nothing
/// where there is no resolver.
pub proof fn lemma_lookups_kept(
    state: StateModel,
    entity: EntityLookupModel,
    data: EnrichmentLookupModel,
)
    ensures
        ({
            let both = LookupsModel { entity: Some(entity), enrichment: Some(data) };
            let none = LookupsModel { entity: None, enrichment: None };
            let s = with_lookups(state, both);
            &&& state.dx_entity is Some ==> s.dx_entity == state.dx_entity
            &&& state.dx_entity is None ==> s.dx_entity == entity.dx
            &&& s.spotter_entity == entity.spotter
            &&& state.lotw is Some ==> s.lotw == state.lotw && s.in_master_db
                == state.in_master_db && s.in_callbook == state.in_callbook && s.memberships
                == state.memberships
            &&& state.lotw is None ==> s.lotw == data.lotw && s.in_master_db == data.in_master_db
                && s.in_callbook == data.in_callbook && s.memberships == data.memberships
            &&& s.spot == state.spot
            &&& s.revision == state.revision
            &&& with_lookups(state, none) == state
            &&& ({
                let places = LookupsModel { entity: Some(entity), enrichment: None };
                let e = with_lookups(state, places);
                &&& e.lotw == state.lotw && e.memberships == state.memberships
                &&& e.dx_entity == s.dx_entity && e.spotter_entity == s.spotter_entity
            })
            &&& ({
                let d = with_lookups(state, LookupsModel { entity: None, enrichment: Some(data) });
                &&& d.dx_entity == state.dx_entity && d.spotter_entity == state.spotter_entity
                &&& d.lotw == s.lotw && d.in_master_db == s.in_master_db
                &&& d.in_callbook == s.in_callbook && d.memberships == s.memberships
            })
        }),
{
}

// ---------------------------------------------------------------------------
// When something happens
// ---------------------------------------------------------------------------

/// What a spot that passed is emitted as: `New` if it has never been emitted,
/// else `Update` exactly where updates are on, it has been observed since, and
/// the interval since the last emission has gone by.
pub proof fn lemma_emission_kinds(state: StateModel, now: int, dedupe: DedupeConfig)
    ensures
        emission(state, now, dedupe) == Some(SpotEventKind::New) <==> !state.first_emitted,
        emission(state, now, dedupe) == Some(SpotEventKind::Update) <==> {
            &&& state.first_emitted
            &&& dedupe.emit_updates
            &&& state.revision > state.last_emitted_revision
            &&& dedupe.min_update_interval is Some && state.last_emitted_at is Some ==> now
                >= state.last_emitted_at->0 + (dedupe.min_update_interval->0)@
        },
        emission(state, now, dedupe) != Some(SpotEventKind::Withdraw),
{
}

/// Maintenance removes exactly the spots last seen more than the time to live
/// before it.
pub proof fn lemma_time_to_live(t: TableModel, now: int, row: RowModel)
    requires
        t.wf(),
    ensures
        t.evicted(now).rows.contains(row) <==> t.rows.contains(row) && row.state.spot.last_seen
            >= now - t.config.ttl@,
        t.evicted(now).config == t.config,
{
    lemma_evicted(t, now);
}

/// The tag that a report leaves on its spot: that of a skimmer's report where
/// there is an engine, and the one it had otherwise.
pub proof fn lemma_tag_kept(m: AggregatorModel, obs: IncomingModel, l: LookupsModel)
    requires
        m.wf(),
    ensures
        ({
            let key = key_for(m.config, obs.parsed);
            let tag = m.spot_after(obs, l).spot.skim_quality;
            if m.engine is Some && obs.originator_kind == OriginatorKind::Skimmer {
                tag == Some(
                    m.recorded(obs).tag(key.dx_call_norm, obs.parsed.freq_hz, obs.received_at),
                )
            } else if m.table.has(key) {
                tag == m.table.state(key).spot.skim_quality
            } else {
                tag is None
            }
        }),
{
    lemma_ingested(m.table, input_for(m.config, obs));
}

/// What the quality engine learns of a report: a skimmer's is recorded for its
/// call, with its frequency, its spotter and its time, before it is tagged; any
/// other leaves the engine as it is.
pub proof fn lemma_engine_learns(m: AggregatorModel, obs: IncomingModel)
    requires
        m.engine is Some,
        (m.engine->0).total() < (m.engine->0).config.max_tracked_observations,
    ensures
        ({
            let call = key_for(m.config, obs.parsed).dx_call_norm;
            let seen = ObsModel {
                freq_hz: obs.parsed.freq_hz,
                skimmer_call: normalized(obs.parsed.spotter_call, m.config.callsign_norm),
                timestamp: obs.received_at,
            };
            let before = m.engine->0;
            &&& obs.originator_kind != OriginatorKind::Skimmer ==> m.engine_after(obs) == m.engine
            &&& obs.originator_kind == OriginatorKind::Skimmer ==> m.engine_after(obs) is Some && (
            m.engine_after(obs)->0).observations_of(call) == before.observations_of(call).push(seen)
        }),
{
    let call = key_for(m.config, obs.parsed).dx_call_norm;
    let seen = ObsModel {
        freq_hz: obs.parsed.freq_hz,
        skimmer_call: normalized(obs.parsed.spotter_call, m.config.callsign_norm),
        timestamp: obs.received_at,
    };
    assert(call.push(' ').len() != call.len());
    lemma_records(m.engine->0, call, seen, call.push(' '));
}

/// When gating lets a report through: always without an engine, while gating is
/// off, or for a human where it is for skimmers only; else by the switch of its
/// tag, which is `Unknown` for what is not a skimmer's.
pub proof fn lemma_gate_passes(m: AggregatorModel, obs: IncomingModel)
    ensures
        m.gate_passes(obs) <==> match m.engine {
            None => true,
            Some(e) => {
                let tag = if obs.originator_kind == OriginatorKind::Skimmer {
                    m.recorded(obs).tag(
                        key_for(m.config, obs.parsed).dx_call_norm,
                        obs.parsed.freq_hz,
                        obs.received_at,
                    )
                } else {
                    SkimQualityTag::Unknown
                };
                ||| !e.config.enabled
                ||| !e.config.gate_skimmer_output
                ||| e.config.apply_only_to_skimmer && obs.originator_kind
                    != OriginatorKind::Skimmer
                ||| tag == SkimQualityTag::Valid && e.config.allow_valid
                ||| tag == SkimQualityTag::Qsy && e.config.allow_qsy
                ||| tag == SkimQualityTag::Unknown && e.config.allow_unknown
                ||| tag == SkimQualityTag::Busted && e.config.allow_busted
            },
        },
{
}

/// What a change at runtime leaves alone: the spots and what was emitted always,
/// the filter unless it is changed, the settings unless they are, and what the
/// engine has seen as long as there is one.
pub proof fn lemma_changes(
    m: AggregatorModel,
    filter: FilterConfig,
    config: AggregatorConfig,
    quality: SkimmerQualityConfig,
)
    ensures
        m.with_filter(filter).filter == filter,
        m.with_filter(filter).table == m.table,
        m.with_filter(filter).config == m.config,
        m.with_filter(filter).engine == m.engine,
        m.with_config(config).config == config,
        m.with_config(config).table.rows == m.table.rows,
        m.with_config(config).table.emitted == m.table.emitted,
        m.with_config(config).table.config.ttl == config.spot_ttl,
        m.with_config(config).table.config.max_spots == config.max_spots,
        m.with_config(config).table.config.max_observations_per_spot
            == config.max_observations_per_spot,
        m.with_config(config).filter == m.filter,
        m.with_config(config).engine == m.engine,
        m.with_skimmer(None).engine is None,
        m.with_skimmer(Some(quality)).table == m.table,
        m.with_skimmer(Some(quality)).filter == m.filter,
        m.with_skimmer(Some(quality)).config == m.config,
        m.engine matches Some(e) ==> (m.with_skimmer(Some(quality)).engine matches Some(after)
            && after.config == quality && after.observations == e.observations && after.verified
            == e.verified),
        m.engine is None && quality.enabled ==> (m.with_skimmer(Some(quality)).engine matches Some(
            after,
        ) && after.config == quality && after.observations.len() == 0 && after.verified.len() == 0),
        m.engine is None && !quality.enabled ==> m.with_skimmer(Some(quality)).engine is None,
{
}

/// Whom the resolvers are asked about: the entity resolver about the DX station
/// of a report under its normalized call, while its entity is not known, and
/// about the spotter under the spotter's; the enrichment resolver about the DX
/// station alone.
pub proof fn lemma_asked(a: &Aggregator, obs: IncomingModel, l: LookupsModel)
    requires
        a.lookups_fit(obs, l),
    ensures
        ({
            let dx = normalized(obs.parsed.dx_call, a@.config.callsign_norm);
            let spotter = normalized(obs.parsed.spotter_call, a@.config.callsign_norm);
            let key = key_for(a@.config, obs.parsed);
            let fresh = !a@.table.has(key);
            &&& a.entities() is Some <==> l.entity is Some
            &&& a.enrichment() is Some <==> l.enrichment is Some
            &&& a.entities() matches Some(r) ==> {
                &&& r.may_answer(spotter, (l.entity->0).spotter)
                &&& fresh || a@.table.state(key).dx_entity is None ==> r.may_answer(
                    dx,
                    (l.entity->0).dx,
                )
            }
            &&& a.enrichment() matches Some(r) ==> (fresh || a@.table.state(key).lotw is None ==> {
                &&& r.may_answer_lotw(dx, (l.enrichment->0).lotw)
                &&& r.may_answer_master_db(dx, (l.enrichment->0).in_master_db)
                &&& r.may_answer_callbook(dx, (l.enrichment->0).in_callbook)
                &&& r.may_answer_memberships(dx, (l.enrichment->0).memberships)
            })
        }),
{
}

/// The events of an observation that passes end with its own spot as it now is,
/// where anything is emitted for it, and begin with the spots it displaced.
pub proof fn lemma_own_event_last(m: AggregatorModel, obs: IncomingModel, l: LookupsModel)
    requires
        m.wf(),
        m.passes(obs, l),
    ensures
        ({
            let s = m.spot_after(obs, l);
            let out = m.events(obs, l);
            let gone = m.table.displaced(input_for(m.config, obs));
            &&& out.len() >= gone.len()
            &&& forall|i: int|
                0 <= i < gone.len() ==> #[trigger] out[i] == spot_event(
                    gone[i].0,
                    SpotEventKind::Withdraw,
                    gone[i].1,
                )
            &&& emission(s, obs.received_at, m.config.dedupe) matches Some(kind) ==> out.len()
                > gone.len() && out.last() == spot_event(s.spot, kind, s.revision)
            &&& emission(s, obs.received_at, m.config.dedupe) is None ==> out.len() == gone.len()
        }),
{
    let input = input_for(m.config, obs);
    lemma_ingested(m.table, input);
    lemma_with_state(m.table.ingested(input), input.key, m.spot_after(obs, l));
}

} // verus!
