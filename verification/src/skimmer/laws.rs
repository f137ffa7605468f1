//! What the quality engine counts, tags and forgets, in terms of frequencies
//! and times.

use crate::domain::OriginatorKind;
use crate::model::SkimQualityTag;
use crate::skimmer::config::SkimmerQualityConfig;
use crate::skimmer::distance::edit_distance;
use vstd::prelude::*;
use vstd::utf8::encode_utf8;

use super::quality::{
    corroborators, entry_of, fresh_entries, fresh_obs, fresh_verified, gate_open,
    lemma_confused_with, lemma_entry_of, lemma_entry_of_props, lemma_expiry_keeps_fresh,
    lemma_oldest_in_range, lemma_verified_at, lemma_verified_at_props, oldest_entry, total_of,
    verified_at, with_room, EngineModel, EntryModel, ObsModel, VerifiedModel,
};

verus! {

// ---------------------------------------------------------------------------
// Corroboration
// ---------------------------------------------------------------------------

/// An observation lies within the windows of a report: no more than `window`
/// above or below its frequency, and no more than `span` before its time.
pub open spec fn in_windows(
    obs: ObsModel,
    freq_hz: u64,
    now: int,
    window: int,
    span: int,
) -> bool {
    &&& freq_hz - window <= obs.freq_hz
    &&& obs.freq_hz <= freq_hz + window
    &&& obs.timestamp >= now - span
}

/// The skimmers that corroborate a report are those of the observations within
/// the frequency window on both sides and the lookback window, and no others.
pub proof fn lemma_corroborators(
    list: Seq<ObsModel>,
    freq_hz: u64,
    now: int,
    config: SkimmerQualityConfig,
    skimmer: Seq<char>,
)
    ensures
        corroborators(list, freq_hz, now, config).contains(skimmer) <==> exists|i: int|
            0 <= i < list.len() && (#[trigger] list[i]).skimmer_call == skimmer && in_windows(
                list[i],
                freq_hz,
                now,
                config.valid_freq_window_hz as int,
                config.lookback_window@,
            ),
    decreases list.len(),
{
    let window = config.valid_freq_window_hz as int;
    let span = config.lookback_window@;
    if list.len() > 0 {
        let init = list.drop_last();
        lemma_corroborators(init, freq_hz, now, config, skimmer);
        if exists|i: int|
            0 <= i < init.len() && (#[trigger] init[i]).skimmer_call == skimmer && in_windows(
                init[i],
                freq_hz,
                now,
                window,
                span,
            ) {
            let i = choose|i: int|
                0 <= i < init.len() && (#[trigger] init[i]).skimmer_call == skimmer && in_windows(
                    init[i],
                    freq_hz,
                    now,
                    window,
                    span,
                );
            assert(list[i] == init[i]);
        }
        if exists|i: int|
            0 <= i < list.len() && (#[trigger] list[i]).skimmer_call == skimmer && in_windows(
                list[i],
                freq_hz,
                now,
                window,
                span,
            ) {
            let i = choose|i: int|
                0 <= i < list.len() && (#[trigger] list[i]).skimmer_call == skimmer && in_windows(
                    list[i],
                    freq_hz,
                    now,
                    window,
                    span,
                );
            if i < init.len() {
                assert(init[i] == list[i]);
            }
        }
        assert(list[list.len() - 1] == list.last());
    }
}

/// An observation more than the window above or below a report, or before the
/// lookback window, adds nothing to what corroborates it; any other adds its
/// skimmer.
pub proof fn lemma_one_more_observation(
    list: Seq<ObsModel>,
    obs: ObsModel,
    freq_hz: u64,
    now: int,
    config: SkimmerQualityConfig,
)
    ensures
        ({
            let before = corroborators(list, freq_hz, now, config);
            let after = corroborators(list.push(obs), freq_hz, now, config);
            let window = config.valid_freq_window_hz as int;
            if obs.freq_hz > freq_hz + window || obs.freq_hz < freq_hz - window || now
                - obs.timestamp > config.lookback_window@ {
                after == before
            } else {
                after == before.insert(obs.skimmer_call)
            }
        }),
{
    assert(list.push(obs).drop_last() =~= list);
}

/// How many skimmers corroborate a call rests on the observations of that call
/// alone.
pub proof fn lemma_support_is_own(
    m: EngineModel,
    other: EngineModel,
    call: Seq<char>,
    freq_hz: u64,
    now: int,
)
    requires
        m.config == other.config,
        m.observations_of(call) == other.observations_of(call),
    ensures
        m.support(call, freq_hz, now) == other.support(call, freq_hz, now),
        m.config.compute_valid ==> m.support(call, freq_hz, now) == corroborators(
            m.observations_of(call),
            freq_hz,
            now,
            m.config,
        ).len(),
        !m.config.compute_valid ==> m.support(call, freq_hz, now) == 0,
{
}

// ---------------------------------------------------------------------------
// Tags
// ---------------------------------------------------------------------------

/// The call was verified on a frequency that lies further from `freq_hz`, above
/// or below, than the QSY window.
pub open spec fn has_moved(m: EngineModel, call: Seq<char>, freq_hz: u64) -> bool {
    m.config.compute_qsy && (m.verified_freq(call) matches Some(v) && (freq_hz > v
        + m.config.qsy_freq_window_hz || freq_hz < v - m.config.qsy_freq_window_hz))
}

/// Enough skimmers corroborate the report.
pub open spec fn has_support(m: EngineModel, call: Seq<char>, freq_hz: u64, now: int) -> bool {
    m.config.compute_valid && m.support(call, freq_hz, now)
        >= m.config.valid_required_distinct_skimmers
}

/// Another verified call lies within the window above and below, and differs in
/// no more single-byte edits than allowed.
pub open spec fn has_lookalike(m: EngineModel, call: Seq<char>, freq_hz: u64) -> bool {
    exists|k: int|
        0 <= k < m.verified.len() && (#[trigger] m.verified[k]).call != call
            && m.verified[k].last_freq_hz <= freq_hz + m.config.busted_freq_window_hz
            && m.verified[k].last_freq_hz >= freq_hz - m.config.busted_freq_window_hz
            && edit_distance(encode_utf8(call), encode_utf8(m.verified[k].call))
            <= m.config.similar_call_max_edit_distance
}

/// When a report gets which tag.
pub proof fn lemma_tags(m: EngineModel, call: Seq<char>, freq_hz: u64, now: int)
    ensures
        ({
            let tag = m.tag(call, freq_hz, now);
            let enough = has_support(m, call, freq_hz, now);
            let moved = has_moved(m, call, freq_hz);
            let busted = m.config.compute_busted && has_lookalike(m, call, freq_hz);
            &&& tag == SkimQualityTag::Valid <==> enough && !moved
            &&& tag == SkimQualityTag::Qsy <==> enough && moved
            &&& tag == SkimQualityTag::Busted <==> !enough && busted
            &&& tag == SkimQualityTag::Unknown <==> !enough && !busted
        }),
{
    lemma_confused_with(m, call, freq_hz, 0);
    let k = m.confused_with(call, freq_hz, 0);
    if k < m.verified.len() {
        assert(m.verified[k].call != call);
    }
    if has_lookalike(m, call, freq_hz) {
        let q = choose|q: int|
            0 <= q < m.verified.len() && (#[trigger] m.verified[q]).call != call
                && m.verified[q].last_freq_hz <= freq_hz + m.config.busted_freq_window_hz
                && m.verified[q].last_freq_hz >= freq_hz - m.config.busted_freq_window_hz
                && edit_distance(encode_utf8(call), encode_utf8(m.verified[q].call))
                <= m.config.similar_call_max_edit_distance;
        assert(m.confusable(q, call, freq_hz));
    }
}

/// The details that go with a tag: how many skimmers corroborate the report, up
/// to 255, the frequency that a moved call was verified on, and the verified
/// call that a busted one resembles, with the distance to it.
pub proof fn lemma_details(m: EngineModel, call: Seq<char>, freq_hz: u64, now: int)
    ensures
        ({
            let tag = m.tag(call, freq_hz, now);
            let detail = m.detail(call, freq_hz, now);
            let n = m.support(call, freq_hz, now);
            &&& detail.corroborating_skimmers == if n < 255 { n } else { 255 }
            &&& detail.previous_freq_hz == if tag == SkimQualityTag::Qsy {
                m.verified_freq(call)
            } else {
                None
            }
            &&& detail.similar_call is Some <==> tag == SkimQualityTag::Busted
            &&& detail.edit_distance is Some <==> tag == SkimQualityTag::Busted
            &&& tag == SkimQualityTag::Busted ==> detail.edit_distance->0 == edit_distance(
                encode_utf8(call),
                encode_utf8(detail.similar_call->0),
            )
        }),
{
    lemma_confused_with(m, call, freq_hz, 0);
}

/// What tagging leaves behind: a corroborated call is verified where it was
/// reported, any other is as it was, and so is every other call.
pub proof fn lemma_verifies(
    m: EngineModel,
    call: Seq<char>,
    freq_hz: u64,
    now: int,
    other: Seq<char>,
)
    requires
        other != call,
    ensures
        ({
            let after = m.tagged(call, freq_hz, now);
            &&& after.verified_freq(call) == if has_support(m, call, freq_hz, now) {
                Some(freq_hz)
            } else {
                m.verified_freq(call)
            }
            &&& after.verified_freq(other) == m.verified_freq(other)
            &&& after.observations == m.observations
            &&& after.config == m.config
        }),
{
    let after = m.tagged(call, freq_hz, now);
    lemma_verified_at_props(m.verified, call);
    lemma_verified_at_props(m.verified, other);
    let k = verified_at(m.verified, call) as int;
    let q = verified_at(m.verified, other) as int;
    if has_support(m, call, freq_hz, now) {
        assert forall|i: int| 0 <= i < k implies (#[trigger] after.verified[i]).call != call by {
            assert(after.verified[i] == m.verified[i]);
        }
        lemma_verified_at(after.verified, call, k);
        assert forall|i: int| 0 <= i < q implies (#[trigger] after.verified[i]).call != other by {
            assert(m.verified[i].call != other);
        }
        if q < m.verified.len() {
            assert(after.verified[q] == m.verified[q]);
            lemma_verified_at(after.verified, other, q);
        } else {
            lemma_verified_at(after.verified, other, after.verified.len() as int);
        }
    }
}

// ---------------------------------------------------------------------------
// Recording
// ---------------------------------------------------------------------------

/// Below the cap an observation is added behind those of its call, and those of
/// every other call are as they were.
pub proof fn lemma_records(
    m: EngineModel,
    call: Seq<char>,
    obs: ObsModel,
    other: Seq<char>,
)
    requires
        m.total() < m.config.max_tracked_observations,
        other != call,
    ensures
        m.recorded(call, obs).observations_of(call) == m.observations_of(call).push(obs),
        m.recorded(call, obs).observations_of(other) == m.observations_of(other),
        m.recorded(call, obs).verified == m.verified,
{
    let all = m.observations;
    let after = m.recorded(call, obs).observations;
    lemma_entry_of_props(all, call);
    lemma_entry_of_props(all, other);
    let k = entry_of(all, call) as int;
    let q = entry_of(all, other) as int;
    assert forall|i: int| 0 <= i < k implies (#[trigger] after[i]).call != call by {
        assert(after[i] == all[i]);
    }
    lemma_entry_of(after, call, k);
    assert forall|i: int| 0 <= i < q implies (#[trigger] after[i]).call != other by {
        assert(all[i].call != other);
    }
    if q < all.len() {
        assert(after[q] == all[q]);
        lemma_entry_of(after, other, q);
    } else {
        lemma_entry_of(after, other, after.len() as int);
    }
    assert(m.recorded(call, obs).observations_of(call) =~= m.observations_of(call).push(obs));
}

/// No entry was begun before the oldest one.
proof fn lemma_oldest(entries: Seq<EntryModel>)
    requires
        entries.len() > 0,
    ensures
        0 <= oldest_entry(entries) < entries.len(),
        forall|i: int|
            0 <= i < entries.len() ==> entries[oldest_entry(entries)].list[0].timestamp <= (
            #[trigger] entries[i]).list[0].timestamp,
    decreases entries.len(),
{
    lemma_oldest_in_range(entries);
    if entries.len() > 1 {
        let init = entries.drop_last();
        lemma_oldest(init);
        let k = oldest_entry(init);
        assert(entries[k] == init[k]);
        assert forall|i: int| 0 <= i < entries.len() implies entries[oldest_entry(
            entries,
        )].list[0].timestamp <= (#[trigger] entries[i]).list[0].timestamp by {
            if i < init.len() {
                assert(init[i] == entries[i]);
            }
        }
    }
}

/// At the cap the call whose first observation is the oldest is forgotten, and
/// no other is; below the cap none is.
pub proof fn lemma_makes_room(entries: Seq<EntryModel>, cap: usize)
    ensures
        total_of(entries) < cap ==> with_room(entries, cap) == entries,
        total_of(entries) >= cap && entries.len() > 0 ==> exists|k: int|
            0 <= k < entries.len() && with_room(entries, cap) == #[trigger] entries.remove(k)
                && forall|i: int|
                0 <= i < entries.len() ==> entries[k].list[0].timestamp <= (
                #[trigger] entries[i]).list[0].timestamp,
{
    if entries.len() > 0 {
        lemma_oldest(entries);
        let k = oldest_entry(entries);
        if total_of(entries) >= cap {
            assert(with_room(entries, cap) == entries.remove(k));
        }
    }
}

// ---------------------------------------------------------------------------
// Forgetting
// ---------------------------------------------------------------------------

/// The observations that are left after maintenance are those made no longer
/// than the lookback window before it.
pub proof fn lemma_observations_left(list: Seq<ObsModel>, now: int, span: int, obs: ObsModel)
    ensures
        fresh_obs(list, now, span).contains(obs) <==> list.contains(obs) && obs.timestamp >= now
            - span,
{
    lemma_expiry_keeps_fresh(list, now, span, obs);
}

/// The verified calls that are left after maintenance are those verified no
/// longer than twice the lookback window before it.
pub proof fn lemma_verified_left(m: EngineModel, now: int, v: VerifiedModel)
    ensures
        m.expired(now).verified.contains(v) <==> m.verified.contains(v) && v.last_verified >= now
            - 2 * m.config.lookback_window@,
        m.expired(now).config == m.config,
{
    lemma_fresh_verified_contains(m.verified, now, 2 * m.config.lookback_window@, v);
}

proof fn lemma_fresh_verified_contains(
    list: Seq<VerifiedModel>,
    now: int,
    span: int,
    v: VerifiedModel,
)
    ensures
        fresh_verified(list, now, span).contains(v) <==> list.contains(v) && v.last_verified >= now
            - span,
    decreases list.len(),
{
    if list.len() > 0 {
        let init = list.drop_last();
        lemma_fresh_verified_contains(init, now, span, v);
        let rest = fresh_verified(init, now, span);
        let all = fresh_verified(list, now, span);
        assert(list[list.len() - 1] == list.last());
        if list.contains(v) {
            let k = choose|k: int| 0 <= k < list.len() && list[k] == v;
            if k < init.len() {
                assert(init[k] == v);
            }
        }
        if init.contains(v) {
            let k = choose|k: int| 0 <= k < init.len() && init[k] == v;
            assert(list[k] == v);
        }
        if rest.contains(v) {
            let k = choose|k: int| 0 <= k < rest.len() && rest[k] == v;
            assert(all[k] == v);
        }
        if all.contains(v) {
            let k = choose|k: int| 0 <= k < all.len() && all[k] == v;
            if k < rest.len() {
                assert(rest[k] == v);
            }
        }
        if list.last().last_verified >= now - span {
            assert(all.last() == list.last());
            assert(all[all.len() - 1] == list.last());
        }
    }
}

/// The observations of a call among entries.
spec fn list_of(entries: Seq<EntryModel>, call: Seq<char>) -> Seq<ObsModel> {
    let k = entry_of(entries, call) as int;
    if k < entries.len() {
        entries[k].list
    } else {
        Seq::empty()
    }
}

/// An entry more at the end matters to its own call alone.
proof fn lemma_list_of_push(entries: Seq<EntryModel>, e: EntryModel, call: Seq<char>)
    ensures
        list_of(entries.push(e), call) == if entry_of(entries, call) < entries.len() {
            list_of(entries, call)
        } else if e.call == call {
            e.list
        } else {
            Seq::empty()
        },
{
    let all = entries.push(e);
    lemma_entry_of_props(entries, call);
    let k = entry_of(entries, call) as int;
    assert forall|i: int| 0 <= i < k implies (#[trigger] all[i]).call != call by {
        assert(all[i] == entries[i]);
    }
    if k < entries.len() {
        assert(all[k] == entries[k]);
        lemma_entry_of(all, call, k);
    } else if e.call == call {
        lemma_entry_of(all, call, k);
    } else {
        lemma_entry_of(all, call, k + 1);
    }
}

/// Calls that are not among the entries are not among the fresh ones.
proof fn lemma_fresh_entries_of(entries: Seq<EntryModel>, now: int, span: int, call: Seq<char>)
    requires
        forall|i: int, j: int|
            #![trigger entries[i], entries[j]]
            0 <= i < j < entries.len() ==> entries[i].call != entries[j].call,
    ensures
        list_of(fresh_entries(entries, now, span), call) == fresh_obs(
            list_of(entries, call),
            now,
            span,
        ),
        entry_of(entries, call) >= entries.len() ==> entry_of(
            fresh_entries(entries, now, span),
            call,
        ) >= fresh_entries(entries, now, span).len(),
    decreases entries.len(),
{
    if entries.len() > 0 {
        let init = entries.drop_last();
        let last = entries.last();
        let before = fresh_entries(init, now, span);
        let kept = fresh_obs(last.list, now, span);
        let e = EntryModel { call: last.call, list: kept };
        assert(init.push(last) =~= entries);
        lemma_fresh_entries_of(init, now, span, call);
        lemma_list_of_push(init, last, call);
        lemma_list_of_push(before, e, call);
        lemma_entry_of_props(init, call);
        lemma_entry_of_props(entries, call);
        lemma_entry_of_props(before, call);
        lemma_entry_of_props(fresh_entries(entries, now, span), call);
        if last.call == call {
            // No entry before the last one is of this call
            let q = entry_of(init, call) as int;
            if q < init.len() {
                assert(entries[q].call != entries[entries.len() - 1].call);
            }
            lemma_entry_of(entries, call, init.len() as int);
            assert(list_of(init, call) =~= Seq::empty());
            assert(list_of(before, call) =~= Seq::empty());
            assert(entries[init.len() as int] == last);
        } else {
            assert(list_of(entries, call) == list_of(init, call));
            if entry_of(entries, call) >= entries.len() {
                if entry_of(init, call) < init.len() {
                    lemma_entry_of(entries, call, entry_of(init, call) as int);
                }
                assert(entry_of(before, call) >= before.len());
                lemma_entry_of(before.push(e), call, before.len() as int + 1);
            }
            if entry_of(before, call) < before.len() {
                assert(entry_of(init, call) < init.len());
            } else {
                assert(list_of(before, call) =~= Seq::empty());
            }
        }
    }
}

/// After maintenance the observations of a call are those made no longer than
/// the lookback window before, in order.
pub proof fn lemma_maintenance(m: EngineModel, now: int, call: Seq<char>, obs: ObsModel)
    requires
        m.wf(),
    ensures
        m.expired(now).observations_of(call).contains(obs) <==> m.observations_of(call).contains(
            obs,
        ) && obs.timestamp >= now - m.config.lookback_window@,
{
    let span = m.config.lookback_window@;
    lemma_fresh_entries_of(m.observations, now, span, call);
    lemma_observations_left(m.observations_of(call), now, span, obs);
    assert(m.observations_of(call) == list_of(m.observations, call));
    assert(m.expired(now).observations_of(call) == list_of(m.expired(now).observations, call));
}

// ---------------------------------------------------------------------------
// Gating
// ---------------------------------------------------------------------------

/// Which reports get past gating: each tag by its own switch, for skimmers and,
/// where gating is not for them alone, for all.
pub proof fn lemma_gate(config: SkimmerQualityConfig, kind: OriginatorKind)
    requires
        config.enabled,
        config.gate_skimmer_output,
        kind == OriginatorKind::Skimmer || !config.apply_only_to_skimmer,
    ensures
        gate_open(config, SkimQualityTag::Valid, kind) == config.allow_valid,
        gate_open(config, SkimQualityTag::Qsy, kind) == config.allow_qsy,
        gate_open(config, SkimQualityTag::Unknown, kind) == config.allow_unknown,
        gate_open(config, SkimQualityTag::Busted, kind) == config.allow_busted,
{
}

} // verus!
