//! The lifecycle of spots over a whole run of the aggregator.
//!
//! Seen from outside, a spot is first told as `New`, then any number of times
//! as `Update`, each time with a larger revision, until it is withdrawn; after
//! that it may be told as `New` again. Filter and settings may change on the way.

use crate::filter::compiled::FilterConfig;
use crate::model::{EventModel, KeyModel, SpotEventKind, SpotModel};
use crate::skimmer::config::SkimmerQualityConfig;
use crate::skimmer::quality::lemma_expired_wf;
use vstd::prelude::*;

use super::laws::{lemma_left, lemma_processed_wf};
use super::pipeline::{
    emission, emitted_state, events_emitting, input_for, key_for, key_left, spot_event,
    table_emitting, withdrawals, AggregatorConfig, AggregatorModel, DedupeConfig, IncomingModel,
    LookupsModel,
};
use super::spot_table::{
    lemma_evicted, lemma_ingested, lemma_oldest_row, lemma_row_of, lemma_row_of_props,
    lemma_with_room, lemma_with_state, lemma_without_row, leaving, oldest_row, row_of, stale,
    stale_spots, RowModel, StateModel, TableModel,
};

verus! {

// ---------------------------------------------------------------------------
// Runs
// ---------------------------------------------------------------------------

/// One step of a run: an observation with what the resolvers say of it,
/// maintenance at a point in time, or a change of filter or settings.
pub enum Step {
    Observe(IncomingModel, LookupsModel),
    Tick(int),
    Filter(FilterConfig),
    Config(AggregatorConfig),
    Skimmer(Option<SkimmerQualityConfig>),
}

/// The aggregator after a step.
pub open spec fn after_step(m: AggregatorModel, step: Step) -> AggregatorModel {
    match step {
        Step::Observe(obs, l) => m.processed(obs, l),
        Step::Tick(now) => m.ticked(now),
        Step::Filter(filter) => m.with_filter(filter),
        Step::Config(config) => m.with_config(config),
        Step::Skimmer(config) => m.with_skimmer(config),
    }
}

/// The events of a step.
pub open spec fn step_events(m: AggregatorModel, step: Step) -> Seq<EventModel> {
    match step {
        Step::Observe(obs, l) => m.events(obs, l),
        Step::Tick(now) => m.tick_events(now),
        _ => seq![],
    }
}

/// The aggregator after a run.
pub open spec fn after_run(m: AggregatorModel, steps: Seq<Step>) -> AggregatorModel
    decreases steps.len(),
{
    if steps.len() == 0 {
        m
    } else {
        after_step(after_run(m, steps.drop_last()), steps.last())
    }
}

/// The events of a run.
pub open spec fn run_events(m: AggregatorModel, steps: Seq<Step>) -> Seq<EventModel>
    decreases steps.len(),
{
    if steps.len() == 0 {
        seq![]
    } else {
        run_events(m, steps.drop_last()) + step_events(
            after_run(m, steps.drop_last()),
            steps.last(),
        )
    }
}

// ---------------------------------------------------------------------------
// What a consumer knows
// ---------------------------------------------------------------------------

/// What a consumer knows of a spot.
pub enum Known {
    /// Never told, or withdrawn since.
    Nothing,
    /// Told last with this revision, as seen at this time.
    Told { revision: u32, at: int },
}

/// What a consumer of the events knows of the spot of `key`.
pub open spec fn known(events: Seq<EventModel>, key: KeyModel) -> Known
    decreases events.len(),
{
    if events.len() == 0 {
        Known::Nothing
    } else {
        match events.last() {
            EventModel::Spot(e) => if e.spot.spot_key != key {
                known(events.drop_last(), key)
            } else if e.kind == SpotEventKind::Withdraw {
                Known::Nothing
            } else {
                Known::Told { revision: e.revision, at: e.spot.last_seen }
            },
            _ => known(events.drop_last(), key),
        }
    }
}

/// An event makes sense to a consumer of the events before it: `New` of a spot
/// that is not known, `Update` of one that is, with a larger revision, and
/// `Withdraw` with a revision that is not smaller.
pub open spec fn follows(before: Seq<EventModel>, event: EventModel) -> bool {
    match event {
        EventModel::Spot(e) => match e.kind {
            SpotEventKind::New => known(before, e.spot.spot_key) == Known::Nothing,
            SpotEventKind::Update => known(before, e.spot.spot_key) matches Known::Told {
                revision,
                ..
            } && e.revision > revision,
            SpotEventKind::Withdraw => known(before, e.spot.spot_key) matches Known::Told {
                revision,
                ..
            } ==> e.revision >= revision,
        },
        _ => true,
    }
}

/// Every event makes sense to a consumer of the events before it.
pub open spec fn orderly(events: Seq<EventModel>) -> bool {
    forall|i: int| 0 <= i < events.len() ==> follows(events.take(i), #[trigger] events[i])
}

/// What the table says a consumer knows of the spot of `key`.
pub open spec fn told(t: TableModel, key: KeyModel) -> Known {
    if t.has(key) && t.state(key).first_emitted {
        Known::Told {
            revision: t.state(key).last_emitted_revision,
            at: t.state(key).last_emitted_at->0,
        }
    } else {
        Known::Nothing
    }
}

/// The table and the consumer agree on every spot.
pub open spec fn agree(t: TableModel, events: Seq<EventModel>) -> bool {
    forall|key: KeyModel| #[trigger] told(t, key) == known(events, key)
}

/// The row holds the spot of its key, and has a time and no later revision of
/// its last emission, if there was one.
pub open spec fn row_sound(row: RowModel) -> bool {
    &&& row.state.spot.spot_key == row.key
    &&& row.state.first_emitted ==> row.state.last_emitted_at is Some
        && row.state.last_emitted_revision <= row.state.revision
}

/// Every row is sound.
pub open spec fn sound(t: TableModel) -> bool {
    forall|i: int| 0 <= i < t.rows.len() ==> row_sound(#[trigger] t.rows[i])
}

// ---------------------------------------------------------------------------
// The law
// ---------------------------------------------------------------------------

/// Over every run that starts with an empty table, events are orderly: `New`
/// before `Update`, revisions that grow, and no second `New` without a
/// `Withdraw` in between. At any time the table knows exactly which spots a
/// consumer knows, and with which revision.
pub proof fn lemma_lifecycle(m: AggregatorModel, steps: Seq<Step>)
    requires
        m.wf(),
        m.table.rows.len() == 0,
    ensures
        orderly(run_events(m, steps)),
        agree(after_run(m, steps).table, run_events(m, steps)),
        after_run(m, steps).wf(),
        sound(after_run(m, steps).table),
    decreases steps.len(),
{
    if steps.len() > 0 {
        let init = steps.drop_last();
        lemma_lifecycle(m, init);
        lemma_step(after_run(m, init), run_events(m, init), steps.last());
    } else {
        assert forall|key: KeyModel| #[trigger] told(m.table, key) == known(seq![], key) by {}
    }
}

/// A step keeps events orderly and the table in agreement with the consumer.
pub proof fn lemma_step(m: AggregatorModel, events: Seq<EventModel>, step: Step)
    requires
        m.wf(),
        sound(m.table),
        agree(m.table, events),
        orderly(events),
    ensures
        after_step(m, step).wf(),
        sound(after_step(m, step).table),
        agree(after_step(m, step).table, events + step_events(m, step)),
        orderly(events + step_events(m, step)),
{
    match step {
        Step::Observe(obs, l) => {
            lemma_processed_wf(m, obs, l);
            lemma_observe(m, events, obs, l);
        },
        Step::Tick(now) => {
            lemma_evicted(m.table, now);
            if m.engine is Some {
                lemma_expired_wf(m.engine->0, now);
            }
            lemma_tick(m.table, events, now);
        },
        _ => {
            let after = after_step(m, step);
            assert(after.table.rows == m.table.rows);
            assert(after.table.emitted == m.table.emitted);
            assert forall|i: int| 0 <= i < after.table.emitted.len() implies after.table.has(
                #[trigger] after.table.emitted[i],
            ) by {
                assert(m.table.has(m.table.emitted[i]));
            }
            assert(events + step_events(m, step) =~= events);
            assert forall|key: KeyModel| #[trigger] told(after.table, key) == known(
                events,
                key,
            ) by {
                assert(told(m.table, key) == known(events, key));
            }
        },
    }
}

/// Appending an event that makes sense.
proof fn lemma_append(events: Seq<EventModel>, event: EventModel)
    requires
        orderly(events),
        follows(events, event),
    ensures
        orderly(events.push(event)),
        forall|key: KeyModel| #[trigger]
            known(events.push(event), key) == (match event {
                EventModel::Spot(e) => if e.spot.spot_key != key {
                    known(events, key)
                } else if e.kind == SpotEventKind::Withdraw {
                    Known::Nothing
                } else {
                    Known::Told { revision: e.revision, at: e.spot.last_seen }
                },
                _ => known(events, key),
            }),
{
    let all = events.push(event);
    assert(all.drop_last() =~= events);
    assert forall|i: int| 0 <= i < all.len() implies follows(all.take(i), #[trigger] all[i]) by {
        if i < events.len() {
            assert(all.take(i) =~= events.take(i));
            assert(all[i] == events[i]);
        } else {
            assert(all.take(i) =~= events);
        }
    }
}

// ---------------------------------------------------------------------------
// Removing rows
// ---------------------------------------------------------------------------

/// The withdrawal of a spot that leaves.
spec fn withdrawal(left: (SpotModel, u32)) -> EventModel {
    spot_event(left.0, SpotEventKind::Withdraw, left.1)
}

/// A row holds the state of its key.
pub proof fn lemma_own_row(t: TableModel, i: int)
    requires
        t.wf(),
        0 <= i < t.rows.len(),
    ensures
        t.has(t.rows[i].key),
        t.state(t.rows[i].key) == t.rows[i].state,
{
    let key = t.rows[i].key;
    assert forall|k: int| 0 <= k < i implies (#[trigger] t.rows[k]).key != key by {
        assert(t.rows[k].key != t.rows[i].key);
    }
    lemma_row_of(t.rows, key, i);
}

/// Removing a row and withdrawing its spot.
proof fn lemma_row_leaves(t: TableModel, events: Seq<EventModel>, i: int)
    requires
        t.wf(),
        sound(t),
        0 <= i < t.rows.len(),
        agree(t, events),
        orderly(events),
    ensures
        t.without_row(i).wf(),
        sound(t.without_row(i)),
        agree(t.without_row(i), events.push(withdrawal(leaving(t.rows[i])))),
        orderly(events.push(withdrawal(leaving(t.rows[i])))),
{
    let after = t.without_row(i);
    let event = withdrawal(leaving(t.rows[i]));
    let gone = t.rows[i].key;
    lemma_without_row(t, i);
    lemma_own_row(t, i);
    assert(row_sound(t.rows[i]));
    assert(told(t, gone) == known(events, gone));
    lemma_append(events, event);
    assert forall|k: int| 0 <= k < after.rows.len() implies row_sound(
        #[trigger] after.rows[k],
    ) by {
        let k2 = if k < i { k } else { k + 1 };
        assert(after.rows[k] == t.rows[k2]);
    }
    assert forall|key: KeyModel| #[trigger] told(after, key) == known(
        events.push(event),
        key,
    ) by {
        if key != gone {
            assert(after.has(key) == t.has(key));
            if t.has(key) {
                assert(after.state(key) == t.state(key));
            }
            assert(told(after, key) == told(t, key));
            assert(told(t, key) == known(events, key));
        }
    }
}

/// Making room and withdrawing what leaves.
proof fn lemma_room(t: TableModel, events: Seq<EventModel>)
    requires
        t.wf(),
        sound(t),
        agree(t, events),
        orderly(events),
    ensures
        t.with_room().wf(),
        sound(t.with_room()),
        agree(t.with_room(), events + withdrawals(t.room_made())),
        orderly(events + withdrawals(t.room_made())),
    decreases t.rows.len(),
{
    if t.rows.len() > 0 && t.rows.len() >= t.config.max_spots {
        lemma_oldest_row(t.rows);
        let k = oldest_row(t.rows);
        lemma_row_leaves(t, events, k);
        let next = t.without_row(k);
        let first = withdrawal(leaving(t.rows[k]));
        lemma_room(next, events.push(first));
        assert(events + withdrawals(t.room_made()) =~= events.push(first) + withdrawals(
            next.room_made(),
        )) by {
            let all = t.room_made();
            assert(all == seq![leaving(t.rows[k])] + next.room_made());
            assert(withdrawals(all) =~= seq![first] + withdrawals(next.room_made()));
        }
    } else {
        assert(events + withdrawals(t.room_made()) =~= events);
    }
}

/// Maintenance.
proof fn lemma_tick(t: TableModel, events: Seq<EventModel>, now: int)
    requires
        t.wf(),
        sound(t),
        agree(t, events),
        orderly(events),
    ensures
        sound(t.evicted(now)),
        agree(t.evicted(now), events + withdrawals(stale_spots(t.rows, now, t.config.ttl@))),
        orderly(events + withdrawals(stale_spots(t.rows, now, t.config.ttl@))),
{
    let ttl = t.config.ttl@;
    let after = t.evicted(now);
    lemma_evicted(t, now);
    assert forall|i: int| 0 <= i < t.rows.len() implies (known(events, (#[trigger] t.rows[i]).key)
        matches Known::Told { revision, .. } ==> t.rows[i].state.revision >= revision) by {
        lemma_own_row(t, i);
        assert(told(t, t.rows[i].key) == known(events, t.rows[i].key));
        assert(row_sound(t.rows[i]));
    }
    lemma_stale_told(t.rows, events, now, ttl);
    assert forall|k: int| 0 <= k < after.rows.len() implies row_sound(
        #[trigger] after.rows[k],
    ) by {
        assert(after.rows.contains(after.rows[k]));
        assert(t.rows.contains(after.rows[k]));
        let q = choose|q: int| 0 <= q < t.rows.len() && t.rows[q] == after.rows[k];
        assert(row_sound(t.rows[q]));
    }
    let all = events + withdrawals(stale_spots(t.rows, now, ttl));
    assert forall|key: KeyModel| #[trigger] told(after, key) == known(all, key) by {
        assert(told(t, key) == known(events, key));
        lemma_row_of_props(t.rows, key);
        lemma_row_of_props(after.rows, key);
        let k = row_of(t.rows, key) as int;
        let j = row_of(after.rows, key) as int;
        if j < after.rows.len() {
            assert(after.rows.contains(after.rows[j]));
            let q = choose|q: int| 0 <= q < t.rows.len() && t.rows[q] == after.rows[j];
            if q < k {
                assert(t.rows[q].key != key);
            } else if q > k {
                assert(t.rows[k].key != t.rows[q].key);
            }
            assert(q == k);
            assert(!stale(t.rows[k], now, ttl));
            assert(!stale_key(t.rows, key, now, ttl)) by {
                assert forall|p: int|
                    0 <= p < t.rows.len() && (#[trigger] t.rows[p]).key == key implies !stale(
                    t.rows[p],
                    now,
                    ttl,
                ) by {
                    if p < k {
                        assert(t.rows[p].key != t.rows[k].key);
                    } else if p > k {
                        assert(t.rows[k].key != t.rows[p].key);
                    }
                }
            }
        } else if k < t.rows.len() {
            if !stale(t.rows[k], now, ttl) {
                assert(t.rows.contains(t.rows[k]));
                assert(after.rows.contains(t.rows[k]));
                let q = choose|q: int| 0 <= q < after.rows.len() && after.rows[q] == t.rows[k];
                assert(after.rows[q].key != key);
            }
            assert(stale_key(t.rows, key, now, ttl));
        } else {
            assert(!stale_key(t.rows, key, now, ttl)) by {
                assert forall|p: int| 0 <= p < t.rows.len() implies (#[trigger] t.rows[p]).key
                    != key by {}
            }
        }
    }
}

/// The spot of `key` is among the stale rows.
spec fn stale_key(rows: Seq<RowModel>, key: KeyModel, now: int, ttl: int) -> bool {
    exists|p: int|
        0 <= p < rows.len() && (#[trigger] rows[p]).key == key && stale(rows[p], now, ttl)
}

/// Withdrawing the stale rows: the consumer forgets exactly them.
proof fn lemma_stale_told(rows: Seq<RowModel>, events: Seq<EventModel>, now: int, ttl: int)
    requires
        orderly(events),
        forall|i: int| 0 <= i < rows.len() ==> row_sound(#[trigger] rows[i]),
        forall|i: int|
            0 <= i < rows.len() ==> (known(events, (#[trigger] rows[i]).key) matches Known::Told {
                revision,
                ..
            } ==> rows[i].state.revision >= revision),
    ensures
        orderly(events + withdrawals(stale_spots(rows, now, ttl))),
        forall|key: KeyModel| #[trigger]
            known(events + withdrawals(stale_spots(rows, now, ttl)), key) == (if stale_key(
                rows,
                key,
                now,
                ttl,
            ) {
                Known::Nothing
            } else {
                known(events, key)
            }),
    decreases rows.len(),
{
    let all = events + withdrawals(stale_spots(rows, now, ttl));
    if rows.len() == 0 {
        assert(all =~= events);
    } else {
        let init = rows.drop_last();
        let last = rows.last();
        assert forall|i: int| 0 <= i < init.len() implies row_sound(#[trigger] init[i]) by {
            assert(init[i] == rows[i]);
        }
        lemma_stale_told(init, events, now, ttl);
        let before = events + withdrawals(stale_spots(init, now, ttl));
        let event = withdrawal(leaving(last));
        lemma_append(before, event);
        assert(rows[rows.len() - 1] == last);
        assert(row_sound(last));
        if stale(last, now, ttl) {
            assert(withdrawals(stale_spots(rows, now, ttl)) =~= withdrawals(
                stale_spots(init, now, ttl),
            ).push(event));
            assert(all =~= before.push(event));
        } else {
            assert(all =~= before);
        }
        assert forall|key: KeyModel| #[trigger] known(all, key) == (if stale_key(
            rows,
            key,
            now,
            ttl,
        ) {
            Known::Nothing
        } else {
            known(events, key)
        }) by {
            assert(known(before, key) == (if stale_key(init, key, now, ttl) {
                Known::Nothing
            } else {
                known(events, key)
            }));
            if stale_key(init, key, now, ttl) {
                let p = choose|p: int|
                    0 <= p < init.len() && (#[trigger] init[p]).key == key && stale(
                        init[p],
                        now,
                        ttl,
                    );
                assert(rows[p] == init[p]);
                assert(stale_key(rows, key, now, ttl));
            }
            if stale_key(rows, key, now, ttl) {
                let p = choose|p: int|
                    0 <= p < rows.len() && (#[trigger] rows[p]).key == key && stale(
                        rows[p],
                        now,
                        ttl,
                    );
                if p < init.len() {
                    assert(init[p] == rows[p]);
                    assert(stale_key(init, key, now, ttl));
                }
            }
            assert(known(before.push(event), key) == (if last.key != key {
                known(before, key)
            } else {
                Known::Nothing
            }));
        }
    }
}

// ---------------------------------------------------------------------------
// Observing
// ---------------------------------------------------------------------------

/// Replacing the state of a spot by one that is known alike.
proof fn lemma_quiet_change(
    t: TableModel,
    events: Seq<EventModel>,
    key: KeyModel,
    state: StateModel,
)
    requires
        t.wf(),
        sound(t),
        t.has(key),
        agree(t, events),
        state.spot.spot_key == key,
        state.first_emitted == t.state(key).first_emitted,
        state.last_emitted_revision == t.state(key).last_emitted_revision,
        state.last_emitted_at == t.state(key).last_emitted_at,
        state.revision >= t.state(key).revision,
    ensures
        t.with_state(key, state).wf(),
        sound(t.with_state(key, state)),
        t.with_state(key, state).has(key),
        t.with_state(key, state).state(key) == state,
        agree(t.with_state(key, state), events),
{
    let after = t.with_state(key, state);
    lemma_with_state(t, key, state);
    lemma_row_of_props(t.rows, key);
    assert(after.has(key) == t.has(key));
    assert forall|k: int| 0 <= k < after.rows.len() implies row_sound(
        #[trigger] after.rows[k],
    ) by {
        if k != row_of(t.rows, key) {
            assert(after.rows[k] == t.rows[k]);
        }
    }
    assert forall|k: KeyModel| #[trigger] told(after, k) == known(events, k) by {
        assert(told(t, k) == known(events, k));
        assert(after.has(k) == t.has(k));
        if k != key && t.has(k) {
            assert(after.state(k) == t.state(k));
        }
    }
}

/// An observation goes into the table.
proof fn lemma_ingest(
    m: AggregatorModel,
    events: Seq<EventModel>,
    obs: IncomingModel,
    l: LookupsModel,
)
    requires
        m.wf(),
        sound(m.table),
        agree(m.table, events),
        orderly(events),
    ensures
        ({
            let ready = m.table_ready(obs, l);
            let all = events + withdrawals(m.table.displaced(input_for(m.config, obs)));
            &&& ready.wf()
            &&& sound(ready)
            &&& ready.has(key_for(m.config, obs.parsed))
            &&& ready.state(key_for(m.config, obs.parsed)) == m.spot_after(obs, l)
            &&& m.spot_after(obs, l).spot.last_seen == obs.received_at
            &&& agree(ready, all)
            &&& orderly(all)
        }),
{
    let input = input_for(m.config, obs);
    let key = input.key;
    let t = m.table;
    let t1 = t.ingested(input);
    let all = events + withdrawals(t.displaced(input));
    lemma_ingested(t, input);
    lemma_row_of_props(t.rows, key);
    if t.has(key) {
        assert(all =~= events);
        let state = t1.state(key);
        assert(row_sound(t.rows[row_of(t.rows, key) as int]));
        lemma_quiet_change(t, events, key, state);
    } else {
        lemma_room(t, events);
        lemma_with_room(t);
        let room = t.with_room();
        assert(!room.has(key));
        lemma_row_of_props(room.rows, key);
        assert forall|k: int| 0 <= k < t1.rows.len() implies row_sound(
        #[trigger] t1.rows[k],
    ) by {
            if k < room.rows.len() {
                assert(t1.rows[k] == room.rows[k]);
            }
        }
        assert forall|k: KeyModel| #[trigger] told(t1, k) == known(all, k) by {
            assert(told(room, k) == known(all, k));
            lemma_row_of_props(room.rows, k);
            let p = row_of(room.rows, k) as int;
            if k != key {
                assert forall|q: int| 0 <= q < p implies (#[trigger] t1.rows[q]).key != k by {
                    assert(t1.rows[q] == room.rows[q]);
                }
                if p < room.rows.len() {
                    assert(t1.rows[p] == room.rows[p]);
                    lemma_row_of(t1.rows, k, p);
                } else {
                    assert(t1.rows[p].key != k);
                    assert forall|q: int| 0 <= q < p + 1 implies (#[trigger] t1.rows[q]).key
                        != k by {
                        if q < p {
                            assert(t1.rows[q] == room.rows[q]);
                        }
                    }
                    lemma_row_of(t1.rows, k, p + 1);
                }
            }
        }
    }
    let ready = m.spot_after(obs, l);
    assert(ready.spot.spot_key == t1.state(key).spot.spot_key);
    lemma_row_of_props(t1.rows, key);
    assert(row_sound(t1.rows[row_of(t1.rows, key) as int]));
    lemma_quiet_change(t1, all, key, ready);
}

/// Emission for the spot of a key.
proof fn lemma_emit(
    t: TableModel,
    events: Seq<EventModel>,
    key: KeyModel,
    now: int,
    dedupe: DedupeConfig,
)
    requires
        t.wf(),
        sound(t),
        t.has(key),
        t.state(key).spot.last_seen == now,
        agree(t, events),
        orderly(events),
    ensures
        sound(table_emitting(t, key, now, dedupe)),
        agree(
            table_emitting(t, key, now, dedupe),
            events + events_emitting(t, key, now, dedupe),
        ),
        orderly(events + events_emitting(t, key, now, dedupe)),
{
    let kind = emission(t.state(key), now, dedupe);
    let out = events_emitting(t, key, now, dedupe);
    if kind is None {
        assert(events + out =~= events);
    } else {
        let state = t.state(key);
        let own = spot_event(state.spot, kind->0, state.revision);
        lemma_row_of_props(t.rows, key);
        assert(row_sound(t.rows[row_of(t.rows, key) as int]));
        lemma_left(t, key, now, dedupe);
        match key_left(t, key, now, dedupe) {
            Some(old) => {
                // The old spot leaves first
                lemma_row_of_props(t.rows, old);
                let i = row_of(t.rows, old) as int;
                lemma_row_leaves(t, events, i);
                let first = withdrawal(leaving(t.rows[i]));
                let bare = t.without_row(i);
                assert(t.rows[i].key == old);
                lemma_without_row(t, i);
                assert(bare.has(key) == t.has(key));
                assert(bare.state(key) == state);
                lemma_told(bare, events.push(first), key, own, now, dedupe);
                lemma_orders_agree(t, key, emitted_state(state, now), i);
                assert(events + out =~= events.push(first).push(own));
            },
            None => {
                lemma_told(t, events, key, own, now, dedupe);
                assert(events + out =~= events.push(own));
            },
        }
    }
}

/// A spot that passed is told and marked; remembering it as emitted changes
/// neither rows nor what is told.
proof fn lemma_told(
    t: TableModel,
    events: Seq<EventModel>,
    key: KeyModel,
    own: EventModel,
    now: int,
    dedupe: DedupeConfig,
)
    requires
        t.wf(),
        sound(t),
        t.has(key),
        t.state(key).spot.spot_key == key,
        t.state(key).spot.last_seen == now,
        agree(t, events),
        orderly(events),
        emission(t.state(key), now, dedupe) is Some,
        own == spot_event(
            t.state(key).spot,
            emission(t.state(key), now, dedupe)->0,
            t.state(key).revision,
        ),
    ensures
        ({
            let marked = t.with_state(key, emitted_state(t.state(key), now));
            &&& sound(marked)
            &&& sound(marked.with_emission(key))
            &&& agree(marked, events.push(own))
            &&& agree(marked.with_emission(key), events.push(own))
            &&& orderly(events.push(own))
        }),
{
    let state = t.state(key);
    let marked = t.with_state(key, emitted_state(state, now));
    assert(told(t, key) == known(events, key));
    assert(follows(events, own));
    lemma_append(events, own);
    lemma_with_state(t, key, emitted_state(state, now));
    lemma_row_of_props(t.rows, key);
    assert(marked.has(key) == t.has(key));
    assert forall|k: int| 0 <= k < marked.rows.len() implies row_sound(
        #[trigger] marked.rows[k],
    ) by {
        if k != row_of(t.rows, key) {
            assert(marked.rows[k] == t.rows[k]);
        }
    }
    assert forall|k: KeyModel| #[trigger] told(marked, k) == known(events.push(own), k) by {
        assert(told(t, k) == known(events, k));
        assert(marked.has(k) == t.has(k));
        if k != key && t.has(k) {
            assert(marked.state(k) == t.state(k));
        }
    }
    let noted = marked.with_emission(key);
    assert(noted.rows == marked.rows);
    assert forall|k: int| 0 <= k < noted.rows.len() implies row_sound(
        #[trigger] noted.rows[k],
    ) by {
        assert(row_sound(marked.rows[k]));
    }
    assert forall|k: KeyModel| #[trigger] told(noted, k) == known(events.push(own), k) by {
        assert(told(noted, k) == told(marked, k));
    }
}

/// Marking one spot and removing another can be done in either order.
proof fn lemma_orders_agree(t: TableModel, key: KeyModel, state: StateModel, i: int)
    requires
        t.wf(),
        t.has(key),
        0 <= i < t.rows.len(),
        t.rows[i].key != key,
    ensures
        t.with_state(key, state).without(t.rows[i].key) == t.without_row(i).with_state(
            key,
            state,
        ),
{
    let old = t.rows[i].key;
    let marked = t.with_state(key, state);
    let bare = t.without_row(i);
    lemma_with_state(t, key, state);
    lemma_without_row(t, i);
    lemma_row_of_props(t.rows, key);
    lemma_row_of_props(t.rows, old);
    let k = row_of(t.rows, key) as int;
    // The old spot stands where it stood
    assert(row_of(t.rows, old) == i) by {
        let q = row_of(t.rows, old) as int;
        if q < i {
            assert(t.rows[q].key != t.rows[i].key);
        } else if q > i {
            assert(t.rows[i].key != old);
        }
    }
    assert forall|q: int| 0 <= q < i implies (#[trigger] marked.rows[q]).key != old by {
        assert(t.rows[q].key != old);
    }
    lemma_row_of(marked.rows, old, i);
    assert(marked.has(old));
    // The marked spot moves up where it stood behind
    let k2 = if k < i { k } else { k - 1 };
    assert forall|q: int| 0 <= q < k2 implies (#[trigger] bare.rows[q]).key != key by {
        let q2 = if q < i { q } else { q + 1 };
        assert(bare.rows[q] == t.rows[q2]);
        assert(t.rows[q2].key != key);
    }
    assert(bare.rows[k2] == t.rows[k]);
    lemma_row_of(bare.rows, key, k2);
    let a = marked.without_row(i);
    let b = bare.with_state(key, state);
    assert(a.rows =~= b.rows);
    assert(a.emitted =~= b.emitted);
}

/// An observation goes through the pipeline.
proof fn lemma_observe(
    m: AggregatorModel,
    events: Seq<EventModel>,
    obs: IncomingModel,
    l: LookupsModel,
)
    requires
        m.wf(),
        sound(m.table),
        agree(m.table, events),
        orderly(events),
    ensures
        sound(m.processed(obs, l).table),
        agree(m.processed(obs, l).table, events + m.events(obs, l)),
        orderly(events + m.events(obs, l)),
{
    let key = key_for(m.config, obs.parsed);
    let ready = m.table_ready(obs, l);
    let displaced = withdrawals(m.table.displaced(input_for(m.config, obs)));
    lemma_ingest(m, events, obs, l);
    if m.passes(obs, l) {
        lemma_emit(ready, events + displaced, key, obs.received_at, m.config.dedupe);
        let own = events_emitting(ready, key, obs.received_at, m.config.dedupe);
        assert(events + (displaced + own) =~= (events + displaced) + own);
    }
}

} // verus!
