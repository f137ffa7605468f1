//! Revisions and cooldowns over a whole run of the aggregator.

use crate::model::{EventModel, KeyModel, SpotEventKind};
use vstd::prelude::*;

use super::laws::{lemma_emitting, lemma_left};
use super::lifecycle::{
    after_run, after_step, known, lemma_lifecycle, lemma_own_row, row_sound, run_events, sound,
    step_events, told, Known, Step,
};
use super::pipeline::{
    cooled, emission, emitted_state, events_emitting, input_for, key_for, key_left, spot_event,
    table_emitting, table_marked, withdrawals, AggregatorConfig, AggregatorModel, DedupeConfig,
    IncomingModel, LookupsModel,
};
use super::spot_table::{
    leaving, lemma_evicted, lemma_ingested, lemma_oldest_row, lemma_row_of, lemma_row_of_props,
    lemma_with_state, lemma_without_row, next_revision, oldest_row, row_of, stale, stale_spots,
    RowModel, TableModel,
};

verus! {

// ---------------------------------------------------------------------------
// Observations since a spot entered the table
// ---------------------------------------------------------------------------

/// The step is an observation of the spot of `key`.
pub open spec fn observes(m: AggregatorModel, step: Step, key: KeyModel) -> bool {
    step matches Step::Observe(obs, _) && key_for(m.config, obs.parsed) == key
}

/// The number of observations of the spot of `key` over a run, since it last
/// entered the table; zero where it is not in the table.
pub open spec fn seen(m: AggregatorModel, steps: Seq<Step>, key: KeyModel) -> nat
    decreases steps.len(),
{
    if steps.len() == 0 || !after_run(m, steps).table.has(key) {
        0
    } else {
        let init = steps.drop_last();
        seen(m, init, key) + if observes(after_run(m, init), steps.last(), key) {
            1nat
        } else {
            0nat
        }
    }
}

/// A number of observations as a revision: the last revision stands for all
/// further numbers.
pub open spec fn as_revision(n: nat) -> u32 {
    if n < u32::MAX {
        n as u32
    } else {
        u32::MAX
    }
}

// ---------------------------------------------------------------------------
// Spots that a step does not concern
// ---------------------------------------------------------------------------

/// If the spot of `key` is in the second table, it was in the first one, as it
/// is.
spec fn stays(t: TableModel, after: TableModel, key: KeyModel) -> bool {
    after.has(key) ==> t.has(key) && after.state(key) == t.state(key)
}

/// Removing a row.
proof fn lemma_removal_stays(t: TableModel, i: int, key: KeyModel)
    requires
        t.wf(),
        0 <= i < t.rows.len(),
    ensures
        stays(t, t.without_row(i), key),
{
    lemma_without_row(t, i);
    let after = t.without_row(i);
    if key != t.rows[i].key {
        assert(after.has(key) == t.has(key));
        if t.has(key) {
            assert(after.state(key) == t.state(key));
        }
    }
}

/// Making room.
proof fn lemma_room_stays(t: TableModel, key: KeyModel)
    requires
        t.wf(),
    ensures
        stays(t, t.with_room(), key),
    decreases t.rows.len(),
{
    if t.rows.len() > 0 && t.rows.len() >= t.config.max_spots {
        lemma_oldest_row(t.rows);
        let k = oldest_row(t.rows);
        lemma_without_row(t, k);
        lemma_removal_stays(t, k, key);
        lemma_room_stays(t.without_row(k), key);
    }
}

/// Ingesting an observation of another spot.
proof fn lemma_ingest_stays(m: AggregatorModel, obs: IncomingModel, key: KeyModel)
    requires
        m.wf(),
        key != key_for(m.config, obs.parsed),
    ensures
        stays(m.table, m.table.ingested(input_for(m.config, obs)), key),
{
    let t = m.table;
    let input = input_for(m.config, obs);
    let after = t.ingested(input);
    if t.has(input.key) {
        lemma_with_state(t, input.key, after.state(input.key));
        lemma_ingested(t, input);
        assert(after.has(key) == t.has(key));
    } else {
        let room = t.with_room();
        lemma_room_stays(t, key);
        lemma_row_of_props(room.rows, key);
        let p = row_of(room.rows, key) as int;
        assert forall|q: int| 0 <= q < p implies (#[trigger] after.rows[q]).key != key by {
            assert(after.rows[q] == room.rows[q]);
        }
        if p < room.rows.len() {
            assert(after.rows[p] == room.rows[p]);
            lemma_row_of(after.rows, key, p);
        } else {
            assert(after.rows[p].key != key);
            lemma_row_of(after.rows, key, p + 1);
        }
    }
}

/// Emission for another spot.
proof fn lemma_emission_stays(
    t: TableModel,
    own: KeyModel,
    now: int,
    dedupe: DedupeConfig,
    key: KeyModel,
)
    requires
        t.wf(),
        t.has(own),
        key != own,
    ensures
        stays(t, table_emitting(t, own, now, dedupe), key),
{
    let marked = table_marked(t, own, now, dedupe);
    let after = table_emitting(t, own, now, dedupe);
    if emission(t.state(own), now, dedupe) is Some {
        lemma_with_state(t, own, emitted_state(t.state(own), now));
        assert(marked.has(key) == t.has(key));
    }
    assert(stays(t, marked, key));
    lemma_left(t, own, now, dedupe);
    match key_left(t, own, now, dedupe) {
        Some(old) => {
            lemma_row_of_props(marked.rows, old);
            let i = row_of(marked.rows, old) as int;
            lemma_removal_stays(marked, i, key);
            assert(after.rows == marked.without_row(i).rows);
        },
        None => {
            assert(after.rows == marked.rows);
        },
    }
}

/// Maintenance.
proof fn lemma_tick_stays(t: TableModel, now: int, key: KeyModel)
    requires
        t.wf(),
    ensures
        stays(t, t.evicted(now), key),
{
    let after = t.evicted(now);
    lemma_evicted(t, now);
    lemma_row_of_props(after.rows, key);
    if after.has(key) {
        let row = after.rows[row_of(after.rows, key) as int];
        assert(after.rows.contains(row));
        assert(t.rows.contains(row));
        let q = choose|q: int| 0 <= q < t.rows.len() && t.rows[q] == row;
        lemma_own_row(t, q);
    }
}

/// A step raises the revision of the spot that it observes by one, and leaves
/// every other spot that stays as it is.
proof fn lemma_step_revision(m: AggregatorModel, step: Step, key: KeyModel)
    requires
        m.wf(),
    ensures
        ({
            let t = m.table;
            let after = after_step(m, step).table;
            if observes(m, step, key) {
                after.has(key) && after.state(key).revision == if t.has(key) {
                    next_revision(t.state(key).revision)
                } else {
                    1
                }
            } else {
                stays(t, after, key)
            }
        }),
{
    match step {
        Step::Observe(obs, l) => {
            let input = input_for(m.config, obs);
            let own = input.key;
            let ingested = m.table.ingested(input);
            let ready = m.table_ready(obs, l);
            lemma_ingested(m.table, input);
            lemma_with_state(ingested, own, m.spot_after(obs, l));
            assert(ready.has(own) == ingested.has(own));
            if m.passes(obs, l) {
                lemma_emitting(ready, own, obs.received_at, m.config.dedupe);
            }
            if key != own {
                lemma_ingest_stays(m, obs, key);
                assert(ready.has(key) == ingested.has(key));
                if m.passes(obs, l) {
                    lemma_emission_stays(ready, own, obs.received_at, m.config.dedupe, key);
                }
            }
        },
        Step::Tick(now) => {
            lemma_tick_stays(m.table, now, key);
        },
        _ => {
            assert(after_step(m, step).table.rows == m.table.rows);
        },
    }
}

/// The aggregator stays consistent over a run.
proof fn lemma_run_wf(m: AggregatorModel, steps: Seq<Step>)
    requires
        m.wf(),
        m.table.rows.len() == 0,
    ensures
        after_run(m, steps).wf(),
        sound(after_run(m, steps).table),
{
    lemma_lifecycle(m, steps);
}

// ---------------------------------------------------------------------------
// Revisions
// ---------------------------------------------------------------------------

/// At any time of a run that starts with an empty table, the revision of a spot
/// in the table is the number of its observations since it entered, blocked and
/// dropped ones included, up to the last revision.
pub proof fn lemma_revision_counts(m: AggregatorModel, steps: Seq<Step>, key: KeyModel)
    requires
        m.wf(),
        m.table.rows.len() == 0,
    ensures
        after_run(m, steps).table.has(key) ==> after_run(m, steps).table.state(key).revision
            == as_revision(seen(m, steps, key)),
        !after_run(m, steps).table.has(key) ==> seen(m, steps, key) == 0,
    decreases steps.len(),
{
    if steps.len() > 0 {
        let init = steps.drop_last();
        lemma_revision_counts(m, init, key);
        lemma_run_wf(m, init);
        lemma_step_revision(after_run(m, init), steps.last(), key);
    }
}

/// What leaves as stale are rows of the table.
proof fn lemma_stale_spots_are_rows(rows: Seq<RowModel>, now: int, ttl: int, i: int) -> (k: int)
    requires
        0 <= i < stale_spots(rows, now, ttl).len(),
    ensures
        0 <= k < rows.len(),
        stale_spots(rows, now, ttl)[i] == leaving(rows[k]),
    decreases rows.len(),
{
    let init = rows.drop_last();
    if stale(rows.last(), now, ttl) && i == stale_spots(init, now, ttl).len() {
        rows.len() - 1
    } else {
        let k = lemma_stale_spots_are_rows(init, now, ttl, i);
        assert(init[k] == rows[k]);
        k
    }
}

/// What leaves to make room are rows of the table.
proof fn lemma_displaced_are_rows(t: TableModel, i: int) -> (k: int)
    requires
        t.wf(),
        0 <= i < t.room_made().len(),
    ensures
        0 <= k < t.rows.len(),
        t.room_made()[i] == leaving(t.rows[k]),
    decreases t.rows.len(),
{
    lemma_oldest_row(t.rows);
    let first = oldest_row(t.rows);
    let next = t.without_row(first);
    assert(t.room_made() == seq![leaving(t.rows[first])] + next.room_made());
    if i == 0 {
        first
    } else {
        lemma_without_row(t, first);
        let k = lemma_displaced_are_rows(next, i - 1);
        let k2 = if k < first { k } else { k + 1 };
        assert(next.rows[k] == t.rows[k2]);
        k2
    }
}

/// A row holds the spot of its key, with the number of its observations.
proof fn lemma_row_counts(m: AggregatorModel, steps: Seq<Step>, k: int)
    requires
        m.wf(),
        m.table.rows.len() == 0,
        0 <= k < after_run(m, steps).table.rows.len(),
    ensures
        ({
            let row = after_run(m, steps).table.rows[k];
            &&& row.state.spot.spot_key == row.key
            &&& row.state.revision == as_revision(seen(m, steps, row.key))
        }),
{
    let t = after_run(m, steps).table;
    lemma_run_wf(m, steps);
    lemma_own_row(t, k);
    assert(row_sound(t.rows[k]));
    lemma_revision_counts(m, steps, t.rows[k].key);
}

/// The event of a step after a run carries the number of observations of its
/// spot since it entered the table, up to the last revision: a withdrawal those
/// before the step, every other event those up to and with it.
pub open spec fn counted(
    m: AggregatorModel,
    steps: Seq<Step>,
    step: Step,
    event: EventModel,
) -> bool {
    event matches EventModel::Spot(e) && e.revision == as_revision(
        if e.kind == SpotEventKind::Withdraw {
            seen(m, steps, e.spot.spot_key)
        } else {
            seen(m, steps.push(step), e.spot.spot_key)
        },
    )
}

/// The withdrawal of a row.
proof fn lemma_withdrawal_counted(m: AggregatorModel, steps: Seq<Step>, step: Step, k: int)
    requires
        m.wf(),
        m.table.rows.len() == 0,
        0 <= k < after_run(m, steps).table.rows.len(),
    ensures
        ({
            let row = after_run(m, steps).table.rows[k];
            counted(
                m,
                steps,
                step,
                spot_event(row.state.spot, SpotEventKind::Withdraw, row.state.revision),
            )
        }),
{
    lemma_row_counts(m, steps, k);
}

/// What is emitted for the observed spot itself.
proof fn lemma_own_counted(
    m: AggregatorModel,
    steps: Seq<Step>,
    obs: IncomingModel,
    l: LookupsModel,
    kind: SpotEventKind,
)
    requires
        m.wf(),
        m.table.rows.len() == 0,
        kind != SpotEventKind::Withdraw,
    ensures
        ({
            let before = after_run(m, steps);
            let key = key_for(before.config, obs.parsed);
            let state = before.spot_after(obs, l);
            &&& before.table_ready(obs, l).wf()
            &&& before.table_ready(obs, l).has(key)
            &&& before.table_ready(obs, l).state(key) == state
            &&& counted(
                m,
                steps,
                Step::Observe(obs, l),
                spot_event(state.spot, kind, state.revision),
            )
        }),
{
    let before = after_run(m, steps);
    let step = Step::Observe(obs, l);
    let all = steps.push(step);
    let input = input_for(before.config, obs);
    let key = input.key;
    assert(all.drop_last() =~= steps);
    lemma_run_wf(m, steps);
    lemma_ingested(before.table, input);
    lemma_with_state(before.table.ingested(input), key, before.spot_after(obs, l));
    assert(before.table_ready(obs, l).has(key) == before.table.ingested(input).has(key));
    lemma_revision_counts(m, all, key);
    let after = after_run(m, all).table;
    assert(after_run(m, all) == after_step(before, step));
    if before.passes(obs, l) {
        lemma_emitting(before.table_ready(obs, l), key, obs.received_at, before.config.dedupe);
    }
    assert(after.has(key));
    assert(after.state(key).revision == before.spot_after(obs, l).revision);
    if before.table.has(key) {
        lemma_row_of_props(before.table.rows, key);
        assert(row_sound(before.table.rows[row_of(before.table.rows, key) as int]));
    }
    assert(before.spot_after(obs, l).spot.spot_key == key);
}

/// The withdrawal of the spot that a station left.
proof fn lemma_left_counted(
    m: AggregatorModel,
    steps: Seq<Step>,
    obs: IncomingModel,
    l: LookupsModel,
    old: KeyModel,
)
    requires
        m.wf(),
        m.table.rows.len() == 0,
        old != key_for(after_run(m, steps).config, obs.parsed),
        after_run(m, steps).table_ready(obs, l).has(old),
    ensures
        ({
            let gone = after_run(m, steps).table_ready(obs, l).state(old);
            counted(
                m,
                steps,
                Step::Observe(obs, l),
                spot_event(gone.spot, SpotEventKind::Withdraw, gone.revision),
            )
        }),
{
    let before = after_run(m, steps);
    let t = before.table;
    let input = input_for(before.config, obs);
    let ready = before.table_ready(obs, l);
    lemma_run_wf(m, steps);
    lemma_ingested(t, input);
    lemma_with_state(t.ingested(input), input.key, before.spot_after(obs, l));
    assert(ready.has(old) == t.ingested(input).has(old));
    assert(ready.state(old) == t.ingested(input).state(old));
    lemma_ingest_stays(before, obs, old);
    lemma_row_of_props(t.rows, old);
    lemma_withdrawal_counted(m, steps, Step::Observe(obs, l), row_of(t.rows, old) as int);
}

/// What is emitted for a spot: the withdrawal of the spot that its station left,
/// or the spot itself.
proof fn lemma_own_events(t: TableModel, key: KeyModel, now: int, dedupe: DedupeConfig, i: int)
    requires
        t.wf(),
        t.has(key),
        0 <= i < events_emitting(t, key, now, dedupe).len(),
    ensures
        ({
            let event = events_emitting(t, key, now, dedupe)[i];
            let state = t.state(key);
            ||| event == spot_event(state.spot, SpotEventKind::New, state.revision)
            ||| event == spot_event(state.spot, SpotEventKind::Update, state.revision)
            ||| key_left(t, key, now, dedupe) matches Some(old) && old != key && t.has(old)
                && event == spot_event(
                t.state(old).spot,
                SpotEventKind::Withdraw,
                t.state(old).revision,
            )
        }),
{
    lemma_left(t, key, now, dedupe);
}

/// Every event of a run that starts with an empty table carries the number of
/// observations of its spot since it entered the table, blocked and dropped
/// ones included, up to the last revision.
pub proof fn lemma_event_revisions(m: AggregatorModel, steps: Seq<Step>, step: Step, i: int)
    requires
        m.wf(),
        m.table.rows.len() == 0,
        0 <= i < step_events(after_run(m, steps), step).len(),
    ensures
        counted(m, steps, step, step_events(after_run(m, steps), step)[i]),
{
    let before = after_run(m, steps);
    let t = before.table;
    let events = step_events(before, step);
    lemma_run_wf(m, steps);
    match step {
        Step::Observe(obs, l) => {
            let key = key_for(before.config, obs.parsed);
            let displaced = withdrawals(t.displaced(input_for(before.config, obs)));
            let n = displaced.len() as int;
            if i < n {
                let k = lemma_displaced_are_rows(t, i);
                lemma_withdrawal_counted(m, steps, step, k);
                assert(events[i] == displaced[i]);
            } else {
                let ready = before.table_ready(obs, l);
                let now = obs.received_at;
                let dedupe = before.config.dedupe;
                lemma_own_counted(m, steps, obs, l, SpotEventKind::New);
                lemma_own_counted(m, steps, obs, l, SpotEventKind::Update);
                lemma_own_events(ready, key, now, dedupe, i - n);
                assert(events[i] == events_emitting(ready, key, now, dedupe)[i - n]);
                let left = key_left(ready, key, now, dedupe);
                if left is Some && left->0 != key && ready.has(left->0) {
                    lemma_left_counted(m, steps, obs, l, left->0);
                }
            }
        },
        Step::Tick(now) => {
            let k = lemma_stale_spots_are_rows(t.rows, now, t.config.ttl@, i);
            lemma_withdrawal_counted(m, steps, step, k);
        },
        _ => {},
    }
}

// ---------------------------------------------------------------------------
// Cooldown
// ---------------------------------------------------------------------------

/// The cooldown between updates of a spot that a consumer knows: an observation
/// that gets through sooner after the last emission than the settings ask emits
/// nothing and does not start the cooldown over; a later one emits an `Update`,
/// from which the cooldown starts over. The number of observations is below the
/// last revision, where updates end.
pub proof fn lemma_cooldown_over_runs(
    m: AggregatorModel,
    steps: Seq<Step>,
    obs: IncomingModel,
    l: LookupsModel,
)
    requires
        m.wf(),
        m.table.rows.len() == 0,
        after_run(m, steps).passes(obs, l),
        after_run(m, steps).config.dedupe.emit_updates,
        after_run(m, steps).config.dedupe.min_update_interval is Some,
        ({
            let key = key_for(after_run(m, steps).config, obs.parsed);
            known(run_events(m, steps), key) is Told && seen(m, steps, key) < u32::MAX
        }),
    ensures
        ({
            let before = after_run(m, steps);
            let key = key_for(before.config, obs.parsed);
            let interval = (before.config.dedupe.min_update_interval->0)@;
            let was = known(run_events(m, steps), key);
            let now = known(run_events(m, steps.push(Step::Observe(obs, l))), key);
            let revision = (seen(m, steps, key) + 1) as u32;
            if obs.received_at - was->at < interval {
                before.events(obs, l) == Seq::<EventModel>::empty() && now == was
            } else {
                &&& before.events(obs, l) == seq![
                    spot_event(before.spot_after(obs, l).spot, SpotEventKind::Update, revision),
                ]
                &&& now == (Known::Told { revision, at: obs.received_at })
            }
        }),
{
    let before = after_run(m, steps);
    let input = input_for(before.config, obs);
    let key = input.key;
    let step = Step::Observe(obs, l);
    let all = steps.push(step);
    assert(all.drop_last() =~= steps);
    lemma_lifecycle(m, steps);
    assert(told(before.table, key) == known(run_events(m, steps), key));
    lemma_row_of_props(before.table.rows, key);
    assert(row_sound(before.table.rows[row_of(before.table.rows, key) as int]));
    lemma_revision_counts(m, steps, key);
    lemma_ingested(before.table, input);
    lemma_with_state(before.table.ingested(input), key, before.spot_after(obs, l));
    let events = run_events(m, steps);
    let out = before.events(obs, l);
    assert(run_events(m, all) == events + out);
    assert(before.table.displaced(input) =~= seq![]);
    if emission(before.spot_after(obs, l), obs.received_at, before.config.dedupe) is Some {
        assert(out =~= seq![
            spot_event(
                before.spot_after(obs, l).spot,
                SpotEventKind::Update,
                before.spot_after(obs, l).revision,
            ),
        ]);
        assert((events + out).last() == out[0]);
    } else {
        assert(out =~= seq![]);
        assert(events + out =~= events);
    }
}

/// The settings ask for at least `interval` between updates.
pub open spec fn cools(config: AggregatorConfig, interval: int) -> bool {
    config.dedupe.min_update_interval matches Some(i) && i@ >= interval
}

/// The settings ask for at least `interval` between updates all along a run.
pub open spec fn always_cools(m: AggregatorModel, steps: Seq<Step>, interval: int) -> bool {
    &&& cools(m.config, interval)
    &&& forall|i: int|
        0 <= i < steps.len() ==> ((#[trigger] steps[i]) matches Step::Config(c) ==> cools(
            c,
            interval,
        ))
}

/// An update comes at least `interval` after what was told of its spot last.
pub open spec fn spaced(before: Seq<EventModel>, event: EventModel, interval: int) -> bool {
    event matches EventModel::Spot(e) ==> e.kind == SpotEventKind::Update ==> (known(
        before,
        e.spot.spot_key,
    ) matches Known::Told { at, .. } && e.spot.last_seen - at >= interval)
}

/// Over a run that starts with an empty table, of two emissions of a spot in a
/// row, without a withdrawal in between, the second of which is an `Update`,
/// the second comes at least as much later as the settings ask all along.
pub proof fn lemma_updates_spaced(m: AggregatorModel, steps: Seq<Step>, interval: int)
    requires
        m.wf(),
        m.table.rows.len() == 0,
        always_cools(m, steps, interval),
    ensures
        cools(after_run(m, steps).config, interval),
        forall|i: int|
            0 <= i < run_events(m, steps).len() ==> spaced(
                run_events(m, steps).take(i),
                #[trigger] run_events(m, steps)[i],
                interval,
            ),
    decreases steps.len(),
{
    if steps.len() > 0 {
        let init = steps.drop_last();
        let step = steps.last();
        assert(steps[steps.len() - 1] == step);
        assert forall|i: int| 0 <= i < init.len() implies ((#[trigger] init[i]) matches
            Step::Config(c) ==> cools(c, interval)) by {
            assert(init[i] == steps[i]);
        }
        lemma_updates_spaced(m, init, interval);
        let events = run_events(m, init);
        let out = step_events(after_run(m, init), step);
        let all = run_events(m, steps);
        assert(all == events + out);
        assert forall|i: int| 0 <= i < all.len() implies spaced(
            all.take(i),
            #[trigger] all[i],
            interval,
        ) by {
            if i < events.len() {
                assert(all.take(i) =~= events.take(i));
                assert(all[i] == events[i]);
            } else {
                lemma_update_spaced(m, init, step, interval, i - events.len());
                assert(all.take(i) =~= events + out.take(i - events.len()));
            }
        }
    }
}

/// An update is the only event of its observation, and comes when the cooldown
/// is over.
proof fn lemma_update_alone(m: AggregatorModel, obs: IncomingModel, l: LookupsModel, i: int)
    requires
        m.wf(),
        0 <= i < m.events(obs, l).len(),
        m.events(obs, l)[i] matches EventModel::Spot(e) && e.kind == SpotEventKind::Update,
    ensures
        ({
            let key = key_for(m.config, obs.parsed);
            let state = m.spot_after(obs, l);
            &&& i == 0
            &&& m.events(obs, l)[i] == spot_event(state.spot, SpotEventKind::Update, state.revision)
            &&& m.table.has(key)
            &&& m.table.state(key).first_emitted
            &&& m.table.state(key).spot.spot_key == state.spot.spot_key
            &&& state.spot.last_seen == obs.received_at
            &&& cooled(m.table.state(key), obs.received_at, m.config.dedupe.min_update_interval)
        }),
{
    let input = input_for(m.config, obs);
    let key = input.key;
    let state = m.spot_after(obs, l);
    let ready = m.table_ready(obs, l);
    let displaced = withdrawals(m.table.displaced(input));
    lemma_ingested(m.table, input);
    lemma_with_state(m.table.ingested(input), key, state);
    assert(ready.has(key) == m.table.ingested(input).has(key));
    let n = displaced.len() as int;
    if i < n {
        assert(m.events(obs, l)[i] == displaced[i]);
    } else {
        let own = events_emitting(ready, key, obs.received_at, m.config.dedupe);
        assert(m.events(obs, l)[i] == own[i - n]);
        lemma_own_events(ready, key, obs.received_at, m.config.dedupe, i - n);
        let kind = emission(state, obs.received_at, m.config.dedupe);
        assert(kind == Some(SpotEventKind::Update));
    }
}

/// An update of a run comes when the cooldown is over.
proof fn lemma_update_spaced(
    m: AggregatorModel,
    steps: Seq<Step>,
    step: Step,
    interval: int,
    i: int,
)
    requires
        m.wf(),
        m.table.rows.len() == 0,
        cools(after_run(m, steps).config, interval),
        0 <= i < step_events(after_run(m, steps), step).len(),
    ensures
        spaced(
            run_events(m, steps) + step_events(after_run(m, steps), step).take(i),
            step_events(after_run(m, steps), step)[i],
            interval,
        ),
{
    let before = after_run(m, steps);
    let events = run_events(m, steps);
    let out = step_events(before, step);
    lemma_run_wf(m, steps);
    match step {
        Step::Observe(obs, l) => {
            let key = key_for(before.config, obs.parsed);
            if out[i] matches EventModel::Spot(e) && e.kind == SpotEventKind::Update {
                lemma_update_alone(before, obs, l, i);
                assert(events + out.take(0) =~= events);
                lemma_told_by_table(m, steps, key);
                lemma_row_of_props(before.table.rows, key);
                assert(row_sound(before.table.rows[row_of(before.table.rows, key) as int]));
            }
        },
        Step::Tick(now) => {
            assert(out[i] == before.tick_events(now)[i]);
        },
        _ => {},
    }
}

/// A consumer knows of a spot what the table says.
proof fn lemma_told_by_table(m: AggregatorModel, steps: Seq<Step>, key: KeyModel)
    requires
        m.wf(),
        m.table.rows.len() == 0,
    ensures
        told(after_run(m, steps).table, key) == known(run_events(m, steps), key),
{
    lemma_lifecycle(m, steps);
}

} // verus!
