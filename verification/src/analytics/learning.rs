//! What polls teach: active time is time that passed, and a move learns it.
use crate::analytics::averages;
use crate::analytics::estimate as es;
use crate::analytics::estimate::{BucketDirection, InProgressBucket};
use crate::analytics::store;
use crate::analytics::store::{PadView, RecordView, StoreView};
use crate::controller::model;
use crate::controller::model::PowerState;
use crate::text_map::TextSet;
use vstd::prelude::*;

verus! {

/// A poll: the pads that were there, and when.
pub struct Poll {
    pub pads: Seq<model::StatusView>,
    pub at: u64,
}

/// The store after polls in turn. `before` are the pads of the poll before the first.
pub open spec fn polled(
    store: StoreView,
    before: Seq<model::StatusView>,
    polls: Seq<Poll>,
    keep: Set<Seq<char>>,
) -> StoreView
    decreases polls.len(),
{
    if polls.len() == 0 {
        store
    } else {
        polled(store, before, polls.drop_last(), keep).observed(
            pads_before(before, polls, polls.len() - 1),
            polls.last().pads,
            keep,
            polls.last().at,
        )
    }
}

/// Pads of the poll before poll `k`.
pub open spec fn pads_before(
    before: Seq<model::StatusView>,
    polls: Seq<Poll>,
    k: int,
) -> Seq<model::StatusView> {
    if k == 0 {
        before
    } else {
        polls[k - 1].pads
    }
}

/// Whether a pad is among pads, once, with a percentage and a power state.
pub open spec fn shows(
    pads: Seq<model::StatusView>,
    serial: Seq<char>,
    percent: u8,
    state: PowerState,
) -> bool {
    &&& exists|i: int|
        0 <= i < pads.len() && (#[trigger] pads[i]).serial == serial && pads[i].percent == percent
            && pads[i].state == state
    &&& forall|i: int, j: int|
        0 <= i < j < pads.len() ==> (#[trigger] pads[i]).serial != (#[trigger] pads[j]).serial
}

// ---------------------------------------------------------------------------
// One pad among others
// ---------------------------------------------------------------------------

/// Whether two stores know the same of a pad.
spec fn same_of(a: StoreView, b: StoreView, serial: Seq<char>) -> bool {
    &&& a.records.dom().contains(serial) == b.records.dom().contains(serial)
    &&& a.records.dom().contains(serial) ==> a.records[serial] == b.records[serial]
    &&& a.connected.dom().contains(serial) == b.connected.dom().contains(serial)
    &&& a.connected.dom().contains(serial) ==> a.connected[serial] == b.connected[serial]
    &&& a.reconciled.contains(serial) == b.reconciled.contains(serial)
    &&& a.track_emulated == b.track_emulated
}

proof fn lemma_heartbeats_of_others(
    store: StoreView,
    pads: Seq<model::StatusView>,
    gap: u64,
    now: u64,
    serial: Seq<char>,
)
    requires
        forall|i: int| 0 <= i < pads.len() ==> (#[trigger] pads[i]).serial != serial,
    ensures
        same_of(store.with_heartbeats(pads, gap, now), store, serial),
        store.with_heartbeats(pads, gap, now).last_tick == store.last_tick,
    decreases pads.len(),
{
    if pads.len() > 0 {
        let init = pads.drop_last();
        assert(pads[pads.len() - 1].serial != serial);
        assert forall|i: int| 0 <= i < init.len() implies (#[trigger] init[i]).serial != serial by {
            assert(init[i] == pads[i]);
        }
        lemma_heartbeats_of_others(store, init, gap, now, serial);
    }
}

/// Heartbeats of a poll credit a pad once.
proof fn lemma_heartbeats(
    store: StoreView,
    pads: Seq<model::StatusView>,
    gap: u64,
    now: u64,
    i: int,
)
    requires
        0 <= i < pads.len(),
        forall|a: int, b: int|
            0 <= a < b < pads.len() ==> (#[trigger] pads[a]).serial != (#[trigger] pads[b]).serial,
    ensures
        same_of(
            store.with_heartbeats(pads, gap, now),
            store.with_heartbeat(pads[i], gap, now),
            pads[i].serial,
        ),
        store.with_heartbeats(pads, gap, now).last_tick == store.last_tick,
    decreases pads.len(),
{
    let init = pads.drop_last();
    let serial = pads[i].serial;
    if i == pads.len() - 1 {
        assert forall|k: int| 0 <= k < init.len() implies (#[trigger] init[k]).serial != serial by {
            assert(init[k] == pads[k]);
            assert(pads[k].serial != pads[i].serial);
        }
        lemma_heartbeats_of_others(store, init, gap, now, serial);
    } else {
        assert(init[i] == pads[i]);
        assert forall|a: int, b: int| 0 <= a < b < init.len() implies (#[trigger] init[a]).serial
            != (#[trigger] init[b]).serial by {
            assert(init[a] == pads[a] && init[b] == pads[b]);
        }
        lemma_heartbeats(store, init, gap, now, i);
        assert(pads[i].serial != pads[pads.len() - 1].serial);
    }
}

proof fn lemma_absences(
    store: StoreView,
    before: Seq<model::StatusView>,
    pads: Seq<model::StatusView>,
    now: u64,
    serial: Seq<char>,
)
    requires
        store::present(pads, serial),
    ensures
        same_of(store.with_absences(before, pads, now), store, serial),
        store.with_absences(before, pads, now).last_tick == store.last_tick,
    decreases before.len(),
{
    if before.len() > 0 {
        lemma_absences(store, before.drop_last(), pads, now, serial);
    }
}

proof fn lemma_readings_of_others(
    store: StoreView,
    before: Seq<model::StatusView>,
    pads: Seq<model::StatusView>,
    now: u64,
    serial: Seq<char>,
)
    requires
        forall|i: int| 0 <= i < pads.len() ==> (#[trigger] pads[i]).serial != serial,
    ensures
        same_of(store.with_readings(before, pads, now), store, serial),
        store.with_readings(before, pads, now).last_tick == store.last_tick,
    decreases pads.len(),
{
    if pads.len() > 0 {
        let init = pads.drop_last();
        assert(pads[pads.len() - 1].serial != serial);
        assert forall|i: int| 0 <= i < init.len() implies (#[trigger] init[i]).serial != serial by {
            assert(init[i] == pads[i]);
        }
        lemma_readings_of_others(store, before, init, now, serial);
    }
}

/// Whether stored data changed has no bearing on what a reading does.
proof fn lemma_observed_dirty(
    p: PadView,
    dirty: bool,
    emulated: bool,
    was_present: bool,
    last_seen: Option<u64>,
    percent: u8,
    state: PowerState,
    now: u64,
)
    ensures
        ({
            let a = p.observed(emulated, was_present, last_seen, percent, state, now);
            let b = (PadView { dirty, ..p }).observed(
                emulated,
                was_present,
                last_seen,
                percent,
                state,
                now,
            );
            a.record == b.record && a.connected_at == b.connected_at && a.reconciled
                == b.reconciled
        }),
{
}

/// A reading does the same to a pad of which the same is known.
proof fn lemma_same_reading(
    a: StoreView,
    b: StoreView,
    was_present: bool,
    s: model::StatusView,
    now: u64,
)
    requires
        same_of(a, b, s.serial),
    ensures
        same_of(a.with_reading(was_present, s, now), b.with_reading(was_present, s, now), s.serial),
{
    let p = a.pad(s.serial, now);
    let q = b.pad(s.serial, now);
    assert(q == PadView { dirty: q.dirty, ..p });
    let last_seen = if a.records.dom().contains(s.serial) {
        Some(a.records[s.serial].last_seen)
    } else {
        None
    };
    lemma_observed_dirty(
        p,
        q.dirty,
        store::is_emulated(s.serial),
        was_present,
        last_seen,
        s.percent,
        s.state,
        now,
    );
}

proof fn lemma_other_reading(
    a: StoreView,
    was_present: bool,
    s: model::StatusView,
    now: u64,
    serial: Seq<char>,
)
    requires
        serial != s.serial,
    ensures
        same_of(a.with_reading(was_present, s, now), a, serial),
        a.with_reading(was_present, s, now).last_tick == a.last_tick,
{
}

proof fn lemma_readings(
    store: StoreView,
    before: Seq<model::StatusView>,
    pads: Seq<model::StatusView>,
    now: u64,
    i: int,
)
    requires
        0 <= i < pads.len(),
        forall|a: int, b: int|
            0 <= a < b < pads.len() ==> (#[trigger] pads[a]).serial != (#[trigger] pads[b]).serial,
    ensures
        same_of(
            store.with_readings(before, pads, now),
            store.with_reading(store::present(before, pads[i].serial), pads[i], now),
            pads[i].serial,
        ),
        store.with_readings(before, pads, now).last_tick == store.last_tick,
    decreases pads.len(),
{
    let init = pads.drop_last();
    let serial = pads[i].serial;
    if i == pads.len() - 1 {
        assert forall|k: int| 0 <= k < init.len() implies (#[trigger] init[k]).serial != serial by {
            assert(init[k] == pads[k]);
            assert(pads[k].serial != pads[i].serial);
        }
        lemma_readings_of_others(store, before, init, now, serial);
        let mid = store.with_readings(before, init, now);
        lemma_same_reading(mid, store, store::present(before, serial), pads[i], now);
    } else {
        assert(init[i] == pads[i]);
        assert forall|a: int, b: int| 0 <= a < b < init.len() implies (#[trigger] init[a]).serial
            != (#[trigger] init[b]).serial by {
            assert(init[a] == pads[a] && init[b] == pads[b]);
        }
        lemma_readings(store, before, init, now, i);
        let last = pads[pads.len() - 1];
        assert(pads[i].serial != last.serial);
        let mid = store.with_readings(before, init, now);
        lemma_other_reading(mid, store::present(before, last.serial), last, now, serial);
    }
}

proof fn lemma_capped_keeps(store: StoreView, keep: Set<Seq<char>>, serial: Seq<char>)
    ensures
        ({
            let after = store.capped(keep);
            &&& after.records.dom().contains(serial) ==> store.records.dom().contains(serial)
                && after.records[serial] == store.records[serial]
            &&& after.connected == store.connected
            &&& after.reconciled == store.reconciled
            &&& after.last_tick == store.last_tick
            &&& after.track_emulated == store.track_emulated
        }),
    decreases store.records.dom().len(),
{
    if store.records.dom().finite() && store.records.dom().len() > store::SERIAL_CAP {
        match store::oldest(
            store.records,
            crate::text_map::in_order(store.records.dom()),
            keep,
        ) {
            Some(k) => {
                if store.records.dom().contains(k) {
                    let next = StoreView { records: store.records.remove(k), dirty: true, ..store };
                    lemma_capped_keeps(next, keep, serial);
                }
            },
            None => {},
        }
    }
}

// ---------------------------------------------------------------------------
// Laws
// ---------------------------------------------------------------------------

/// Whether a pad has a window open at a percentage in a direction, past its connect grace, and
/// is learned from.
pub open spec fn runs(
    store: StoreView,
    serial: Seq<char>,
    direction: BucketDirection,
    percent: u8,
    now: u64,
) -> bool {
    &&& store.tracks(serial)
    &&& store.records.dom().contains(serial)
    &&& store.records[serial].in_progress matches Some(p) && p.direction == direction && p.percent
        == percent
    &&& store::is_emulated(serial) || !store.pad(serial, now).in_grace(now)
}

/// Power state of a battery that moves in a direction.
pub open spec fn state_of(direction: BucketDirection) -> PowerState {
    match direction {
        BucketDirection::Drain => PowerState::Discharging,
        BucketDirection::Charge => PowerState::Charging,
    }
}

/// Active time of a pad's window.
pub open spec fn active(store: StoreView, serial: Seq<char>) -> u64 {
    store.records[serial].in_progress->0.active_ms
}

/// A poll that finds a pad unmoved adds the time since the last poll to its window, if that was
/// at most 150 seconds ago; after a longer gap it adds nothing. What was learned stays, and the
/// window goes on.
pub proof fn law_poll_adds_the_time_since_the_last(
    store: StoreView,
    before: Seq<model::StatusView>,
    poll: Poll,
    keep: Set<Seq<char>>,
    serial: Seq<char>,
    direction: BucketDirection,
    percent: u8,
    last: u64,
)
    requires
        store.last_tick == Some(last),
        last <= poll.at,
        runs(store, serial, direction, percent, poll.at),
        store::present(before, serial),
        shows(poll.pads, serial, percent, state_of(direction)),
        active(store, serial) + (poll.at - last) <= u64::MAX,
        store.observed(before, poll.pads, keep, poll.at).records.dom().contains(serial),
    ensures
        ({
            let after = store.observed(before, poll.pads, keep, poll.at);
            let gap = poll.at - last;
            &&& active(after, serial) == active(store, serial) + (if gap <= 150000 {
                gap
            } else {
                0
            })
            &&& after.last_tick == Some(poll.at)
            &&& after.records[serial].drain == store.records[serial].drain
            &&& after.records[serial].charge == store.records[serial].charge
            &&& forall|now: u64|
                now >= poll.at ==> #[trigger] runs(after, serial, direction, percent, now)
        }),
{
    let pads = poll.pads;
    let now = poll.at;
    let i = choose|i: int|
        0 <= i < pads.len() && (#[trigger] pads[i]).serial == serial && pads[i].percent == percent
            && pads[i].state == state_of(direction);
    let gap = store::since(now, last);
    let s0 = StoreView { last_tick: Some(now), ..store };
    let s1 = if 0 < gap <= store::HEARTBEAT_MAX_GAP_MS {
        s0.with_heartbeats(pads, gap as u64, now)
    } else {
        s0
    };
    lemma_heartbeats(s0, pads, gap as u64, now, i);
    assert(store::present(pads, serial)) by {
        assert(pads[i].serial == serial);
    }
    let s2 = s1.with_absences(before, pads, now);
    lemma_absences(s1, before, pads, now, serial);
    let s3 = s2.with_readings(before, pads, now);
    lemma_readings(s2, before, pads, now, i);
    let s4 = s3.without_stale(now, keep);
    lemma_capped_keeps(s4, keep, serial);
    let after = store.observed(before, pads, keep, now);
    assert(after == s4.capped(keep));
    assert(s2.tracks(serial));
    let p = s2.pad(serial, now);
    assert(p.record == s2.records[serial]);
    assert(p.connected_at == store.pad(serial, now).connected_at);
    assert(s3.records[serial].in_progress == s2.records[serial].in_progress);
    assert forall|later: u64| later >= now implies #[trigger] runs(
        after,
        serial,
        direction,
        percent,
        later,
    ) by {
        assert(after.pad(serial, later).connected_at == store.pad(serial, now).connected_at);
    }
}

/// Over polls that find a pad unmoved, none more than 150 seconds after the one before, the
/// active time of its window grows by exactly the time that passed, and nothing is learned yet.
pub proof fn law_active_time_is_time_that_passed(
    store: StoreView,
    before: Seq<model::StatusView>,
    polls: Seq<Poll>,
    keep: Set<Seq<char>>,
    serial: Seq<char>,
    direction: BucketDirection,
    percent: u8,
    first: u64,
)
    requires
        polls.len() > 0,
        store.last_tick == Some(first),
        runs(store, serial, direction, percent, first),
        store::present(before, serial),
        forall|k: int|
            0 <= k < polls.len() ==> shows(
                (#[trigger] polls[k]).pads,
                serial,
                percent,
                state_of(direction),
            ) && 0 <= polls[k].at - (if k == 0 {
                first
            } else {
                polls[k - 1].at
            }) <= 150000,
        forall|k: int|
            0 <= k <= polls.len() ==> (#[trigger] polled(
                store,
                before,
                polls.take(k),
                keep,
            )).records.dom().contains(serial),
        active(store, serial) + (polls.last().at - first) <= u64::MAX,
    ensures
        ({
            let after = polled(store, before, polls, keep);
            &&& active(after, serial) == active(store, serial) + (polls.last().at - first)
            &&& runs(after, serial, direction, percent, polls.last().at)
            &&& after.last_tick == Some(polls.last().at)
            &&& after.records[serial].drain == store.records[serial].drain
            &&& after.records[serial].charge == store.records[serial].charge
            &&& first <= polls.last().at
        }),
    decreases polls.len(),
{
    let n = polls.len() as int;
    let init = polls.drop_last();
    let poll = polls.last();
    assert(polls[n - 1] == poll);
    assert(polls.take(n) =~= polls);
    assert(polls.take(n - 1) =~= init);
    assert(polled(store, before, polls.take(n), keep).records.dom().contains(serial));
    if n == 1 {
        assert(init =~= Seq::<Poll>::empty());
        assert(polled(store, before, init, keep) == store);
        lemma_runs_later(store, serial, direction, percent, first, poll.at);
        law_poll_adds_the_time_since_the_last(
            store,
            before,
            poll,
            keep,
            serial,
            direction,
            percent,
            first,
        );
    } else {
        assert forall|k: int| 0 <= k < init.len() implies shows(
            (#[trigger] init[k]).pads,
            serial,
            percent,
            state_of(direction),
        ) && 0 <= init[k].at - (if k == 0 {
            first
        } else {
            init[k - 1].at
        }) <= 150000 by {
            assert(init[k] == polls[k]);
        }
        assert forall|k: int| 0 <= k <= init.len() implies (#[trigger] polled(
            store,
            before,
            init.take(k),
            keep,
        )).records.dom().contains(serial) by {
            assert(init.take(k) =~= polls.take(k));
        }
        assert(polls[n - 2] == init.last());
        law_active_time_is_time_that_passed(
            store,
            before,
            init,
            keep,
            serial,
            direction,
            percent,
            first,
        );
        let mid = polled(store, before, init, keep);
        lemma_runs_later(mid, serial, direction, percent, init.last().at, poll.at);
        let prior = pads_before(before, polls, n - 1);
        assert(shows(polls[n - 2].pads, serial, percent, state_of(direction)));
        assert(store::present(prior, serial)) by {
            let i = choose|i: int|
                0 <= i < prior.len() && (#[trigger] prior[i]).serial == serial && prior[i].percent
                    == percent && prior[i].state == state_of(direction);
            assert(prior[i].serial == serial);
        }
        law_poll_adds_the_time_since_the_last(
            mid,
            prior,
            poll,
            keep,
            serial,
            direction,
            percent,
            init.last().at,
        );
    }
}

proof fn lemma_runs_later(
    store: StoreView,
    serial: Seq<char>,
    direction: BucketDirection,
    percent: u8,
    now: u64,
    later: u64,
)
    requires
        runs(store, serial, direction, percent, now),
        now <= later,
    ensures
        runs(store, serial, direction, percent, later),
{
}

/// A move by one level learns the active time of the window as the newest sample of that step,
/// if it lasted between one minute and six hours, and learns nothing otherwise. No other step
/// changes, in either direction, and the next window begins at zero.
pub proof fn law_move_learns_the_active_time(
    pad: PadView,
    emulated: bool,
    direction: BucketDirection,
    i: int,
    now: u64,
    other: BucketDirection,
    a: u8,
    b: u8,
)
    requires
        0 <= i < 10,
        pad.record.in_progress matches Some(p) && p.direction == direction && p.percent
            == es::level_along(direction, i),
        emulated || (pad.reconciled && !pad.in_grace(now)),
    ensures
        ({
            let from = es::level_along(direction, i);
            let to = es::level_along(direction, i + 1);
            let time = pad.record.in_progress->0.active_ms;
            let next = pad.observed(emulated, true, None, to, state_of(direction), now);
            let old = averages::samples_of(averages::steps_of(pad.record, direction), from, to);
            let new = averages::samples_of(averages::steps_of(next.record, direction), from, to);
            &&& next.record.in_progress == Some(
                InProgressBucket { direction, percent: to, active_ms: 0 },
            )
            &&& if 60000 <= time < 21601000 {
                new.len() > 0 && new.last() == time && new.len() == (if old.len() >= 3 {
                    3
                } else {
                    old.len() + 1
                })
            } else {
                new == old
            }
            &&& !(other == direction && a == from && b == to) ==> averages::samples_of(
                averages::steps_of(next.record, other),
                a,
                b,
            ) == averages::samples_of(averages::steps_of(pad.record, other), a, b)
        }),
{
    let from = es::level_along(direction, i);
    let to = es::level_along(direction, i + 1);
    let time = pad.record.in_progress->0.active_ms;
    averages::law_levels_go_from_full_to_empty(i);
    averages::law_levels_go_from_full_to_empty(i + 1);
    averages::law_moves_pass_the_levels_between(direction, i, i + 1);
    let path = es::passed_edges(direction, from, to);
    assert(path.len() == 1 && path[0] == (from, to));
    let steps = averages::steps_of(pad.record, direction);
    averages::law_sample_joins_its_edge(steps, from, to, time, a, b);
}

/// A window that is turned around (the pad was plugged in or unplugged) or that moves back
/// learns nothing and begins anew.
pub proof fn law_turned_window_learns_nothing(
    pad: PadView,
    emulated: bool,
    direction: BucketDirection,
    percent: u8,
    now: u64,
)
    requires
        pad.record.in_progress matches Some(p) && (p.direction != direction || (match direction {
            BucketDirection::Drain => percent > p.percent,
            BucketDirection::Charge => percent < p.percent,
        })),
        emulated || !pad.in_grace(now),
    ensures
        ({
            let next = pad.observed(emulated, true, None, percent, state_of(direction), now);
            &&& next.record.drain == pad.record.drain
            &&& next.record.charge == pad.record.charge
            &&& next.record.in_progress == Some(
                InProgressBucket { direction, percent, active_ms: 0 },
            )
        }),
{
}

/// A charge that ends learns its last step up to full, and closes the window.
pub proof fn law_finished_charge_learns_its_last_step(
    pad: PadView,
    emulated: bool,
    percent: u8,
    now: u64,
)
    requires
        pad.record.in_progress matches Some(p) && p.direction == BucketDirection::Charge
            && p.percent == 95 && 60000 <= p.active_ms < 21601000,
        emulated || (pad.reconciled && !pad.in_grace(now)),
    ensures
        ({
            let next = pad.observed(emulated, true, None, percent, PowerState::Complete, now);
            let new = averages::samples_of(next.record.charge, 95, 100);
            &&& next.record.in_progress is None
            &&& new.len() > 0
            &&& new.last() == pad.record.in_progress->0.active_ms
            &&& next.record.drain == pad.record.drain
        }),
{
    averages::law_levels_go_from_full_to_empty(9);
    averages::law_levels_go_from_full_to_empty(10);
    averages::law_moves_pass_the_levels_between(BucketDirection::Charge, 9, 10);
    let path = es::passed_edges(BucketDirection::Charge, 95, 100);
    assert(es::level_along(BucketDirection::Charge, 9) == 95);
    assert(path.len() == 1 && path[0] == (95u8, 100u8));
    averages::law_sample_joins_its_edge(
        pad.record.charge,
        95,
        100,
        pad.record.in_progress->0.active_ms,
        0,
        0,
    );
}

/// A pad that is gone keeps its window and what it learned: absence adds no time.
pub proof fn law_absence_adds_no_time(
    store: StoreView,
    before: Seq<model::StatusView>,
    pads: Seq<model::StatusView>,
    keep: Set<Seq<char>>,
    now: u64,
    serial: Seq<char>,
)
    requires
        store.records.dom().contains(serial),
        !store::present(pads, serial),
        store.observed(before, pads, keep, now).records.dom().contains(serial),
    ensures
        ({
            let r = store.observed(before, pads, keep, now).records[serial];
            &&& r.in_progress == store.records[serial].in_progress
            &&& r.drain == store.records[serial].drain
            &&& r.charge == store.records[serial].charge
        }),
{
    let gap = match store.last_tick {
        Some(t) => store::since(now, t),
        None => 0,
    };
    assert forall|i: int| 0 <= i < pads.len() implies (#[trigger] pads[i]).serial != serial by {
        if pads[i].serial == serial {
            assert(store::present(pads, serial));
        }
    }
    let s0 = StoreView { last_tick: Some(now), ..store };
    let s1 = if 0 < gap <= store::HEARTBEAT_MAX_GAP_MS {
        s0.with_heartbeats(pads, gap as u64, now)
    } else {
        s0
    };
    lemma_heartbeats_of_others(s0, pads, gap as u64, now, serial);
    let s2 = s1.with_absences(before, pads, now);
    lemma_absences_keep(s1, before, pads, now, serial);
    let s3 = s2.with_readings(before, pads, now);
    lemma_readings_of_others(s2, before, pads, now, serial);
    lemma_capped_keeps(s3.without_stale(now, keep), keep, serial);
}

proof fn lemma_absences_keep(
    store: StoreView,
    before: Seq<model::StatusView>,
    pads: Seq<model::StatusView>,
    now: u64,
    serial: Seq<char>,
)
    requires
        store.records.dom().contains(serial),
    ensures
        ({
            let after = store.with_absences(before, pads, now);
            &&& after.records.dom().contains(serial)
            &&& after.records[serial].in_progress == store.records[serial].in_progress
            &&& after.records[serial].drain == store.records[serial].drain
            &&& after.records[serial].charge == store.records[serial].charge
        }),
    decreases before.len(),
{
    if before.len() > 0 {
        lemma_absences_keep(store, before.drop_last(), pads, now, serial);
    }
}

/// For half an hour after a connect nothing is learned: a pad that was away for more than 150
/// seconds, or was never seen, begins that time anew.
pub proof fn law_nothing_is_learned_for_half_an_hour(
    pad: PadView,
    last_seen: Option<u64>,
    percent: u8,
    state: PowerState,
    at: u64,
    later_percent: u8,
    later_state: PowerState,
    later: u64,
)
    requires
        last_seen matches Some(t) ==> at - t > 150000,
        at <= later < at + 1800000,
    ensures
        ({
            let first = pad.observed(false, false, last_seen, percent, state, at);
            let next = first.observed(false, true, Some(at), later_percent, later_state, later);
            &&& next.record.drain == pad.record.drain
            &&& next.record.charge == pad.record.charge
            &&& next.record.in_progress is None
        }),
{
}

proof fn lemma_shared_samples(
    steps: Seq<es::StepView>,
    path: Seq<(u8, u8)>,
    duration: u64,
    a: u8,
    b: u8,
)
    ensures
        ({
            let next = averages::samples_of(store::with_samples(steps, path, duration), a, b);
            &&& path.contains((a, b)) ==> next.len() > 0 && next.last() == duration
            &&& !path.contains((a, b)) ==> next == averages::samples_of(steps, a, b)
        }),
    decreases path.len(),
{
    if path.len() > 0 {
        let init = path.drop_last();
        let e = path.last();
        lemma_shared_samples(steps, init, duration, a, b);
        averages::law_sample_joins_its_edge(
            store::with_samples(steps, init, duration),
            e.0,
            e.1,
            duration,
            a,
            b,
        );
        assert(path.contains((a, b)) <==> init.contains((a, b)) || e == (a, b)) by {
            if path.contains((a, b)) {
                let k = choose|k: int| 0 <= k < path.len() && path[k] == (a, b);
                if k < init.len() {
                    assert(init[k] == (a, b));
                }
            }
            if init.contains((a, b)) {
                let k = choose|k: int| 0 <= k < init.len() && init[k] == (a, b);
                assert(path[k] == (a, b));
            }
            if e == (a, b) {
                assert(path[path.len() - 1] == (a, b));
            }
        }
    }
}

/// A jump over several levels shares its time out evenly over the steps that it passed, unless
/// that leaves less than a minute for each; then it teaches nothing. Steps off the way do not
/// change.
pub proof fn law_jump_is_shared_out(
    pad: PadView,
    emulated: bool,
    direction: BucketDirection,
    i: int,
    j: int,
    now: u64,
    a: u8,
    b: u8,
)
    requires
        0 <= i,
        i + 2 <= j <= 10,
        pad.record.in_progress matches Some(p) && p.direction == direction && p.percent
            == es::level_along(direction, i) && 60000 <= p.active_ms < 21601000,
        emulated || (pad.reconciled && !pad.in_grace(now)),
    ensures
        ({
            let to = es::level_along(direction, j);
            let share = pad.record.in_progress->0.active_ms as int / (j - i);
            let next = pad.observed(emulated, true, None, to, state_of(direction), now);
            let old = averages::samples_of(averages::steps_of(pad.record, direction), a, b);
            let new = averages::samples_of(averages::steps_of(next.record, direction), a, b);
            let passed = exists|k: int|
                i <= k < j && #[trigger] es::level_along(direction, k) == a && es::level_along(
                    direction,
                    k + 1,
                ) == b;
            if passed && share >= 60000 {
                new.len() > 0 && new.last() == share
            } else {
                new == old
            }
        }),
{
    let from = es::level_along(direction, i);
    let to = es::level_along(direction, j);
    averages::law_moves_pass_the_levels_between(direction, i, j);
    averages::lemma_edges_between(direction, i, j);
    let path = es::passed_edges(direction, from, to);
    let time = pad.record.in_progress->0.active_ms;
    let share = (time as int / (j - i)) as u64;
    assert(time as int / (j - i) <= time) by (nonlinear_arith)
        requires
            j - i >= 2,
            time >= 0,
    ;
    assert(time as int / (j - i) >= 0) by (nonlinear_arith)
        requires
            j - i >= 2,
            time >= 0,
    ;
    lemma_shared_samples(averages::steps_of(pad.record, direction), path, share, a, b);
    assert(path.contains((a, b)) <==> exists|k: int|
        i <= k < j && #[trigger] es::level_along(direction, k) == a && es::level_along(
            direction,
            k + 1,
        ) == b) by {
        if path.contains((a, b)) {
            let k = choose|k: int| 0 <= k < path.len() && path[k] == (a, b);
            assert(es::level_along(direction, i + k) == a);
        }
        if exists|k: int|
            i <= k < j && #[trigger] es::level_along(direction, k) == a && es::level_along(
                direction,
                k + 1,
            ) == b {
            let k = choose|k: int|
                i <= k < j && #[trigger] es::level_along(direction, k) == a && es::level_along(
                    direction,
                    k + 1,
                ) == b;
            assert(path[k - i] == (a, b));
        }
    }
    averages::lemma_levels_move_on(direction, i, j);
}

/// Any call that takes a poll in adds, for a pad that did not move, the time since the last poll
/// to its window, up to 150 seconds; with learning switched off it changes nothing.
pub proof fn law_calls_add_the_time_that_passed(
    analytics: &mut store::AnalyticsStore,
    before: &[model::ControllerStatus],
    pads: &[model::ControllerStatus],
    enabled: bool,
    keep: &TextSet,
    now: u64,
    serial: Seq<char>,
    direction: BucketDirection,
    percent: u8,
    last: u64,
)
    requires
        call_ensures(
            store::AnalyticsStore::observe,
            (analytics, before, pads, enabled, keep, now),
            (),
        ),
        old(analytics)@.last_tick == Some(last),
        last <= now,
        runs(old(analytics)@, serial, direction, percent, now),
        store::present(model::statuses(before@), serial),
        shows(model::statuses(pads@), serial, percent, state_of(direction)),
        active(old(analytics)@, serial) + (now - last) <= u64::MAX,
        final(analytics)@.records.dom().contains(serial),
    ensures
        enabled ==> active(final(analytics)@, serial) == active(old(analytics)@, serial) + (if now
            - last <= 150000 {
            now - last
        } else {
            0
        }),
        enabled ==> final(analytics)@.last_tick == Some(now),
        !enabled ==> final(analytics)@ == old(analytics)@,
{
    if enabled {
        law_poll_adds_the_time_since_the_last(
            old(analytics)@,
            model::statuses(before@),
            Poll { pads: model::statuses(pads@), at: now },
            keep@,
            serial,
            direction,
            percent,
            last,
        );
    }
}

/// A pad that is full without having charged teaches nothing: a drain is no charge, and a charge
/// that was full already has no step left. The window is closed all the same.
pub proof fn law_full_pad_that_did_not_charge_teaches_nothing(
    pad: PadView,
    emulated: bool,
    percent: u8,
    now: u64,
)
    requires
        pad.record.in_progress matches Some(p) ==> p.direction == BucketDirection::Drain
            || p.percent >= 100,
        emulated || (pad.reconciled && !pad.in_grace(now)),
    ensures
        ({
            let next = pad.observed(emulated, true, None, percent, PowerState::Complete, now);
            &&& next.record.drain == pad.record.drain
            &&& next.record.charge == pad.record.charge
            &&& next.record.in_progress is None
        }),
{
}

} // verus!
