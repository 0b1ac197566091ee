//! Laws on what analytics show and keep: hints, labels, coverage, and which pads are dropped.
use crate::analytics::estimate as es;
use crate::analytics::estimate::{BucketDirection, EtaHint};
use crate::analytics::store;
use crate::analytics::store::{PadView, RecordView, StoreView};
use crate::controller::model;
use crate::controller::model::PowerState;
use crate::text;
use vstd::prelude::*;

verus! {

// ---------------------------------------------------------------------------
// Hints
// ---------------------------------------------------------------------------

/// A pad that runs on its battery is told the play time left, one that charges the time to full,
/// any other nothing; a pad that is not connected is told the play time left. Without a record
/// nothing is told.
pub proof fn law_hint_follows_the_state(
    records: Map<Seq<char>, RecordView>,
    s: model::StatusView,
)
    ensures
        ({
            let known = records.dom().contains(s.serial);
            let r = records[s.serial];
            let h = store::live_hint(records, s);
            &&& !known ==> h is None && store::idle_hint(records, s.serial, s.percent) is None
            &&& known && s.state == PowerState::Discharging ==> (match store::eta(
                r,
                BucketDirection::Drain,
                s.percent,
            ) {
                Some(ms) => h == Some(EtaHint::PlayLeft(ms)),
                None => h is None,
            })
            &&& known && s.state == PowerState::Charging ==> (match store::eta(
                r,
                BucketDirection::Charge,
                s.percent,
            ) {
                Some(ms) => h == Some(EtaHint::ChargeToFull(ms)),
                None => h is None,
            })
            &&& s.state != PowerState::Discharging && s.state != PowerState::Charging ==> h is None
            &&& s.state == PowerState::Discharging ==> h == store::idle_hint(
                records,
                s.serial,
                s.percent,
            )
        }),
{
}

/// An estimate starts at the first level ahead: draining at the highest level that is not above
/// the charge, charging at the lowest that is not below it. It goes on to empty or to full, and
/// there is none where the pad is there already.
pub proof fn law_estimate_starts_at_the_next_level(direction: BucketDirection, current: u8)
    requires
        current <= 100,
    ensures
        ({
            let path = es::edges_from(direction, current);
            let drains = direction == BucketDirection::Drain;
            &&& path is None <==> (drains && current < 15) || (!drains && current > 95)
            &&& path matches Some(p) ==> {
                &&& p.len() > 0
                &&& drains ==> p[0].0 <= current && (current < 100 ==> current < p[0].0 + 10)
                    && p.last().1 == 5
                &&& !drains ==> p[0].0 >= current && (p[0].0 > 5 ==> p[0].0 < current + 10)
                    && p.last().1 == 100
            }
        }),
{
    lemma_first_ahead(direction, current, 0);
}

proof fn lemma_first_ahead(direction: BucketDirection, current: u8, i: int)
    requires
        0 <= i <= 11,
        forall|k: int|
            0 <= k < i ==> !es::ahead(direction, #[trigger] es::level_along(direction, k), current),
    ensures
        ({
            let f = es::first_ahead(direction, current, i);
            &&& i <= f <= 11
            &&& f <= 10 ==> es::ahead(direction, es::level_along(direction, f), current)
            &&& forall|k: int|
                0 <= k < f ==> !es::ahead(
                    direction,
                    #[trigger] es::level_along(direction, k),
                    current,
                )
            &&& f > 0 ==> !es::ahead(direction, es::level_along(direction, f - 1), current)
        }),
    decreases 11 - i,
{
    if i <= 10 && !es::ahead(direction, es::level_along(direction, i), current) {
        lemma_first_ahead(direction, current, i + 1);
    } else if i > 0 {
        assert(!es::ahead(direction, es::level_along(direction, i - 1), current));
    }
}

/// The usual rate is the median over the steps that were measured, each taken per percent; the
/// short step between 95 and 100 does not count.
pub proof fn law_every_measured_step_counts(steps: Seq<es::StepView>, s: es::StepView)
    ensures
        es::rates(Seq::empty()).len() == 0,
        ({
            let width: int = if s.from >= s.to {
                s.from - s.to
            } else {
                s.to - s.from
            };
            let short = (s.from == 100 && s.to == 95) || (s.from == 95 && s.to == 100);
            es::rates(steps.push(s)) == es::rates(steps) + (if !short && width > 0 && s.samples.len()
                > 0 {
                seq![(es::median(s.samples)->0 as int / width) as u64]
            } else {
                seq![]
            })
        }),
        es::default_rate(steps) == es::median(es::rates(steps)),
{
    assert(steps.push(s).drop_last() == steps);
    let rest = es::rates(steps);
    assert(rest + Seq::<u64>::empty() == rest);
    assert(forall|x: u64| #[trigger] rest.push(x) == rest + seq![x]);
}

/// The panel shows each step of the way: its median where it was measured, and otherwise whether
/// a usual rate can stand in for it.
pub proof fn law_panel_shows_each_step(
    steps: Seq<es::StepView>,
    direction: BucketDirection,
    i: int,
)
    requires
        0 <= i < 10,
    ensures
        ({
            let c = es::coverage(steps, es::all_edges(direction));
            let m = es::edge_median(
                steps,
                es::level_along(direction, i),
                es::level_along(direction, i + 1),
            );
            &&& c.len() == 10
            &&& c[i].from_percent == es::level_along(direction, i)
            &&& c[i].to_percent == es::level_along(direction, i + 1)
            &&& c[i].typical_ms == m
            &&& c[i].speculative <==> m is None && es::default_rate(steps) is Some
        }),
{
}

/// The panel has a row for each pad of which something was learned or is under way, in the order
/// of the keys.
pub proof fn law_panel_lists_what_was_learned(
    records: Map<Seq<char>, RecordView>,
    keys: Seq<Seq<char>>,
    key: Seq<char>,
)
    ensures
        store::rows(records, Seq::empty()).len() == 0,
        ({
            let r = records[key];
            let blank = r.drain.len() == 0 && r.charge.len() == 0 && r.in_progress is None;
            let more = store::rows(records, keys.push(key));
            &&& blank ==> more == store::rows(records, keys)
            &&& !blank ==> more.drop_last() == store::rows(records, keys) && more.last().serial
                == key && more.last().typical_play == store::typical(r, BucketDirection::Drain)
                && more.last().typical_charge == store::typical(r, BucketDirection::Charge)
        }),
{
    assert(keys.push(key).drop_last() == keys);
    let rest = store::rows(records, keys);
    assert(rest.push(store::row_of(key, records[key])).drop_last() == rest);
}

// ---------------------------------------------------------------------------
// Labels
// ---------------------------------------------------------------------------

/// A time is labelled in hours and minutes that make it up, without a part that is zero; under
/// five minutes it is said to be so.
pub proof fn law_label_says_hours_and_minutes(h: nat, m: nat)
    requires
        m < 60,
    ensures
        h > 0 && m > 0 ==> es::minutes_label((60 * h + m) as int) == "~"@ + text::dec(h) + "h "@ + text::dec(
            m,
        ) + "m"@,
        h > 0 && m == 0 ==> es::minutes_label((60 * h + m) as int) == "~"@ + text::dec(h) + "h"@,
        h == 0 && m > 0 ==> es::minutes_label((60 * h + m) as int) == "~"@ + text::dec(m) + "m"@,
        es::minutes_label(0) == "~<5m"@,
{
    let t = 60 * h + m;
    assert(t as int / 60 == h as int && t as int % 60 == m as int);
}

/// A label is of whole minutes: 60000 ms each, the rest left out.
pub proof fn law_label_takes_whole_minutes(mins: nat, rest: nat)
    requires
        rest < 60000,
        60000 * mins + rest <= u64::MAX,
    ensures
        es::duration_label((60000 * mins + rest) as u64) == es::minutes_label(
            es::floored(mins as int),
        ),
{
    assert((60000 * mins + rest) as int / 60000 == mins as int);
}

// ---------------------------------------------------------------------------
// Which pads are kept
// ---------------------------------------------------------------------------

/// A pad that was not seen for more than 180 days is dropped, unless it is to be kept; what stays
/// stays as it was.
pub proof fn law_pads_unseen_for_half_a_year_are_dropped(
    s: StoreView,
    now: u64,
    keep: Set<Seq<char>>,
    k: Seq<char>,
)
    requires
        s.records.dom().contains(k),
        s.records[k].last_seen <= now,
    ensures
        ({
            let t = s.without_stale(now, keep);
            &&& t.records.dom().contains(k) <==> keep.contains(k) || now - s.records[k].last_seen
                <= 180 * 24 * 3600 * 1000
            &&& t.records.dom().contains(k) ==> t.records[k] == s.records[k]
        }),
{
}

/// The pad that goes first is one that is not to be kept and was seen no later than any other
/// such pad.
pub proof fn law_oldest_pad_goes_first(
    records: Map<Seq<char>, RecordView>,
    keys: Seq<Seq<char>>,
    keep: Set<Seq<char>>,
)
    ensures
        match store::oldest(records, keys, keep) {
            Some(k) => keys.contains(k) && !keep.contains(k) && forall|i: int|
                0 <= i < keys.len() && !keep.contains(#[trigger] keys[i])
                    ==> records[k].last_seen <= records[keys[i]].last_seen,
            None => forall|i: int| 0 <= i < keys.len() ==> keep.contains(#[trigger] keys[i]),
        },
    decreases keys.len(),
{
    if keys.len() > 0 {
        let init = keys.drop_last();
        law_oldest_pad_goes_first(records, init, keep);
        let n = keys.len() - 1;
        assert(keys[n] == keys.last());
        match store::oldest(records, init, keep) {
            Some(b) => {
                let j = choose|j: int| 0 <= j < init.len() && init[j] == b;
                assert(keys[j] == b);
            },
            None => {},
        }
        assert forall|i: int| 0 <= i < n implies keys[i] == #[trigger] init[i] by {}
        match store::oldest(records, keys, keep) {
            Some(k) => {
                assert forall|i: int|
                    0 <= i < keys.len() && !keep.contains(#[trigger] keys[i]) implies records[k].last_seen
                    <= records[keys[i]].last_seen by {
                    if i < n {
                        assert(init[i] == keys[i]);
                    }
                }
            },
            None => {
                assert forall|i: int| 0 <= i < keys.len() implies keep.contains(
                    #[trigger] keys[i],
                ) by {
                    if i < n {
                        assert(init[i] == keys[i]);
                    }
                }
            },
        }
    }
}

/// More than 32 pads are kept only where all of them are to be kept.
pub proof fn law_at_most_32_pads_are_kept(s: StoreView, now: u64, keep: Set<Seq<char>>)
    requires
        s.records.dom().finite(),
    ensures
        ({
            let t = s.pruned(now, keep);
            t.records.dom().len() <= 32 || forall|k: Seq<char>| #[trigger]
                t.records.dom().contains(k) ==> keep.contains(k)
        }),
{
    store::law_prune(s, now, keep);
}

// ---------------------------------------------------------------------------
// Connects
// ---------------------------------------------------------------------------

/// A pad that is back within 150 seconds goes on as it was; one that was away longer, or is new,
/// begins anew with nothing under way.
pub proof fn law_brief_absence_goes_on(pad: PadView, last: u64, now: u64)
    requires
        last <= now,
    ensures
        pad.connected_at is Some && now - last <= 150000 ==> pad.connected(now, Some(last)) == pad,
        now - last > 150000 ==> {
            let p = pad.connected(now, Some(last));
            &&& p.connected_at == Some(now)
            &&& !p.reconciled
            &&& p.record.in_progress is None
            &&& p.record.drain == pad.record.drain && p.record.charge == pad.record.charge
        },
        pad.connected(now, None).connected_at == Some(now),
        pad.connected(now, None).record.in_progress is None,
{
}

/// The first half hour behind a connect is grace.
pub proof fn law_grace_lasts_half_an_hour(pad: PadView, begun: u64, now: u64)
    requires
        pad.connected_at == Some(begun),
        begun <= now,
    ensures
        pad.in_grace(now) <==> now - begun < 30 * 60 * 1000,
{
}

/// Only pads with an identity are learned from, and developer pads only where that was asked for.
pub proof fn law_real_pads_are_learned_from(s: StoreView, serial: Seq<char>)
    ensures
        s.tracks(serial) <==> serial.len() > 0 && serial != "unknown"@ && (s.track_emulated
            || !text::begins(serial, "emu-"@)),
{
}

/// A pad whose samples or window a reading changed is to be saved, and so is one that was to be
/// saved before.
pub proof fn law_changed_pad_is_saved(
    pad: PadView,
    emulated: bool,
    was_present: bool,
    last_seen: Option<u64>,
    percent: u8,
    state: PowerState,
    now: u64,
)
    ensures
        ({
            let next = pad.observed(emulated, was_present, last_seen, percent, state, now);
            &&& pad.dirty ==> next.dirty
            &&& next.record.drain != pad.record.drain || next.record.charge != pad.record.charge
                || next.record.in_progress != pad.record.in_progress ==> next.dirty
        }),
{
}

/// Seeding estimates of a pad that is tracked knows every step both ways, and is to be saved.
pub proof fn law_seeded_pad_is_saved(s: StoreView, serial: Seq<char>, now: u64)
    ensures
        s.tracks(serial) ==> s.dev_seeded(serial, now).dirty && s.dev_seeded(
            serial,
            now,
        ).records.dom().contains(serial),
        !s.tracks(serial) ==> s.dev_seeded(serial, now) == s,
{
}

} // verus!
