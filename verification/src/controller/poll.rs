//! One poll of the connected pads: which are kept, in what order, and which lightbars
//! are claimed afresh. Also the cadence of presence, battery and liveness checks.
use crate::controller::battery;
use crate::controller::identity;
use crate::controller::lightbar;
use crate::controller::lightbar::LightbarState;
use crate::controller::model;
use crate::controller::model::ControllerStatus;
use crate::text;
use vstd::prelude::*;

verus! {

/// How often to scan for connects/disconnects when pads are already known (ms).
pub const PRESENCE_INTERVAL_MS: u64 = 3000;

/// Faster presence scan while the tray is empty (ms).
pub const PRESENCE_INTERVAL_EMPTY_MS: u64 = 500;

/// How often to re-read battery / lightbar when membership is stable (ms).
pub const BATTERY_INTERVAL_MS: u64 = 60000;

/// While pads are shown, re-probe often so that a powered-off pad that lingers in the
/// HID list is dropped quickly, and a lightbar that another writer overwrote is set again (ms).
pub const LIVENESS_INTERVAL_MS: u64 = 5000;

/// When pads are listed but battery reads keep failing, retry sooner (ms).
pub const UNREAD_RETRY_INTERVAL_MS: u64 = 15000;

// ---------------------------------------------------------------------------
// Order
// ---------------------------------------------------------------------------

/// `order` with the pad at `x` put behind every pad whose serial is not above its own.
pub open spec fn insert_by_serial(
    s: Seq<model::StatusView>,
    order: Seq<int>,
    x: int,
) -> Seq<int>
    decreases order.len(),
{
    if order.len() == 0 || !text::text_lt(s[x].serial, s[order.last()].serial) {
        order.push(x)
    } else {
        insert_by_serial(s, order.drop_last(), x).push(order.last())
    }
}

/// Positions `at` in ascending order of the serials, equal serials in their old order.
pub open spec fn by_serial(s: Seq<model::StatusView>, at: Seq<int>) -> Seq<int>
    decreases at.len(),
{
    if at.len() == 0 {
        seq![]
    } else {
        insert_by_serial(s, by_serial(s, at.drop_last()), at.last())
    }
}

/// Whether serials ascend along `order`.
pub open spec fn serials_ascend(s: Seq<model::StatusView>, order: Seq<int>) -> bool {
    forall|i: int, j: int|
        0 <= i < j < order.len() ==> !text::text_lt(
            #[trigger] battery::kept_serial(s, order, j),
            #[trigger] battery::kept_serial(s, order, i),
        )
}

proof fn lemma_insert_by_serial(s: Seq<model::StatusView>, order: Seq<int>, x: int)
    requires
        serials_ascend(s, order),
    ensures
        insert_by_serial(s, order, x).len() == order.len() + 1,
        insert_by_serial(s, order, x).to_multiset() == order.to_multiset().insert(x),
        serials_ascend(s, insert_by_serial(s, order, x)),
        forall|i: int|
            0 <= i < insert_by_serial(s, order, x).len() ==> insert_by_serial(s, order, x)[i] == x
                || order.contains(#[trigger] insert_by_serial(s, order, x)[i]),
    decreases order.len(),
{
    let r = insert_by_serial(s, order, x);
    let xs = s[x].serial;
    if order.len() == 0 || !text::text_lt(xs, s[order.last()].serial) {
        vstd::seq_lib::to_multiset_build(order, x);
        assert forall|i: int, j: int| 0 <= i < j < r.len() implies !text::text_lt(
            #[trigger] battery::kept_serial(s, r, j),
            #[trigger] battery::kept_serial(s, r, i),
        ) by {
            assert(battery::kept_serial(s, r, i) == battery::kept_serial(s, order, i));
            if j < order.len() {
                assert(battery::kept_serial(s, r, j) == battery::kept_serial(s, order, j));
            } else {
                let last = order.len() - 1;
                let li = battery::kept_serial(s, order, i);
                let ll = battery::kept_serial(s, order, last);
                assert(ll == s[order.last()].serial);
                if i < last {
                    assert(!text::text_lt(ll, li));
                }
                if text::text_lt(xs, li) {
                    text::lemma_text_lt_total(ll, li);
                    if ll != li {
                        text::lemma_text_lt_transitive(xs, li, ll);
                    }
                }
            }
        }
        assert forall|i: int| 0 <= i < r.len() implies r[i] == x || order.contains(
            #[trigger] r[i],
        ) by {
            if i < order.len() {
                assert(r[i] == order[i]);
            }
        }
    } else {
        let init = order.drop_last();
        let last = order.last();
        assert(order == init.push(last));
        assert(serials_ascend(s, init)) by {
            assert forall|i: int, j: int| 0 <= i < j < init.len() implies !text::text_lt(
                #[trigger] battery::kept_serial(s, init, j),
                #[trigger] battery::kept_serial(s, init, i),
            ) by {
                assert(battery::kept_serial(s, init, j) == battery::kept_serial(s, order, j));
                assert(battery::kept_serial(s, init, i) == battery::kept_serial(s, order, i));
            }
        }
        lemma_insert_by_serial(s, init, x);
        let t = insert_by_serial(s, init, x);
        vstd::seq_lib::to_multiset_build(init, last);
        vstd::seq_lib::to_multiset_build(t, last);
        assert(r.to_multiset() =~= order.to_multiset().insert(x));
        assert forall|i: int, j: int| 0 <= i < j < r.len() implies !text::text_lt(
            #[trigger] battery::kept_serial(s, r, j),
            #[trigger] battery::kept_serial(s, r, i),
        ) by {
            assert(battery::kept_serial(s, r, i) == battery::kept_serial(s, t, i));
            if j < t.len() {
                assert(battery::kept_serial(s, r, j) == battery::kept_serial(s, t, j));
            } else {
                let ls = s[last].serial;
                if t[i] == x {
                    if text::text_lt(ls, xs) {
                        text::lemma_text_lt_transitive(xs, ls, xs);
                        text::lemma_text_lt_irreflexive(xs);
                    }
                } else {
                    assert(init.contains(t[i]));
                    let k = choose|k: int| 0 <= k < init.len() && init[k] == t[i];
                    assert(battery::kept_serial(s, order, k) == s[t[i]].serial);
                    assert(battery::kept_serial(s, order, order.len() - 1) == ls);
                }
            }
        }
        assert forall|i: int| 0 <= i < r.len() implies r[i] == x || order.contains(
            #[trigger] r[i],
        ) by {
            if i < t.len() {
                assert(r[i] == t[i]);
                if t[i] != x {
                    assert(init.contains(t[i]));
                    let k = choose|k: int| 0 <= k < init.len() && init[k] == t[i];
                    assert(order[k] == t[i]);
                }
            } else {
                assert(order[order.len() - 1] == last);
            }
        }
    }
}

/// Sorting by serial loses and adds no pad, and serials ascend afterwards.
pub proof fn law_sorted_by_serial(s: Seq<model::StatusView>, at: Seq<int>)
    ensures
        by_serial(s, at).to_multiset() == at.to_multiset(),
        by_serial(s, at).len() == at.len(),
        serials_ascend(s, by_serial(s, at)),
        forall|i: int|
            0 <= i < by_serial(s, at).len() ==> at.contains(#[trigger] by_serial(s, at)[i]),
    decreases at.len(),
{
    if at.len() > 0 {
        let init = at.drop_last();
        law_sorted_by_serial(s, init);
        let sorted = by_serial(s, init);
        lemma_insert_by_serial(s, sorted, at.last());
        assert(at == init.push(at.last()));
        vstd::seq_lib::to_multiset_build(init, at.last());
        let r = by_serial(s, at);
        assert forall|i: int| 0 <= i < r.len() implies at.contains(#[trigger] r[i]) by {
            if r[i] == at.last() {
                assert(at[at.len() - 1] == r[i]);
            } else {
                assert(sorted.contains(r[i]));
                let k = choose|k: int| 0 <= k < sorted.len() && sorted[k] == r[i];
                assert(init.contains(sorted[k]));
                let l = choose|l: int| 0 <= l < init.len() && init[l] == sorted[k];
                assert(at[l] == r[i]);
            }
        }
    } else {
        assert(at == Seq::<int>::empty());
    }
}

fn insert_sorted(pads: &[ControllerStatus], order: &mut Vec<usize>, x: usize)
    requires
        x < pads@.len(),
        battery::positions_below(battery::positions(old(order)@), pads@.len() as int),
    ensures
        battery::positions(final(order)@) == insert_by_serial(
            model::statuses(pads@),
            battery::positions(old(order)@),
            x as int,
        ),
        battery::positions_below(battery::positions(final(order)@), pads@.len() as int),
    decreases old(order)@.len(),
{
    let ghost s = model::statuses(pads@);
    let ghost q = battery::positions(order@);
    let n: usize = order.len();
    if n > 0 {
        let last: usize = order[n - 1];
        assert(q[n - 1] == last);
        if text::str_lt(pads[x].serial.as_str(), pads[last].serial.as_str()) {
            order.pop();
            assert(battery::positions(order@) =~= q.drop_last());
            assert(battery::positions_below(q.drop_last(), pads@.len() as int)) by {
                assert forall|k: int| 0 <= k < q.drop_last().len() implies 0
                    <= #[trigger] q.drop_last()[k] < pads@.len() by {
                    assert(q.drop_last()[k] == q[k]);
                }
            }
            insert_sorted(pads, order, x);
            let ghost t = battery::positions(order@);
            order.push(last);
            assert(battery::positions(order@) =~= t.push(last as int));
            return;
        }
    }
    order.push(x);
    assert(battery::positions(order@) =~= q.push(x as int));
}

/// Order in which polled pads are shown: one per pad, sorted by serial.
pub open spec fn shown_order(s: Seq<model::StatusView>) -> Seq<int> {
    by_serial(s, battery::kept_pads(s, s.len()))
}

fn arrange(pads: &[ControllerStatus]) -> (r: Vec<usize>)
    ensures
        battery::positions(r@) == shown_order(model::statuses(pads@)),
        battery::positions_below(battery::positions(r@), pads@.len() as int),
{
    let ghost s = model::statuses(pads@);
    let kept = battery::dedupe_positions(pads);
    let ghost q = battery::positions(kept@);
    let mut order: Vec<usize> = Vec::new();
    let mut i: usize = 0;
    assert(battery::positions(order@) =~= by_serial(s, q.take(0)));
    while i < kept.len()
        invariant
            i <= kept@.len(),
            s == model::statuses(pads@),
            q == battery::positions(kept@),
            battery::positions_below(q, pads@.len() as int),
            battery::positions(order@) == by_serial(s, q.take(i as int)),
            battery::positions_below(battery::positions(order@), pads@.len() as int),
        decreases kept@.len() - i,
    {
        assert(0 <= q[i as int] < pads@.len());
        assert(q.take(i + 1).drop_last() == q.take(i as int));
        assert(q.take(i + 1).last() == kept@[i as int]);
        insert_sorted(pads, &mut order, kept[i]);
        i = i + 1;
    }
    assert(q.take(i as int) == q);
    order
}

// ---------------------------------------------------------------------------
// Poll
// ---------------------------------------------------------------------------

/// Pads as they are shown: in order, numbered from one.
pub open spec fn shown(s: Seq<model::StatusView>) -> Seq<model::StatusView> {
    let order = shown_order(s);
    Seq::new(
        order.len(),
        |i: int| model::StatusView { index: i + 1, ..s[order[i]] },
    )
}

/// Serials of a list of pads.
pub open spec fn serials_of(s: Seq<model::StatusView>) -> Seq<Seq<char>> {
    Seq::new(s.len(), |i: int| s[i].serial)
}

/// Claims behind a poll: pads that are gone lose theirs; while automatic writes run, so do
/// pads that were not connected before.
pub open spec fn claims_after_poll(
    claimed: Set<Seq<char>>,
    automatic: bool,
    shown: Seq<Seq<char>>,
    previously: Set<Seq<char>>,
) -> Set<Seq<char>> {
    let present = claimed.intersect(lightbar::claim_keys(shown));
    if automatic {
        present.intersect(previously)
    } else {
        present
    }
}

/// What a poll comes to.
#[derive(Debug)]
pub struct PollOutcome {
    /// Where each shown pad stood among the polled ones.
    pub order: Vec<usize>,
    pub pads: Vec<ControllerStatus>,
    /// Whether each pad's lightbar is to be set.
    pub apply: bool,
}

/// Takes in the pads that could be read. `previously_connected` is the serial set of the
/// last snapshot; a serial not in it is a fresh connect, whose claim is cleared so that
/// claim and color are always written.
pub fn poll_controllers(
    state: &mut LightbarState,
    polled: &[ControllerStatus],
    previously_connected: &[String],
) -> (r: PollOutcome)
    ensures
        battery::positions(r.order@) == shown_order(model::statuses(polled@)),
        model::statuses(r.pads@) == shown(model::statuses(polled@)),
        r.apply == old(state).automatic,
        final(state).automatic == old(state).automatic,
        final(state).seq == old(state).seq,
        final(state).claimed@ == claims_after_poll(
            old(state).claimed@,
            old(state).automatic,
            serials_of(shown(model::statuses(polled@))),
            lightbar::claim_keys(text::views(previously_connected@)),
        ),
{
    let ghost s = model::statuses(polled@);
    let order = arrange(polled);
    let ghost q = battery::positions(order@);
    let ghost want = shown(s);
    let mut pads: Vec<ControllerStatus> = Vec::new();
    let mut serials: Vec<String> = Vec::new();
    let mut i: usize = 0;
    assert(model::statuses(pads@) =~= want.take(0));
    assert(text::views(serials@) =~= serials_of(want).take(0));
    while i < order.len()
        invariant
            i <= order@.len(),
            s == model::statuses(polled@),
            q == battery::positions(order@),
            q == shown_order(s),
            battery::positions_below(q, polled@.len() as int),
            want == shown(s),
            model::statuses(pads@) == want.take(i as int),
            text::views(serials@) == serials_of(want).take(i as int),
        decreases order@.len() - i,
    {
        assert(0 <= q[i as int] < polled@.len());
        let mut pad = polled[order[i]].copy();
        pad.index = i + 1;
        let ghost before = model::statuses(pads@);
        let ghost names = text::views(serials@);
        serials.push(pad.serial.clone());
        assert(text::views(serials@) =~= names.push(pad.serial@));
        assert(serials_of(want).take(i + 1) =~= serials_of(want).take(i as int).push(pad.serial@));
        pads.push(pad);
        assert(model::statuses(pads@) =~= before.push(pad@));
        assert(want.take(i + 1) =~= want.take(i as int).push(pad@));
        i = i + 1;
    }
    assert(want.take(i as int) == want);
    assert(serials_of(want).take(i as int) == serials_of(want));
    lightbar::sync_lightbar_claims(state, serials.as_slice());
    let ghost names = text::views(serials@);
    let ghost present = state.claimed@;
    let apply = lightbar::is_enabled(state);
    if apply {
        let previous = lightbar::keys_of(previously_connected);
        let mut j: usize = 0;
        while j < serials.len()
            invariant
                j <= serials@.len(),
                names == text::views(serials@),
                previous@ == lightbar::claim_keys(text::views(previously_connected@)),
                state.automatic == old(state).automatic,
                state.seq == old(state).seq,
                present == old(state).claimed@.intersect(lightbar::claim_keys(names)),
                forall|k: Seq<char>| #[trigger]
                    state.claimed@.contains(k) <==> present.contains(k) && (previous@.contains(k)
                        || !lightbar::claim_keys(names.take(j as int)).contains(k)),
            decreases serials@.len() - j,
        {
            let serial = serials[j].as_str();
            let key = identity::normalize_identity(serial);
            let ghost before = state.claimed@;
            assert(names.take(j + 1).drop_last() == names.take(j as int));
            assert(names.take(j + 1).last() == serial@);
            if !previous.contains(key.as_str()) {
                lightbar::prepare_connect_apply(state, serial);
            }
            assert forall|k: Seq<char>| #[trigger]
                state.claimed@.contains(k) <==> present.contains(k) && (previous@.contains(k)
                    || !lightbar::claim_keys(names.take(j + 1)).contains(k)) by {
                assert(before.contains(k) <==> present.contains(k) && (previous@.contains(k)
                    || !lightbar::claim_keys(names.take(j as int)).contains(k)));
            }
            j = j + 1;
        }
        proof {
            assert(names.take(j as int) == names);
            assert(state.claimed@ =~= present.intersect(previous@)) by {
                assert forall|k: Seq<char>| state.claimed@.contains(k) == present.intersect(
                    previous@,
                ).contains(k) by {
                    assert(state.claimed@.contains(k) <==> present.contains(k) && (
                    previous@.contains(k) || !lightbar::claim_keys(names).contains(k)));
                }
            }
        }
    }
    PollOutcome { order, pads, apply }
}

/// A pad that was not connected before is not claimed behind a poll while automatic
/// writes run, so that its claim is always written again.
pub proof fn law_fresh_connect_is_claimed_again(
    claimed: Set<Seq<char>>,
    shown: Seq<Seq<char>>,
    previously: Set<Seq<char>>,
    serial: Seq<char>,
)
    requires
        !previously.contains(lightbar::claim_key(serial)),
    ensures
        !claims_after_poll(claimed, true, shown, previously).contains(
            lightbar::claim_key(serial),
        ),
{
}

} // verus!
