//! Laws on pad input: where it goes, which pad makes a gesture, and how pads share the worker.
use crate::app::pad_poll;
use crate::app::pad_poll::{NavDiag, PadPollFacts, PadRoute, PadWarning};
use crate::controller::identity;
use crate::controller::input::PadSample;
use crate::controller::lightbar::Rgb;
use crate::controller::worker;
use crate::controller::worker::{ActionView, WorkerView};
use crate::gesture::chords;
use crate::gesture::{GestureControl, GestureDetector};
use vstd::prelude::*;

verus! {

// ---------------------------------------------------------------------------
// Where input goes
// ---------------------------------------------------------------------------

/// Nothing happens to input while the start screen is off, or while there is no pad and no
/// recording. A recording takes it first; then an open start screen that is ready and has a
/// reading; a closed one looks for its gesture.
pub proof fn law_input_goes_one_way(f: PadPollFacts)
    ensures
        ({
            let on = f.start_screen_enabled && (f.recording || !f.no_pads);
            &&& pad_poll::route(f) == PadRoute::Record <==> on && f.recording
            &&& pad_poll::route(f) == PadRoute::Navigate <==> on && !f.recording && f.start_open
                && f.nav_ready && f.readings > 0
            &&& pad_poll::route(f) == PadRoute::Reopen <==> on && !f.recording && !f.start_open
        }),
{
}

/// What is warned of on a look, and from when on: a gap of 80 ms between looks on an open screen,
/// a screen that is not ready 200 ms after it opened, input that is missing, input that is back,
/// and a snapshot that is 100 ms old.
pub proof fn law_warnings_have_their_cause(d: NavDiag, f: PadPollFacts, i: int)
    requires
        0 <= i < pad_poll::warnings(d, f).len(),
    ensures
        match pad_poll::warnings(d, f)[i] {
            PadWarning::Stall { gap_ms } => f.start_open && gap_ms >= 80 && (d.last_poll_ms matches Some(
                t,
            ) && (gap_ms as int == f.now_ms - t || f.now_ms < t)),
            PadWarning::NotReady { for_ms } => f.start_open && !f.nav_ready && for_ms >= 200
                && !d.not_ready_warned,
            PadWarning::Missing { age_ms } => f.start_open && f.nav_ready && f.readings == 0
                && !f.no_pads && !d.missing_warned && age_ms == f.age_ms,
            PadWarning::Restored { gap_ms } => f.readings > 0 && d.missing_since_ms is Some,
            PadWarning::Stale { age_ms } => f.readings > 0 && age_ms == f.age_ms && age_ms >= 100
                && !d.stale_warned,
        },
{
}

/// A cause is warned of: none of the five is passed over.
pub proof fn law_causes_are_warned_of(d: NavDiag, f: PadPollFacts)
    requires
        f.start_open,
        f.start_screen_enabled,
        !f.no_pads,
        !f.recording,
    ensures
        ({
            let w = pad_poll::warnings(d, f);
            &&& (d.last_poll_ms matches Some(t) && f.now_ms - t >= 80) ==> exists|i: int|
                0 <= i < w.len() && (#[trigger] w[i] is Stall)
            &&& f.nav_ready && f.readings == 0 && !d.missing_warned ==> exists|i: int|
                0 <= i < w.len() && (#[trigger] w[i] is Missing)
            &&& f.nav_ready && f.readings > 0 && d.missing_since_ms is Some ==> exists|i: int|
                0 <= i < w.len() && (#[trigger] w[i] is Restored)
            &&& f.nav_ready && f.readings > 0 && f.age_ms >= 100 && !d.stale_warned ==> exists|
                i: int,
            |
                0 <= i < w.len() && (#[trigger] w[i] is Stale)
        }),
{
    let w = pad_poll::warnings(d, f);
    let a = match d.last_poll_ms {
        Some(t) => if f.start_open && pad_poll::age(t, f.now_ms) >= 80 {
            seq![PadWarning::Stall { gap_ms: pad_poll::age(t, f.now_ms) }]
        } else {
            seq![]
        },
        None => seq![],
    };
    let b = if pad_poll::not_ready(d, f) {
        seq![PadWarning::NotReady { for_ms: pad_poll::age(d.opened_at_ms->0, f.now_ms) }]
    } else {
        seq![]
    };
    let n = a.len() as int;
    let k = n + b.len();
    if a.len() > 0 {
        assert(w[0] is Stall);
    }
    if f.nav_ready && f.readings == 0 && !d.missing_warned {
        assert(w[k] is Missing);
    }
    if f.nav_ready && f.readings > 0 {
        if d.missing_since_ms is Some {
            assert(w[k] is Restored);
        }
        if f.age_ms >= 100 && !d.stale_warned {
            assert(w.last() is Stale);
        }
    }
}

// ---------------------------------------------------------------------------
// Gestures of several pads
// ---------------------------------------------------------------------------

/// Whether no pad is read twice.
pub open spec fn each_once(readings: Seq<(Seq<char>, PadSample)>) -> bool {
    forall|i: int, j: int|
        0 <= i < j < readings.len() ==> (#[trigger] readings[i]).0 != (#[trigger] readings[j]).0
}

proof fn lemma_armed(chord: Seq<GestureControl>, held: Set<GestureControl>)
    ensures
        GestureDetector::armed_by(chord, held) == chords::down(chord, held),
{
    chords::law_chord_fires_as_it_goes_down(chord, seq![held], 0);
    assert(chords::fired(chord, seq![held], 0) == GestureDetector::armed_by(chord, held));
}

proof fn lemma_init_once(readings: Seq<(Seq<char>, PadSample)>)
    requires
        each_once(readings),
        readings.len() > 0,
    ensures
        each_once(readings.drop_last()),
{
    let init = readings.drop_last();
    assert forall|i: int, j: int| 0 <= i < j < init.len() implies (#[trigger] init[i]).0 != (
    #[trigger] init[j]).0 by {
        assert(readings[i].0 != readings[j].0);
    }
}

/// Every pad makes the gesture by itself: what one holds does not count for another, a pad that
/// was read is remembered by its own hold, and a pad that was not read stays as it was.
pub proof fn law_each_pad_has_its_own_gesture(
    m: Map<Seq<char>, GestureDetector>,
    chord: Seq<GestureControl>,
    readings: Seq<(Seq<char>, PadSample)>,
    id: Seq<char>,
)
    requires
        each_once(readings),
    ensures
        ({
            let next = pad_poll::bank_after(m, chord, readings);
            &&& forall|i: int|
                0 <= i < readings.len() && (#[trigger] readings[i]).0 == id ==> pad_poll::armed_at(
                    next,
                    id,
                ) == chords::down(chord, readings[i].1.held@)
            &&& (forall|i: int|
                0 <= i < readings.len() ==> (#[trigger] readings[i]).0 != id) ==> pad_poll::armed_at(
                next,
                id,
            ) == pad_poll::armed_at(m, id)
        }),
    decreases readings.len(),
{
    if readings.len() > 0 {
        let init = readings.drop_last();
        let n = readings.len() - 1;
        lemma_init_once(readings);
        law_each_pad_has_its_own_gesture(m, chord, init, id);
        lemma_armed(chord, readings.last().1.held@);
        let next = pad_poll::bank_after(m, chord, readings);
        assert forall|i: int|
            0 <= i < readings.len() && (#[trigger] readings[i]).0 == id implies pad_poll::armed_at(
            next,
            id,
        ) == chords::down(chord, readings[i].1.held@) by {
            if i < n {
                assert(init[i] == readings[i]);
                assert(readings[i].0 != readings[n].0);
            }
        }
        if forall|i: int| 0 <= i < readings.len() ==> (#[trigger] readings[i]).0 != id {
            assert(readings[n].0 != id);
            assert forall|i: int| 0 <= i < init.len() implies (#[trigger] init[i]).0 != id by {
                assert(readings[i].0 != id);
            }
        }
    }
}

/// A look fires exactly when some pad has the whole chord down that did not have it down when it
/// was last read.
pub proof fn law_gesture_fires_for_the_pad_that_makes_it(
    m: Map<Seq<char>, GestureDetector>,
    chord: Seq<GestureControl>,
    readings: Seq<(Seq<char>, PadSample)>,
)
    requires
        each_once(readings),
    ensures
        pad_poll::bank_fires(m, chord, readings) <==> exists|i: int|
            #![trigger readings[i]]
            0 <= i < readings.len() && chords::down(chord, readings[i].1.held@)
                && !pad_poll::armed_at(m, readings[i].0),
    decreases readings.len(),
{
    if readings.len() > 0 {
        let init = readings.drop_last();
        let n = readings.len() - 1;
        lemma_init_once(readings);
        law_gesture_fires_for_the_pad_that_makes_it(m, chord, init);
        law_each_pad_has_its_own_gesture(m, chord, init, readings[n].0);
        lemma_armed(chord, readings.last().1.held@);
        assert forall|i: int| 0 <= i < init.len() implies (#[trigger] init[i]).0
            != readings[n].0 by {
            assert(readings[i].0 != readings[n].0);
        }
        if pad_poll::bank_fires(m, chord, init) {
            let i = choose|i: int|
                #![trigger init[i]]
                0 <= i < init.len() && chords::down(chord, init[i].1.held@) && !pad_poll::armed_at(
                    m,
                    init[i].0,
                );
            assert(readings[i] == init[i]);
        }
        if exists|i: int|
            #![trigger readings[i]]
            0 <= i < readings.len() && chords::down(chord, readings[i].1.held@)
                && !pad_poll::armed_at(m, readings[i].0) {
            let i = choose|i: int|
                #![trigger readings[i]]
                0 <= i < readings.len() && chords::down(chord, readings[i].1.held@)
                    && !pad_poll::armed_at(m, readings[i].0);
            if i < n {
                assert(init[i] == readings[i]);
            }
        }
    }
}

/// A snapshot holds the newest reading of each pad: a new one takes the place of the pad's old
/// one, and the readings of other pads stay where they are.
pub proof fn law_snapshot_holds_the_newest(
    q: Seq<(Seq<char>, PadSample)>,
    id: Seq<char>,
    sample: PadSample,
)
    requires
        each_once(q),
    ensures
        ({
            let next = worker::with_reading(q, id, sample);
            &&& next.contains((id, sample))
            &&& forall|i: int|
                0 <= i < q.len() ==> next[i] == (if (#[trigger] q[i]).0 == id {
                    (id, sample)
                } else {
                    q[i]
                })
            &&& next.len() == q.len() || next == q.push((id, sample))
            &&& (exists|i: int| 0 <= i < q.len() && (#[trigger] q[i]).0 == id) ==> next.len()
                == q.len()
        }),
    decreases q.len(),
{
    let next = worker::with_reading(q, id, sample);
    if q.len() == 0 {
        assert(next[0] == (id, sample));
        assert(next == q.push((id, sample)));
    } else if q[0].0 == id {
        assert(next[0] == (id, sample));
        assert forall|i: int| 0 <= i < q.len() implies next[i] == (if (#[trigger] q[i]).0 == id {
            (id, sample)
        } else {
            q[i]
        }) by {
            if i > 0 {
                assert(q[0].0 != q[i].0);
            }
        }
    } else {
        let rest = q.drop_first();
        assert(each_once(rest)) by {
            assert forall|i: int, j: int| 0 <= i < j < rest.len() implies (#[trigger] rest[i]).0 != (
            #[trigger] rest[j]).0 by {
                assert(q[i + 1].0 != q[j + 1].0);
            }
        }
        law_snapshot_holds_the_newest(rest, id, sample);
        let tail = worker::with_reading(rest, id, sample);
        let k = choose|k: int| 0 <= k < tail.len() && tail[k] == (id, sample);
        assert(next[k + 1] == (id, sample));
        assert forall|i: int| 0 <= i < q.len() implies next[i] == (if (#[trigger] q[i]).0 == id {
            (id, sample)
        } else {
            q[i]
        }) by {
            if i > 0 {
                assert(rest[i - 1] == q[i]);
                assert(next[i] == tail[i - 1]);
            }
        }
        if tail.len() != rest.len() {
            assert(next =~= q.push((id, sample)));
        }
        if exists|i: int| 0 <= i < q.len() && (#[trigger] q[i]).0 == id {
            let i = choose|i: int| 0 <= i < q.len() && (#[trigger] q[i]).0 == id;
            assert(rest[i - 1].0 == id);
        }
    }
}

// ---------------------------------------------------------------------------
// The worker
// ---------------------------------------------------------------------------

/// Identifying a pad ends what was identified before, closes the pad's handle and begins with a
/// write that is due at once; the handles and claims of other pads stay, but for the handle of
/// the pad that was identified before.
pub proof fn law_identify_takes_one_pad(
    w: WorkerView,
    serial: Seq<char>,
    normal: Rgb,
    now: u64,
    other: Seq<char>,
)
    requires
        other != identity::normalized(serial),
    ensures
        ({
            let b = w.begun(serial, normal, now);
            &&& b.session matches Some(s) && s.serial == serial && s.normal == normal
                && s.next_write == 0 && s.wake_at == now
            &&& b.identifying
            &&& !b.cached.contains(identity::normalized(serial))
            &&& b.claimed.contains(other) == w.claimed.contains(other)
            &&& !(w.session matches Some(s) && identity::normalized(s.serial) == other)
                ==> b.cached.contains(other) == w.cached.contains(other)
            &&& b.automatic == w.automatic && b.seq == w.seq
        }),
{
}

/// Ending an identify closes the handle of its pad, says so once, and leaves every claim.
pub proof fn law_abort_closes_one_handle(w: WorkerView, other: Seq<char>)
    ensures
        w.session matches Some(s) ==> w.aborted().session is None && !w.aborted().identifying
            && !w.aborted().cached.contains(identity::normalized(s.serial)) && w.abort_actions()
            == seq![ActionView::DropSerial(s.serial)] && (other != identity::normalized(s.serial)
            ==> w.aborted().cached.contains(other) == w.cached.contains(other)),
        w.session is None ==> w.aborted() == w && w.abort_actions().len() == 0,
        w.aborted().claimed == w.claimed,
{
}

/// Taking a pad for oneself forgets its claim where it was open, so that it is claimed again.
pub proof fn law_reopened_pad_is_claimed_again(w: WorkerView, serial: Seq<char>)
    ensures
        !w.exclusive(serial).cached.contains(identity::normalized(serial)),
        w.cached.contains(identity::normalized(serial)) ==> !w.exclusive(serial).claimed.contains(
            identity::normalized(serial),
        ),
        !w.cached.contains(identity::normalized(serial)) ==> w.exclusive(serial).claimed
            == w.claimed,
{
}

/// The next flash is due 150 ms on.
pub proof fn law_next_flash_is_due(now: u64)
    requires
        now < 0xFFFF_FFFF_FFFF_0000,
    ensures
        worker::flash_later(now) == now + 150,
{
}

/// That no pad may navigate yet is said once: only while pads wait and none is ready, and not
/// again until one was ready.
pub proof fn law_waiting_pads_are_told_once(d: NavDiag, armed: usize, unarmed: usize)
    ensures
        d.waits(armed, unarmed) ==> armed == 0 && unarmed > 0,
        d.waits(armed, unarmed) ==> !d.armed(armed, unarmed).waits(armed, unarmed),
        armed > 0 && unarmed > 0 ==> d.armed(armed, unarmed).waits(0, unarmed),
        armed == 0 && unarmed == 0 ==> d.armed(armed, unarmed) == d,
{
}

} // verus!
