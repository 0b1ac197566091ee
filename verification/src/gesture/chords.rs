//! Laws on chords: when one fires, what a recording keeps, how one is written.
use super::{
    gesture_label, in_display_order, joined, members, peak_after, with_rank, ControlSet,
    GestureControl, GestureDetector, GestureRecorder, CONTROL_COUNT,
};
use vstd::prelude::*;

verus! {

/// Whether the whole chord is down: it has a control, and each of its controls is held.
pub open spec fn down(chord: Seq<GestureControl>, held: Set<GestureControl>) -> bool {
    chord.len() > 0 && forall|c: GestureControl| chord.contains(c) ==> held.contains(c)
}

/// Which of the looks at the held controls fire, by a detector that was new.
pub open spec fn fired(
    chord: Seq<GestureControl>,
    holds: Seq<Set<GestureControl>>,
    k: int,
) -> bool {
    GestureDetector::fires(
        super::armed_after(false, chord, holds.take(k)),
        chord,
        holds[k],
    )
}

proof fn lemma_down(chord: Seq<GestureControl>, held: Set<GestureControl>)
    ensures
        GestureDetector::armed_by(chord, held) == down(chord, held),
{
    if super::all_held(chord, held) {
        assert forall|c: GestureControl| chord.contains(c) implies held.contains(c) by {
            let i = choose|i: int| 0 <= i < chord.len() && chord[i] == c;
            assert(held.contains(chord[i]));
        }
    }
    if down(chord, held) {
        assert forall|i: int| 0 <= i < chord.len() implies held.contains(#[trigger] chord[i]) by {
            assert(chord.contains(chord[i]));
        }
    }
}

/// A chord fires on the look on which it goes down, whatever else is held, and on no other: not
/// while it stays down, and not when only a part of it is held.
pub proof fn law_chord_fires_as_it_goes_down(
    chord: Seq<GestureControl>,
    holds: Seq<Set<GestureControl>>,
    k: int,
)
    requires
        0 <= k < holds.len(),
    ensures
        fired(chord, holds, k) <==> down(chord, holds[k]) && (k == 0 || !down(chord, holds[k - 1])),
{
    lemma_down(chord, holds[k]);
    if k > 0 {
        lemma_down(chord, holds[k - 1]);
        assert(holds.take(k).last() == holds[k - 1]);
    }
}

/// A recording is the first of the largest sets held at one time.
pub proof fn law_first_largest_hold_is_recorded(holds: Seq<Set<GestureControl>>)
    requires
        holds.len() > 0,
        holds[0] != Set::<GestureControl>::empty(),
    ensures
        exists|k: int|
            #![trigger holds[k]]
            0 <= k < holds.len() && holds[k] == peak_after(Set::empty(), holds) && (forall|i: int|
                0 <= i < k ==> (#[trigger] holds[i]).len() < holds[k].len()) && (forall|i: int|
                k < i < holds.len() ==> (#[trigger] holds[i]).len() <= holds[k].len()),
    decreases holds.len(),
{
    let init = holds.drop_last();
    let n = init.len() as int;
    let p = peak_after(Set::empty(), holds);
    if n == 0 {
        super::lemma_members_count(holds[0]);
        assert(peak_after(Set::empty(), init) == Set::<GestureControl>::empty());
        if holds[0].len() == 0 {
            assert(holds[0] =~= Set::<GestureControl>::empty());
        }
        assert(holds[0] == p);
    } else {
        assert(init[0] == holds[0]);
        law_first_largest_hold_is_recorded(init);
        let q = peak_after(Set::empty(), init);
        let k = choose|k: int|
            #![trigger init[k]]
            0 <= k < init.len() && init[k] == q && (forall|i: int|
                0 <= i < k ==> (#[trigger] init[i]).len() < init[k].len()) && (forall|i: int|
                k < i < init.len() ==> (#[trigger] init[i]).len() <= init[k].len());
        if holds.last().len() > q.len() {
            assert forall|i: int| 0 <= i < n implies (#[trigger] holds[i]).len() < holds[n].len() by {
                assert(init[i] == holds[i]);
                assert(init[i].len() <= init[k].len());
            }
            assert(holds[n] == p);
        } else {
            assert(holds[k] == init[k]);
            assert forall|i: int| 0 <= i < k implies (#[trigger] holds[i]).len()
                < holds[k].len() by {
                assert(init[i] == holds[i]);
            }
            assert forall|i: int| k < i < holds.len() implies (#[trigger] holds[i]).len()
                <= holds[k].len() by {
                if i < n {
                    assert(init[i] == holds[i]);
                }
            }
        }
    }
}

/// A set of controls is listed with each member once, in display order.
pub proof fn law_members_are_listed_once(s: Set<GestureControl>, c: GestureControl)
    ensures
        members(s).contains(c) <==> s.contains(c),
        forall|i: int, j: int|
            0 <= i < j < members(s).len() ==> (#[trigger] members(s)[i]).rank() < (#[trigger] members(
                s,
            )[j]).rank(),
{
    super::lemma_members(s, CONTROL_COUNT);
    super::lemma_rank_names(c);
    assert(super::members_below(s, CONTROL_COUNT).contains(c) <==> s.contains(c) && c.rank()
        < CONTROL_COUNT);
}

/// How often a control occurs.
pub open spec fn times(s: Seq<GestureControl>, c: GestureControl) -> nat
    decreases s.len(),
{
    if s.len() == 0 {
        0
    } else {
        times(s.drop_last(), c) + if s.last() == c {
            1nat
        } else {
            0nat
        }
    }
}

proof fn lemma_times_add(a: Seq<GestureControl>, b: Seq<GestureControl>, c: GestureControl)
    ensures
        times(a + b, c) == times(a, c) + times(b, c),
    decreases b.len(),
{
    if b.len() == 0 {
        assert(a + b == a);
    } else {
        assert((a + b).drop_last() == a + b.drop_last());
        lemma_times_add(a, b.drop_last(), c);
    }
}

proof fn lemma_with_rank(s: Seq<GestureControl>, r: u32, c: GestureControl)
    ensures
        times(with_rank(s, r), c) == if c.rank() == r {
            times(s, c)
        } else {
            0
        },
        forall|i: int| 0 <= i < with_rank(s, r).len() ==> (#[trigger] with_rank(s, r)[i]).rank()
            == r,
    decreases s.len(),
{
    if s.len() > 0 {
        lemma_with_rank(s.drop_last(), r, c);
        let rest = with_rank(s.drop_last(), r);
        assert(rest.push(s.last()).drop_last() == rest);
    }
}

proof fn lemma_ordered(s: Seq<GestureControl>, n: u32, c: GestureControl)
    requires
        n <= CONTROL_COUNT,
    ensures
        times(in_display_order(s, n), c) == if c.rank() < n {
            times(s, c)
        } else {
            0
        },
        forall|i: int|
            0 <= i < in_display_order(s, n).len() ==> (#[trigger] in_display_order(s, n)[i]).rank()
                < n,
        forall|i: int, j: int|
            0 <= i < j < in_display_order(s, n).len() ==> (#[trigger] in_display_order(
                s,
                n,
            )[i]).rank() <= (#[trigger] in_display_order(s, n)[j]).rank(),
    decreases n,
{
    if n > 0 {
        let m = (n - 1) as u32;
        lemma_ordered(s, m, c);
        lemma_with_rank(s, m, c);
        lemma_times_add(in_display_order(s, m), with_rank(s, m), c);
    }
}

/// Display order moves the controls of a chord and changes none: each occurs as often as before,
/// and no control stands behind one that is displayed later.
pub proof fn law_display_order_keeps_the_chord(s: Seq<GestureControl>, c: GestureControl)
    ensures
        times(in_display_order(s, CONTROL_COUNT), c) == times(s, c),
        forall|i: int, j: int|
            0 <= i < j < in_display_order(s, CONTROL_COUNT).len() ==> (#[trigger] in_display_order(
                s,
                CONTROL_COUNT,
            )[i]).rank() <= (#[trigger] in_display_order(s, CONTROL_COUNT)[j]).rank(),
{
    super::lemma_rank_names(c);
    lemma_ordered(s, CONTROL_COUNT, c);
}

/// A chord is written as the names of its controls with ` + ` between them; no chord is `None`.
pub proof fn law_chord_is_written_with_pluses(s: Seq<GestureControl>, c: GestureControl)
    ensures
        joined(seq![c]) == c.label(),
        s.len() > 0 ==> joined(s.push(c)) == joined(s) + " + "@ + c.label(),
        gesture_label(Seq::empty()) == "None"@,
        s.len() > 0 ==> gesture_label(s) == joined(in_display_order(s, CONTROL_COUNT)),
{
    assert(s.push(c).drop_last() == s);
}

/// No two controls are written alike.
pub proof fn law_controls_have_their_own_names(a: GestureControl, b: GestureControl)
    requires
        a.label() == b.label(),
    ensures
        a == b,
{
    reveal_strlit("Cross");
    reveal_strlit("Circle");
    reveal_strlit("Square");
    reveal_strlit("Triangle");
    reveal_strlit("L1");
    reveal_strlit("R1");
    reveal_strlit("L2");
    reveal_strlit("R2");
    reveal_strlit("L3");
    reveal_strlit("R3");
    reveal_strlit("Create");
    reveal_strlit("Options");
    reveal_strlit("PS");
    reveal_strlit("Mute");
    reveal_strlit("Touchpad");
    reveal_strlit("D-pad Up");
    reveal_strlit("D-pad Down");
    reveal_strlit("D-pad Left");
    reveal_strlit("D-pad Right");
    let s = a.label();
    let t = b.label();
    assert(s.len() == t.len());
    assert(s[0] == t[0] && s[1] == t[1]);
    assert(s.len() > 6 ==> s[6] == t[6]);
}

/// A recording, by any calls: while controls are held it goes on and gives nothing back; once
/// all are let go it gives back a hold that no hold was larger than, and is over. Before anything
/// was held it goes on, and without a recording nothing happens.
pub proof fn law_recording_ends_with_the_last_control(
    r: &mut GestureRecorder,
    held: &ControlSet,
    out: Option<Vec<GestureControl>>,
)
    requires
        call_ensures(GestureRecorder::update, (r, held), out),
    ensures
        !old(r).active ==> out is None && *final(r) == *old(r),
        out is Some ==> held@ == Set::<GestureControl>::empty() && !final(r).active,
        out matches Some(v) ==> forall|c: GestureControl|
            v@.contains(c) <==> old(r).peak@.contains(c),
        old(r).active && held@ != Set::<GestureControl>::empty() ==> {
            &&& final(r).active && final(r).saw_input
            &&& final(r).peak@ == held@ || final(r).peak@ == old(r).peak@
            &&& final(r).peak@.len() >= held@.len()
            &&& final(r).peak@.len() >= old(r).peak@.len()
        },
        old(r).active && old(r).saw_input && old(r).peak@ != Set::<GestureControl>::empty() && held@
            == Set::<GestureControl>::empty() ==> out is Some,
{
    if let Some(v) = out {
        assert forall|c: GestureControl| v@.contains(c) <==> old(r).peak@.contains(c) by {
            law_members_are_listed_once(old(r).peak@, c);
        }
    }
}

} // verus!
