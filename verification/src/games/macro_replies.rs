//! Laws on a macro that runs: which replies end it, what is typed, what is let go, and which
//! window is the game's.
use crate::games::macro_run as mr;
use crate::games::macro_run::{FocusWait, OpView, Reply, RunErrorView, WindowInfo};
use crate::games::macro_text as mt;
use crate::text;
use crate::text::reading;
use vstd::prelude::*;

verus! {

/// Input counts as sent when all of it was taken, and only then: each key event once, and each
/// unit of a text twice, down and up.
pub proof fn law_input_is_sent_whole(
    events: Seq<mr::KeyEvent>,
    t: Seq<char>,
    taken: u32,
)
    ensures
        mr::error_of(OpView::SendKeys(events), Reply::Sent(taken)) is None <==> taken
            == events.len(),
        mr::error_of(OpView::SendText(t), Reply::Sent(taken)) is None <==> taken == 2 * text::utf16(
            t,
        ).len(),
        taken != events.len() ==> mr::error_of(OpView::SendKeys(events), Reply::Sent(taken))
            is Some && mr::error_of(OpView::SendKeys(events), Reply::Sent(taken))->0 is SendFailed,
{
}

/// Keys go on only while the game is in front; a macro that cannot bring the game to the front
/// ends, with the reason: there is no window, or it did not come.
pub proof fn law_macro_needs_the_game_in_front(reply: Reply)
    ensures
        mr::error_of(OpView::NeedForeground, reply) is None <==> reply == Reply::Foreground(true),
        mr::error_of(OpView::NeedForeground, Reply::Foreground(false)) == Some(
            RunErrorView::LostFocus,
        ),
        mr::error_of(OpView::Focus, reply) is None <==> reply == Reply::Foreground(true),
        mr::error_of(OpView::Focus, Reply::NoWindow) == Some(RunErrorView::NoWindow),
        mr::error_of(OpView::Focus, Reply::Foreground(false)) == Some(RunErrorView::FocusFailed),
{
}

/// A pause and the notes on held keys never end a macro; a key that cannot be sent always does.
pub proof fn law_pauses_do_not_fail(ms: u64, c: mt::KeyChord, m: Seq<char>, reply: Reply)
    ensures
        mr::error_of(OpView::Sleep(ms), reply) is None,
        mr::error_of(OpView::Hold(c), reply) is None,
        mr::error_of(OpView::Unhold(c), reply) is None,
        mr::error_of(OpView::Fail(m), reply) == Some(RunErrorView::SendFailed(m)),
{
}

/// The units that go down, in turn.
pub open spec fn pressed_units(inputs: Seq<(u16, bool)>) -> Seq<u16>
    decreases inputs.len(),
{
    if inputs.len() == 0 {
        seq![]
    } else if inputs.last().1 {
        pressed_units(inputs.drop_last()).push(inputs.last().0)
    } else {
        pressed_units(inputs.drop_last())
    }
}

/// A text is typed unit by unit, each let go before the next is pressed; the pressed units spell
/// the text.
pub proof fn law_typed_units_spell_the_text(t: Seq<char>, i: int)
    requires
        0 <= i < text::utf16(t).len(),
    ensures
        ({
            let inputs = mr::unit_inputs(text::utf16(t));
            &&& inputs.len() == 2 * text::utf16(t).len()
            &&& inputs[2 * i].1 && !inputs[2 * i + 1].1
            &&& inputs[2 * i].0 == inputs[2 * i + 1].0
            &&& reading::spelled_text(pressed_units(inputs)) == t
        }),
{
    let u = text::utf16(t);
    lemma_pressed(u);
    reading::law_units_spell_the_text(t);
    assert((2 * i) / 2 == i && (2 * i + 1) / 2 == i);
    assert((2 * i) % 2 == 0 && (2 * i + 1) % 2 == 1);
}

proof fn lemma_pressed(u: Seq<u16>)
    ensures
        pressed_units(mr::unit_inputs(u)) == u,
    decreases u.len(),
{
    let inputs = mr::unit_inputs(u);
    if u.len() > 0 {
        let n = u.len() - 1;
        let init = u.drop_last();
        lemma_pressed(init);
        assert((2 * n) / 2 == n && (2 * n + 1) / 2 == n);
        assert((2 * n) % 2 == 0 && (2 * n + 1) % 2 == 1);
        assert(inputs.drop_last().drop_last() =~= mr::unit_inputs(init));
        assert(inputs.last() == (u[n], false));
        assert(inputs.drop_last().last() == (u[n], true));
        assert(pressed_units(inputs) == pressed_units(inputs.drop_last()));
        assert(init.push(u[n]) =~= u);
    }
}

/// Leaving focus steps out leaves every other step, in its order.
pub proof fn law_only_focus_steps_are_left_out(steps: Seq<mt::StepView>, s: mt::StepView)
    ensures
        mr::key_steps(Seq::empty()).len() == 0,
        mr::key_steps(steps.push(s)) == mr::key_steps(steps) + (if s == mt::StepView::Focus {
            Seq::<mt::StepView>::empty()
        } else {
            seq![s]
        }),
{
    assert(steps.push(s).drop_last() == steps);
    let rest = mr::key_steps(steps);
    assert(rest + Seq::<mt::StepView>::empty() == rest);
    assert(rest.push(s) == rest + seq![s]);
}

/// What was held longest is let go last.
pub proof fn law_last_held_is_let_go_first(held: Seq<mt::KeyChord>, c: mt::KeyChord)
    ensures
        mr::releases(Seq::empty()).len() == 0,
        mr::releases(held.push(c)) == mr::chord_ops(c, false) + mr::releases(held),
{
    assert(held.push(c).drop_last() == held);
}

/// A key that is held is held until it is let go, whatever else is sent meanwhile.
pub proof fn law_held_keys_are_remembered(
    held: Seq<mt::KeyChord>,
    c: mt::KeyChord,
    other: mt::KeyChord,
    op: OpView,
)
    requires
        other != c,
    ensures
        mr::held_after(OpView::Hold(c), held).contains(c),
        !mr::held_after(OpView::Unhold(c), held).contains(c),
        held.contains(other) ==> mr::held_after(OpView::Unhold(c), held).contains(other),
        held.contains(other) ==> mr::held_after(OpView::Hold(c), held).contains(other),
        !(op is Hold) && !(op is Unhold) ==> mr::held_after(op, held) == held,
{
    broadcast use vstd::seq_lib::group_filter_ensures;

    let p = |h: mt::KeyChord| h != c;
    assert(held.push(c)[held.len() as int] == c);
    let f = held.filter(p);
    if f.contains(c) {
        let i = choose|i: int| 0 <= i < f.len() && f[i] == c;
        assert(p(f[i]));
    }
    if held.contains(other) {
        let i = choose|i: int| 0 <= i < held.len() && held[i] == other;
        assert(p(held[i]));
        assert(f.contains(held[i]));
        assert(held.push(c)[i] == other);
    }
}

/// A window can be the game's when it is shown, not minimized, no tool window, of one of the
/// game's processes, and not empty.
pub proof fn law_window_belongs_to_the_game(w: WindowInfo, pids: Seq<u32>)
    requires
        w.left < w.right,
        w.top < w.bottom,
    ensures
        mr::is_candidate(w, pids) <==> w.visible && !w.minimized && !w.tool && pids.contains(w.pid),
        mr::area(w) == (w.right - w.left) * (w.bottom - w.top),
        !mr::is_candidate(WindowInfo { right: w.left, ..w }, pids),
        !mr::is_candidate(WindowInfo { bottom: w.top, ..w }, pids),
{
    assert((w.right - w.left) * (w.bottom - w.top) > 0) by (nonlinear_arith)
        requires
            w.left < w.right,
            w.top < w.bottom,
    ;
    assert((w.left - w.left) * (w.bottom - w.top) == 0) by (nonlinear_arith);
    assert((w.right - w.left) * (w.top - w.top) == 0) by (nonlinear_arith);
}

/// The game is looked for in front every 20 ms, for less than 400 ms.
pub proof fn law_front_is_awaited_for_400_ms(elapsed: u64, in_front: bool)
    ensures
        mr::focus_wait(elapsed, in_front) == FocusWait::Focused <==> in_front && elapsed < 400,
        mr::focus_wait(elapsed, in_front) == FocusWait::GiveUp <==> elapsed >= 400,
        mr::focus_wait(elapsed, in_front) matches FocusWait::LookAgainIn(ms) ==> ms == 20,
{
}

} // verus!
