//! What a macro's operations come to: the keys that go down and up, the text that is typed, and
//! the pauses between.
use crate::games::macro_run as mr;
use crate::games::macro_run::KeyEvent;
use crate::games::macro_text as mt;
use crate::games::macro_text::{Key, KeyChord};
use vstd::prelude::*;

verus! {

/// Key events that operations send, in order.
pub open spec fn key_events(ops: Seq<mr::OpView>) -> Seq<KeyEvent>
    decreases ops.len(),
{
    if ops.len() == 0 {
        seq![]
    } else {
        key_events(ops.drop_last()) + (match ops.last() {
            mr::OpView::SendKeys(e) => e,
            _ => seq![],
        })
    }
}

/// Text that operations type.
pub open spec fn typed(ops: Seq<mr::OpView>) -> Seq<char>
    decreases ops.len(),
{
    if ops.len() == 0 {
        seq![]
    } else {
        typed(ops.drop_last()) + (match ops.last() {
            mr::OpView::SendText(t) => t,
            _ => seq![],
        })
    }
}

/// Milliseconds that operations pause.
pub open spec fn paused(ops: Seq<mr::OpView>) -> int
    decreases ops.len(),
{
    if ops.len() == 0 {
        0
    } else {
        paused(ops.drop_last()) + (match ops.last() {
            mr::OpView::Sleep(ms) => ms as int,
            _ => 0,
        })
    }
}

/// Keys that are held once operations were done.
pub open spec fn held_by(ops: Seq<mr::OpView>) -> Seq<KeyChord>
    decreases ops.len(),
{
    if ops.len() == 0 {
        seq![]
    } else {
        mr::held_after(ops.last(), held_by(ops.drop_last()))
    }
}

/// Whether `up` lets go of what `down` pressed: the last pressed first.
pub open spec fn lets_go(down: Seq<KeyEvent>, up: Seq<KeyEvent>) -> bool {
    &&& up.len() == down.len()
    &&& forall|i: int|
        0 <= i < down.len() ==> (#[trigger] down[i]).down && up[down.len() - 1 - i] == (KeyEvent {
            vk: down[i].vk,
            down: false,
        })
}

/// Whether a chord can be sent: its key has a code, or is a character that can be typed.
pub open spec fn sendable(c: KeyChord) -> bool {
    mr::vk_of(c.key) is Some || c.key is Char
}

/// The key that a Windows virtual-key code stands for, with letters in upper case.
pub open spec fn key_of_code(code: u16) -> Option<Key> {
    if code == 0x08 {
        Some(Key::Backspace)
    } else if code == 0x09 {
        Some(Key::Tab)
    } else if code == 0x0D {
        Some(Key::Enter)
    } else if code == 0x1B {
        Some(Key::Esc)
    } else if code == 0x20 {
        Some(Key::Space)
    } else if code == 0x21 {
        Some(Key::PageUp)
    } else if code == 0x22 {
        Some(Key::PageDown)
    } else if code == 0x23 {
        Some(Key::End)
    } else if code == 0x24 {
        Some(Key::Home)
    } else if code == 0x25 {
        Some(Key::Left)
    } else if code == 0x26 {
        Some(Key::Up)
    } else if code == 0x27 {
        Some(Key::Right)
    } else if code == 0x28 {
        Some(Key::Down)
    } else if code == 0x2E {
        Some(Key::Delete)
    } else if 0x30 <= code <= 0x39 {
        Some(Key::Char(code as char))
    } else if 0x41 <= code <= 0x5A {
        Some(Key::Char((code + 32) as char))
    } else if 0x70 <= code <= 0x7B {
        Some(Key::F((code - 0x6F) as u8))
    } else {
        None
    }
}

// ---------------------------------------------------------------------------
// Concatenation
// ---------------------------------------------------------------------------

proof fn lemma_concat(a: Seq<mr::OpView>, b: Seq<mr::OpView>)
    ensures
        key_events(a + b) == key_events(a) + key_events(b),
        typed(a + b) == typed(a) + typed(b),
        paused(a + b) == paused(a) + paused(b),
    decreases b.len(),
{
    if b.len() == 0 {
        assert(a + b =~= a);
    } else {
        assert((a + b).drop_last() =~= a + b.drop_last());
        lemma_concat(a, b.drop_last());
    }
}

proof fn lemma_single(op: mr::OpView)
    ensures
        key_events(seq![op]) == (match op {
            mr::OpView::SendKeys(e) => e,
            _ => seq![],
        }),
        typed(seq![op]) == (match op {
            mr::OpView::SendText(t) => t,
            _ => seq![],
        }),
        paused(seq![op]) == (match op {
            mr::OpView::Sleep(ms) => ms as int,
            _ => 0,
        }),
{
    assert(seq![op].drop_last() =~= Seq::<mr::OpView>::empty());
    assert(key_events(Seq::<mr::OpView>::empty()) =~= seq![]);
    assert(typed(Seq::<mr::OpView>::empty()) =~= seq![]);
    assert(paused(Seq::<mr::OpView>::empty()) == 0);
    assert(key_events(seq![op]) =~= (match op {
        mr::OpView::SendKeys(e) => e,
        _ => seq![],
    }));
    assert(typed(seq![op]) =~= (match op {
        mr::OpView::SendText(t) => t,
        _ => seq![],
    }));
}

/// Events, text and pauses of the operations of a chord.
proof fn lemma_chord(c: KeyChord, down: bool)
    ensures
        paused(mr::chord_ops(c, down)) == 0,
        mr::vk_of(c.key) matches Some(vk) ==> {
            &&& typed(mr::chord_ops(c, down)) == Seq::<char>::empty()
            &&& key_events(mr::chord_ops(c, down)) == (if down {
                mr::modifiers_down(c).push(KeyEvent { vk, down: true })
            } else {
                seq![KeyEvent { vk, down: false }] + mr::modifiers_up(c)
            })
        },
        mr::vk_of(c.key) is None && c.key is Char ==> {
            &&& typed(mr::chord_ops(c, down)) == (if down {
                seq![c.key->Char_0]
            } else {
                Seq::<char>::empty()
            })
            &&& key_events(mr::chord_ops(c, down)) == (if down {
                mr::modifiers_down(c)
            } else {
                mr::modifiers_up(c)
            })
        },
        !sendable(c) ==> key_events(mr::chord_ops(c, down)) == Seq::<KeyEvent>::empty() && typed(
            mr::chord_ops(c, down),
        ) == Seq::<char>::empty(),
{
    let ops = mr::chord_ops(c, down);
    let none = Seq::<mr::OpView>::empty();
    assert(key_events(none) =~= seq![] && typed(none) =~= seq![] && paused(none) == 0);
    if mr::vk_of(c.key) is Some || !sendable(c) {
        assert(ops =~= seq![ops[0]]);
        lemma_single(ops[0]);
    } else if down {
        let m = mr::send(mr::modifiers_down(c));
        let t = mr::OpView::SendText(seq![c.key->Char_0]);
        assert(ops =~= m + seq![t]);
        lemma_concat(m, seq![t]);
        lemma_single(t);
        if m.len() > 0 {
            assert(m =~= seq![m[0]]);
            lemma_single(m[0]);
        } else {
            assert(m =~= none);
        }
        assert(key_events(ops) =~= mr::modifiers_down(c));
        assert(typed(ops) =~= seq![c.key->Char_0]);
    } else {
        if ops.len() > 0 {
            assert(ops =~= seq![ops[0]]);
            lemma_single(ops[0]);
        } else {
            assert(ops =~= none);
        }
        assert(key_events(ops) =~= mr::modifiers_up(c));
    }
}

/// What a chord presses is let go by what lets it go.
proof fn lemma_chord_lets_go(c: KeyChord)
    ensures
        lets_go(key_events(mr::chord_ops(c, true)), key_events(mr::chord_ops(c, false))),
{
    lemma_chord(c, true);
    lemma_chord(c, false);
    mr::law_modifiers_are_released(c);
    let d = key_events(mr::chord_ops(c, true));
    let u = key_events(mr::chord_ops(c, false));
    let m = mr::modifiers_down(c);
    assert forall|i: int| 0 <= i < d.len() implies (#[trigger] d[i]).down && u[d.len() - 1 - i] == (
    KeyEvent { vk: d[i].vk, down: false }) by {
        if i < m.len() {
            assert(d[i] == m[i]);
        }
    }
}

/// Events of a step.
proof fn lemma_step(step: mt::StepView)
    ensures
        match step {
            mt::StepView::Press(c) => key_events(mr::step_ops(step)) == key_events(
                mr::chord_ops(c, true),
            ) + key_events(mr::chord_ops(c, false)) && typed(mr::step_ops(step)) == typed(
                mr::chord_ops(c, true),
            ) + typed(mr::chord_ops(c, false)) && paused(mr::step_ops(step)) == 40,
            mt::StepView::KeyDown(c) => key_events(mr::step_ops(step)) == key_events(
                mr::chord_ops(c, true),
            ) && typed(mr::step_ops(step)) == typed(mr::chord_ops(c, true)) && paused(
                mr::step_ops(step),
            ) == 0,
            mt::StepView::KeyUp(c) => key_events(mr::step_ops(step)) == key_events(
                mr::chord_ops(c, false),
            ) && typed(mr::step_ops(step)) == typed(mr::chord_ops(c, false)) && paused(
                mr::step_ops(step),
            ) == 0,
            mt::StepView::Type(t) => key_events(mr::step_ops(step)) == Seq::<KeyEvent>::empty()
                && typed(mr::step_ops(step)) == t && paused(mr::step_ops(step)) == 0,
            mt::StepView::Wait(ms) => key_events(mr::step_ops(step)) == Seq::<KeyEvent>::empty()
                && typed(mr::step_ops(step)) == Seq::<char>::empty() && paused(mr::step_ops(step))
                == ms,
            mt::StepView::Focus => key_events(mr::step_ops(step)) == Seq::<KeyEvent>::empty()
                && typed(mr::step_ops(step)) == Seq::<char>::empty() && paused(mr::step_ops(step))
                == 80,
        },
{
    let ops = mr::step_ops(step);
    match step {
        mt::StepView::Press(c) => {
            let n = seq![mr::OpView::NeedForeground];
            let a = mr::chord_ops(c, true);
            let b = mr::chord_ops(c, false);
            let z = seq![mr::OpView::Sleep(mr::KEY_GAP_MS)];
            lemma_concat(n, a);
            lemma_concat(n + a, b);
            lemma_concat(n + a + b, z);
            lemma_single(n[0]);
            lemma_single(z[0]);
            lemma_chord(c, true);
            lemma_chord(c, false);
            assert(key_events(ops) =~= key_events(a) + key_events(b));
            assert(typed(ops) =~= typed(a) + typed(b));
        },
        mt::StepView::KeyDown(c) => {
            let n = seq![mr::OpView::NeedForeground];
            let a = mr::chord_ops(c, true);
            let z = seq![mr::OpView::Hold(c)];
            lemma_concat(n, a);
            lemma_concat(n + a, z);
            lemma_single(n[0]);
            lemma_single(z[0]);
            lemma_chord(c, true);
            assert(key_events(ops) =~= key_events(a));
            assert(typed(ops) =~= typed(a));
        },
        mt::StepView::KeyUp(c) => {
            let n = seq![mr::OpView::NeedForeground];
            let a = mr::chord_ops(c, false);
            let z = seq![mr::OpView::Unhold(c)];
            lemma_concat(n, a);
            lemma_concat(n + a, z);
            lemma_single(n[0]);
            lemma_single(z[0]);
            lemma_chord(c, false);
            assert(key_events(ops) =~= key_events(a));
            assert(typed(ops) =~= typed(a));
        },
        mt::StepView::Wait(ms) => {
            lemma_single(ops[0]);
            assert(ops =~= seq![ops[0]]);
        },
        _ => {
            assert(ops =~= seq![ops[0]] + seq![ops[1]]);
            lemma_concat(seq![ops[0]], seq![ops[1]]);
            lemma_single(ops[0]);
            lemma_single(ops[1]);
            assert(key_events(ops) =~= seq![]);
            assert(typed(ops) =~= (match step {
                mt::StepView::Type(t) => t,
                _ => seq![],
            }));
        },
    }
}

// ---------------------------------------------------------------------------
// Laws
// ---------------------------------------------------------------------------

/// A press presses its modifiers and then its key, and lets go of all of them the other way
/// round. A modifier goes down exactly if the chord has it.
#[verifier::rlimit(40)]
pub proof fn law_press_lets_go_of_what_it_pressed(c: KeyChord)
    ensures
        ({
            let e = key_events(mr::step_ops(mt::StepView::Press(c)));
            let n = e.len() as int / 2;
            let down = e.take(n);
            &&& e.len() == 2 * n
            &&& lets_go(down, e.skip(n))
            &&& mr::vk_of(c.key) matches Some(vk) ==> n > 0 && down.last() == (KeyEvent {
                vk,
                down: true,
            })
            &&& sendable(c) ==> {
                &&& c.ctrl <==> down.contains(KeyEvent { vk: 0x11, down: true })
                &&& c.alt <==> down.contains(KeyEvent { vk: 0x12, down: true })
                &&& c.shift <==> down.contains(KeyEvent { vk: 0x10, down: true })
                &&& c.win <==> down.contains(KeyEvent { vk: 0x5B, down: true })
            }
        }),
{
    lemma_step(mt::StepView::Press(c));
    lemma_chord_lets_go(c);
    lemma_chord(c, true);
    let e = key_events(mr::step_ops(mt::StepView::Press(c)));
    let d = key_events(mr::chord_ops(c, true));
    let u = key_events(mr::chord_ops(c, false));
    let n = e.len() as int / 2;
    assert(e.take(n) =~= d);
    assert(e.skip(n) =~= u);
    if sendable(c) {
        lemma_pressed_modifiers(c);
    }
}

/// The key of a chord is no modifier, so a modifier goes down exactly if the chord has it.
proof fn lemma_pressed_modifiers(c: KeyChord)
    requires
        sendable(c),
    ensures
        ({
            let d = key_events(mr::chord_ops(c, true));
            &&& c.ctrl <==> d.contains(KeyEvent { vk: 0x11, down: true })
            &&& c.alt <==> d.contains(KeyEvent { vk: 0x12, down: true })
            &&& c.shift <==> d.contains(KeyEvent { vk: 0x10, down: true })
            &&& c.win <==> d.contains(KeyEvent { vk: 0x5B, down: true })
        }),
{
    lemma_chord(c, true);
    lemma_modifiers(c);
    let m = mr::modifiers_down(c);
    if let Some(vk) = mr::vk_of(c.key) {
        assert(vk != 0x11 && vk != 0x12 && vk != 0x10 && vk != 0x5B);
        lemma_push_contains(m, vk, KeyEvent { vk: 0x11, down: true });
        lemma_push_contains(m, vk, KeyEvent { vk: 0x12, down: true });
        lemma_push_contains(m, vk, KeyEvent { vk: 0x10, down: true });
        lemma_push_contains(m, vk, KeyEvent { vk: 0x5B, down: true });
    }
}

proof fn lemma_push_contains(m: Seq<KeyEvent>, vk: u16, x: KeyEvent)
    requires
        x.vk != vk,
    ensures
        m.push(KeyEvent { vk, down: true }).contains(x) <==> m.contains(x),
{
    let d = m.push(KeyEvent { vk, down: true });
    if d.contains(x) {
        let i = choose|i: int| 0 <= i < d.len() && d[i] == x;
        assert(m[i] == x);
    }
    if m.contains(x) {
        let i = choose|i: int| 0 <= i < m.len() && m[i] == x;
        assert(d[i] == x);
    }
}

proof fn lemma_modifiers(c: KeyChord)
    ensures
        c.ctrl <==> mr::modifiers_down(c).contains(KeyEvent { vk: 0x11, down: true }),
        c.alt <==> mr::modifiers_down(c).contains(KeyEvent { vk: 0x12, down: true }),
        c.shift <==> mr::modifiers_down(c).contains(KeyEvent { vk: 0x10, down: true }),
        c.win <==> mr::modifiers_down(c).contains(KeyEvent { vk: 0x5B, down: true }),
{
    let m = mr::modifiers_down(c);
    let a: int = if c.ctrl { 1 } else { 0 };
    let b: int = if c.alt { a + 1 } else { a };
    let d: int = if c.shift { b + 1 } else { b };
    if c.ctrl {
        assert(m[0] == (KeyEvent { vk: 0x11, down: true }));
    }
    if c.alt {
        assert(m[a] == (KeyEvent { vk: 0x12, down: true }));
    }
    if c.shift {
        assert(m[b] == (KeyEvent { vk: 0x10, down: true }));
    }
    if c.win {
        assert(m[d] == (KeyEvent { vk: 0x5B, down: true }));
    }
}

/// Letting a chord go lets go of exactly what pressing it down pressed, its key included.
pub proof fn law_keyup_undoes_keydown(c: KeyChord)
    ensures
        lets_go(
            key_events(mr::step_ops(mt::StepView::KeyDown(c))),
            key_events(mr::step_ops(mt::StepView::KeyUp(c))),
        ),
        mr::vk_of(c.key) matches Some(vk) ==> key_events(
            mr::step_ops(mt::StepView::KeyDown(c)),
        ).contains(KeyEvent { vk, down: true }),
        held_by(mr::step_ops(mt::StepView::KeyDown(c))) == seq![c],
        held_by(mr::step_ops(mt::StepView::KeyDown(c)) + mr::step_ops(mt::StepView::KeyUp(c)))
            == Seq::<KeyChord>::empty(),
{
    lemma_step(mt::StepView::KeyDown(c));
    lemma_step(mt::StepView::KeyUp(c));
    lemma_chord_lets_go(c);
    lemma_chord(c, true);
    let d = key_events(mr::step_ops(mt::StepView::KeyDown(c)));
    if let Some(vk) = mr::vk_of(c.key) {
        assert(d[d.len() - 1] == (KeyEvent { vk, down: true }));
    }
    let none = Seq::<mr::OpView>::empty();
    assert(none + mr::step_ops(mt::StepView::KeyDown(c)) =~= mr::step_ops(
        mt::StepView::KeyDown(c),
    ));
    lemma_held_step(none, mt::StepView::KeyDown(c));
    lemma_held_step(mr::step_ops(mt::StepView::KeyDown(c)), mt::StepView::KeyUp(c));
    assert(held_by(none) =~= seq![]);
    assert(held_by(mr::step_ops(mt::StepView::KeyDown(c))) =~= seq![c]);
    let f = |h: KeyChord| h != c;
    assert(seq![c].drop_last() =~= Seq::<KeyChord>::empty());
    reveal(Seq::filter);
    assert(Seq::<KeyChord>::empty().filter(f) =~= seq![]);
    assert(seq![c].filter(f) =~= seq![]);
}

/// Held keys after a step.
proof fn lemma_held_step(before: Seq<mr::OpView>, step: mt::StepView)
    ensures
        held_by(before + mr::step_ops(step)) == (match step {
            mt::StepView::KeyDown(c) => held_by(before).push(c),
            mt::StepView::KeyUp(c) => held_by(before).filter(|h: KeyChord| h != c),
            _ => held_by(before),
        }),
{
    let ops = mr::step_ops(step);
    let all = before + ops;
    match step {
        mt::StepView::KeyDown(c) => {
            assert(all.drop_last() =~= before + ops.drop_last());
            lemma_held_plain(before, ops.drop_last());
        },
        mt::StepView::KeyUp(c) => {
            assert(all.drop_last() =~= before + ops.drop_last());
            lemma_held_plain(before, ops.drop_last());
        },
        _ => {
            lemma_held_plain(before, ops);
        },
    }
}

proof fn lemma_held_plain(before: Seq<mr::OpView>, ops: Seq<mr::OpView>)
    requires
        forall|i: int| 0 <= i < ops.len() ==> !(#[trigger] ops[i] is Hold) && !(ops[i] is Unhold),
    ensures
        held_by(before + ops) == held_by(before),
    decreases ops.len(),
{
    if ops.len() == 0 {
        assert(before + ops =~= before);
    } else {
        assert((before + ops).drop_last() =~= before + ops.drop_last());
        lemma_held_plain(before, ops.drop_last());
    }
}

/// Whether every key that goes down in `e` goes up later in `e`, or is one of those that letting
/// go of `held` lets go of.
spec fn accounted(e: Seq<KeyEvent>, held: Seq<KeyChord>) -> bool {
    forall|i: int|
        0 <= i < e.len() && (#[trigger] e[i]).down ==> goes_up(e, i) || exists|h: int|
            0 <= h < held.len() && presses(#[trigger] held[h], e[i].vk)
}

/// Whether the key of event `i` goes up behind it.
pub open spec fn goes_up(e: Seq<KeyEvent>, i: int) -> bool {
    exists|j: int| i < j < e.len() && #[trigger] e[j] == (KeyEvent { vk: e[i].vk, down: false })
}

spec fn presses(c: KeyChord, vk: u16) -> bool {
    key_events(mr::chord_ops(c, true)).contains(KeyEvent { vk, down: true })
}

proof fn lemma_lets_go_of(c: KeyChord, vk: u16)
    requires
        presses(c, vk),
    ensures
        key_events(mr::chord_ops(c, false)).contains(KeyEvent { vk, down: false }),
{
    lemma_chord_lets_go(c);
    let d = key_events(mr::chord_ops(c, true));
    let u = key_events(mr::chord_ops(c, false));
    let i = choose|i: int| 0 <= i < d.len() && d[i] == (KeyEvent { vk, down: true });
    assert(u[d.len() - 1 - i] == (KeyEvent { vk, down: false }));
}

proof fn lemma_goes_up_later(a: Seq<KeyEvent>, b: Seq<KeyEvent>, i: int)
    requires
        0 <= i < a.len(),
    ensures
        goes_up(a, i) ==> goes_up(a + b, i),
        b.contains(KeyEvent { vk: a[i].vk, down: false }) ==> goes_up(a + b, i),
{
    let e = a + b;
    assert(e[i] == a[i]);
    if goes_up(a, i) {
        let j = choose|j: int|
            i < j < a.len() && #[trigger] a[j] == (KeyEvent { vk: a[i].vk, down: false });
        assert(e[j] == a[j]);
    }
    let x = KeyEvent { vk: a[i].vk, down: false };
    if b.contains(x) {
        let j = choose|j: int| 0 <= j < b.len() && b[j] == x;
        assert(e[a.len() + j] == x);
    }
}

proof fn lemma_accounted_step(e: Seq<KeyEvent>, held: Seq<KeyChord>, step: mt::StepView)
    requires
        accounted(e, held),
    ensures
        accounted(
            e + key_events(mr::step_ops(step)),
            match step {
                mt::StepView::KeyDown(c) => held.push(c),
                mt::StepView::KeyUp(c) => held.filter(|h: KeyChord| h != c),
                _ => held,
            },
        ),
{
    let more = key_events(mr::step_ops(step));
    let all = e + more;
    lemma_step(step);
    let after = match step {
        mt::StepView::KeyDown(c) => held.push(c),
        mt::StepView::KeyUp(c) => held.filter(|h: KeyChord| h != c),
        _ => held,
    };
    assert forall|i: int| 0 <= i < all.len() && (#[trigger] all[i]).down implies goes_up(all, i)
        || exists|h: int| 0 <= h < after.len() && presses(#[trigger] after[h], all[i].vk) by {
        if i < e.len() {
            assert(all[i] == e[i]);
            lemma_goes_up_later(e, more, i);
            if !goes_up(e, i) {
                let h = choose|h: int|
                    0 <= h < held.len() && presses(#[trigger] held[h], e[i].vk);
                match step {
                    mt::StepView::KeyDown(c) => {
                        assert(after[h] == held[h]);
                    },
                    mt::StepView::KeyUp(c) => {
                        if held[h] == c {
                            lemma_lets_go_of(c, e[i].vk);
                        } else {
                            let f = |x: KeyChord| x != c;
                            held.lemma_filter_contains(f, h);
                            let k = choose|k: int| 0 <= k < after.len() && after[k] == held[h];
                            assert(presses(after[k], all[i].vk));
                        }
                    },
                    _ => {
                        assert(after[h] == held[h]);
                    },
                }
            }
        } else {
            let k = i - e.len();
            assert(all[i] == more[k]);
            match step {
                mt::StepView::Press(c) => {
                    lemma_chord_lets_go(c);
                    let d = key_events(mr::chord_ops(c, true));
                    let u = key_events(mr::chord_ops(c, false));
                    if k < d.len() {
                        assert(more[k] == d[k]);
                        let j = d.len() + (d.len() - 1 - k);
                        assert(more[j] == u[d.len() - 1 - k]);
                        assert(all[e.len() + j] == (KeyEvent { vk: all[i].vk, down: false }));
                    } else {
                        let q = k - d.len();
                        assert(more[k] == u[q]);
                        assert(d[d.len() - 1 - q].down);
                        assert(!u[q].down);
                    }
                },
                mt::StepView::KeyDown(c) => {
                    assert(after[held.len() as int] == c);
                    assert(presses(c, all[i].vk)) by {
                        assert(more[k] == (KeyEvent { vk: all[i].vk, down: true }));
                    }
                },
                mt::StepView::KeyUp(c) => {
                    lemma_chord_lets_go(c);
                    let d = key_events(mr::chord_ops(c, true));
                    assert(d[d.len() - 1 - k].down);
                    assert(!more[k].down);
                },
                _ => {},
            }
        }
    }
}

proof fn lemma_accounted(steps: Seq<mt::StepView>)
    ensures
        accounted(key_events(mr::program(steps)), held_by(mr::program(steps))),
    decreases steps.len(),
{
    if steps.len() > 0 {
        let head = mr::program(steps.drop_last());
        lemma_accounted(steps.drop_last());
        lemma_accounted_step(key_events(head), held_by(head), steps.last());
        lemma_concat(head, mr::step_ops(steps.last()));
        lemma_held_step(head, steps.last());
    }
}

proof fn lemma_releases(held: Seq<KeyChord>, h: int, vk: u16)
    requires
        0 <= h < held.len(),
        presses(held[h], vk),
    ensures
        key_events(mr::releases(held)).contains(KeyEvent { vk, down: false }),
    decreases held.len(),
{
    let a = mr::chord_ops(held.last(), false);
    let b = mr::releases(held.drop_last());
    lemma_concat(a, b);
    let x = KeyEvent { vk, down: false };
    if h == held.len() - 1 {
        lemma_lets_go_of(held[h], vk);
        let i = choose|i: int| 0 <= i < key_events(a).len() && key_events(a)[i] == x;
        assert(key_events(mr::releases(held))[i] == x);
    } else {
        assert(held.drop_last()[h] == held[h]);
        lemma_releases(held.drop_last(), h, vk);
        let i = choose|i: int| 0 <= i < key_events(b).len() && key_events(b)[i] == x;
        assert(key_events(mr::releases(held))[key_events(a).len() + i] == x);
    }
}

proof fn lemma_releases_only_up(held: Seq<KeyChord>, i: int)
    requires
        0 <= i < key_events(mr::releases(held)).len(),
    ensures
        !key_events(mr::releases(held))[i].down,
    decreases held.len(),
{
    if held.len() > 0 {
        let c = held.last();
        let a = mr::chord_ops(c, false);
        let b = mr::releases(held.drop_last());
        lemma_concat(a, b);
        lemma_chord_lets_go(c);
        let d = key_events(mr::chord_ops(c, true));
        if i < key_events(a).len() {
            assert(d[d.len() - 1 - i].down);
        } else {
            lemma_releases_only_up(held.drop_last(), i - key_events(a).len());
        }
    } else {
        assert(key_events(mr::releases(held)) =~= seq![]);
    }
}

/// No key stays down: whatever a macro presses goes up later, in the macro itself or when what
/// it holds in the end is let go.
pub proof fn law_no_key_stays_down(steps: Seq<mt::StepView>, i: int)
    requires
        ({
            let ops = mr::program(steps);
            let e = key_events(ops + mr::releases(held_by(ops)));
            0 <= i < e.len() && e[i].down
        }),
    ensures
        ({
            let ops = mr::program(steps);
            goes_up(key_events(ops + mr::releases(held_by(ops))), i)
        }),
{
    let ops = mr::program(steps);
    let held = held_by(ops);
    let a = key_events(ops);
    let b = key_events(mr::releases(held));
    lemma_concat(ops, mr::releases(held));
    lemma_accounted(steps);
    if i < a.len() {
        assert((a + b)[i] == a[i]);
        lemma_goes_up_later(a, b, i);
        if !goes_up(a, i) {
            let h = choose|h: int| 0 <= h < held.len() && presses(#[trigger] held[h], a[i].vk);
            lemma_releases(held, h, a[i].vk);
        }
    } else {
        lemma_releases_only_up(held, i - a.len());
    }
}

/// Keys are sent under their Windows codes: each code of a key stands for that key. Characters
/// are those that a macro can name.
pub proof fn law_codes_stand_for_their_keys(key: Key)
    requires
        key matches Key::Char(c) ==> ('a' <= c <= 'z') || ('0' <= c <= '9'),
    ensures
        match mr::vk_of(key) {
            Some(code) => key_of_code(code) == Some(key),
            None => key matches Key::F(n) && !(1 <= n <= 12),
        },
{
}

/// A `type` step types its text and nothing else; a press of a character without a code types
/// that character, and other presses type nothing.
pub proof fn law_text_is_typed(step: mt::StepView)
    ensures
        typed(mr::step_ops(step)) == (match step {
            mt::StepView::Type(t) => t,
            mt::StepView::Press(c) => if mr::vk_of(c.key) is None && c.key is Char {
                seq![c.key->Char_0]
            } else {
                seq![]
            },
            mt::StepView::KeyDown(c) => if mr::vk_of(c.key) is None && c.key is Char {
                seq![c.key->Char_0]
            } else {
                seq![]
            },
            _ => seq![],
        }),
        !(step is Press || step is KeyDown || step is KeyUp) ==> key_events(mr::step_ops(step))
            == Seq::<KeyEvent>::empty(),
{
    lemma_step(step);
    match step {
        mt::StepView::Press(c) => {
            lemma_chord(c, true);
            lemma_chord(c, false);
            assert(typed(mr::chord_ops(c, true)) + Seq::<char>::empty() =~= typed(
                mr::chord_ops(c, true),
            ));
        },
        mt::StepView::KeyDown(c) => {
            lemma_chord(c, true);
        },
        mt::StepView::KeyUp(c) => {
            lemma_chord(c, false);
        },
        _ => {},
    }
}

/// Pauses of steps: a wait is as long as written, focusing settles for 80 ms and a press for 40.
pub open spec fn step_pause(step: mt::StepView) -> int {
    match step {
        mt::StepView::Wait(ms) => ms as int,
        mt::StepView::Focus => 80,
        mt::StepView::Press(_) => 40,
        _ => 0,
    }
}

/// Sum of the pauses of steps.
pub open spec fn step_pauses(steps: Seq<mt::StepView>) -> int
    decreases steps.len(),
{
    if steps.len() == 0 {
        0
    } else {
        step_pauses(steps.drop_last()) + step_pause(steps.last())
    }
}

/// A macro pauses as long as its steps say.
pub proof fn law_macro_pauses_as_its_steps_say(steps: Seq<mt::StepView>)
    ensures
        paused(mr::program(steps)) == step_pauses(steps),
    decreases steps.len(),
{
    if steps.len() > 0 {
        law_macro_pauses_as_its_steps_say(steps.drop_last());
        lemma_concat(mr::program(steps.drop_last()), mr::step_ops(steps.last()));
        lemma_step(steps.last());
    }
}

/// Steps are done in their order: what two macros do one after the other is what the macro of
/// all their steps does.
pub proof fn law_steps_run_in_order(a: Seq<mt::StepView>, b: Seq<mt::StepView>)
    ensures
        mr::program(a + b) == mr::program(a) + mr::program(b),
        key_events(mr::program(a + b)) == key_events(mr::program(a)) + key_events(mr::program(b)),
        typed(mr::program(a + b)) == typed(mr::program(a)) + typed(mr::program(b)),
    decreases b.len(),
{
    if b.len() == 0 {
        assert(a + b =~= a);
        assert(mr::program(a) + mr::program(b) =~= mr::program(a));
    } else {
        law_steps_run_in_order(a, b.drop_last());
        assert((a + b).drop_last() =~= a + b.drop_last());
        assert(mr::program(a + b) =~= mr::program(a) + mr::program(b));
    }
    lemma_concat(mr::program(a), mr::program(b));
}

/// What any call compiles from a single press lets go of every key that it pressed; what calls
/// compile from a key-up lets go of what they compile from the key-down of the same chord.
pub proof fn law_calls_compile_presses_that_let_go(
    c: KeyChord,
    press: &[mt::Step],
    down: &[mt::Step],
    up: &[mt::Step],
    p: Vec<mr::Op>,
    d: Vec<mr::Op>,
    u: Vec<mr::Op>,
)
    requires
        mt::steps_view(press@) == seq![mt::StepView::Press(c)],
        mt::steps_view(down@) == seq![mt::StepView::KeyDown(c)],
        mt::steps_view(up@) == seq![mt::StepView::KeyUp(c)],
        call_ensures(mr::compile, (press,), p),
        call_ensures(mr::compile, (down,), d),
        call_ensures(mr::compile, (up,), u),
    ensures
        lets_go(key_events(mr::ops_view(d@)), key_events(mr::ops_view(u@))),
        mr::vk_of(c.key) matches Some(vk) ==> key_events(mr::ops_view(d@)).contains(
            KeyEvent { vk, down: true },
        ),
        ({
            let e = key_events(mr::ops_view(p@));
            let n = e.len() as int / 2;
            &&& e.len() == 2 * n
            &&& lets_go(e.take(n), e.skip(n))
            &&& mr::vk_of(c.key) is Some ==> n > 0
        }),
{
    law_press_lets_go_of_what_it_pressed(c);
    law_keyup_undoes_keydown(c);
    lemma_one_step(mt::StepView::Press(c));
    lemma_one_step(mt::StepView::KeyDown(c));
    lemma_one_step(mt::StepView::KeyUp(c));
}

proof fn lemma_one_step(step: mt::StepView)
    ensures
        mr::program(seq![step]) == mr::step_ops(step),
{
    let s = seq![step];
    assert(s.drop_last() =~= Seq::<mt::StepView>::empty());
    assert(mr::program(s.drop_last()) =~= Seq::<mr::OpView>::empty());
    assert(mr::program(s) =~= mr::step_ops(step));
}

/// Whether a run knows which keys its operations so far hold.
pub open spec fn knows_its_keys(run: mr::MacroRun) -> bool {
    run.at <= run.ops@.len() && run.held@ == held_by(mr::ops_view(run.ops@).take(run.at as int))
}

/// A run that begins, or goes on by any call, knows at every point which keys it holds; one that
/// is past its last operation and then calls for the release lets every key go that went down.
pub proof fn law_runs_know_the_keys_they_hold(
    steps: &[mt::Step],
    game_runs: bool,
    begun: mr::MacroRun,
    run: &mut mr::MacroRun,
    reply: mr::Reply,
)
    requires
        call_ensures(mr::MacroRun::begin, (steps, game_runs), begun),
        old(run).running(),
        call_ensures(mr::MacroRun::advance, (run, reply), ()),
    ensures
        knows_its_keys(begun),
        begun.error is Some <==> !game_runs,
        knows_its_keys(*old(run)) ==> knows_its_keys(*final(run)),
        final(run).ops == old(run).ops,
        final(run).error is None ==> final(run).at == old(run).at + 1,
        final(run).error is Some ==> final(run).at == old(run).at,
{
    let ops = mr::ops_view(old(run).ops@);
    let n = old(run).at as int;
    assert(mr::ops_view(begun.ops@).take(0) =~= Seq::<mr::OpView>::empty());
    assert(begun.held@ =~= Seq::<KeyChord>::empty());
    if final(run).error is None {
        assert(ops.take(n + 1).drop_last() =~= ops.take(n));
        assert(ops.take(n + 1).last() == old(run).ops@[n]@);
    }
}

/// Once a run that knows its keys is through, the operations of any call for the release let go
/// of whatever is still down.
pub proof fn law_release_lets_every_key_go(
    steps: &[mt::Step],
    run: &mr::MacroRun,
    out: Vec<mr::Op>,
    i: int,
)
    requires
        mr::ops_view(run.ops@) == mr::program(mt::steps_view(steps@)),
        knows_its_keys(*run),
        run.at == run.ops@.len(),
        call_ensures(mr::MacroRun::release, (run,), out),
        0 <= i < key_events(mr::ops_view(run.ops@) + mr::ops_view(out@)).len(),
        key_events(mr::ops_view(run.ops@) + mr::ops_view(out@))[i].down,
    ensures
        goes_up(key_events(mr::ops_view(run.ops@) + mr::ops_view(out@)), i),
{
    let ops = mr::ops_view(run.ops@);
    assert(ops.take(ops.len() as int) =~= ops);
    law_no_key_stays_down(mt::steps_view(steps@), i);
}

} // verus!
