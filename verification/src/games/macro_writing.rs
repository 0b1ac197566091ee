//! How steps are written, and that they are read as written.
use crate::games::macro_join;
use crate::games::macro_text as mt;
use crate::games::macro_text::{Key, KeyChord};
use crate::text;
use vstd::prelude::*;

verus! {

// ---------------------------------------------------------------------------
// Writing
// ---------------------------------------------------------------------------

/// Whether there is a name for a key: function keys go up to twelve, and characters are lower
/// case letters and digits. An `f` alone is a function key without its number.
pub open spec fn nameable(key: Key) -> bool {
    match key {
        Key::F(n) => 1 <= n <= 12,
        Key::Char(c) => (('a' <= c <= 'z') || ('0' <= c <= '9')) && c != 'f',
        _ => true,
    }
}

/// Names of a key.
pub open spec fn key_names(key: Key) -> Seq<Seq<char>> {
    match key {
        Key::Enter => seq!["enter"@, "return"@],
        Key::Esc => seq!["esc"@, "escape"@],
        Key::Tab => seq!["tab"@],
        Key::Space => seq!["space"@],
        Key::Backspace => seq!["backspace"@],
        Key::Delete => seq!["delete"@, "del"@],
        Key::Up => seq!["up"@],
        Key::Down => seq!["down"@],
        Key::Left => seq!["left"@],
        Key::Right => seq!["right"@],
        Key::Home => seq!["home"@],
        Key::End => seq!["end"@],
        Key::PageUp => seq!["pageup"@, "pgup"@],
        Key::PageDown => seq!["pagedown"@, "pgdn"@],
        Key::F(n) => seq![seq!['f'] + text::dec(n as nat)],
        Key::Char(c) => seq![seq![c]],
    }
}

/// A key without modifiers.
pub open spec fn bare(key: Key) -> KeyChord {
    KeyChord { ctrl: false, alt: false, shift: false, win: false, key }
}

/// A modifier as it is written, or nothing.
pub open spec fn held(on: bool, name: Seq<char>) -> Seq<char> {
    if on {
        name
    } else {
        seq![]
    }
}

/// A chord as it is written.
pub open spec fn chord_text(c: KeyChord) -> Seq<char> {
    held(c.ctrl, "ctrl+"@) + (held(c.alt, "alt+"@) + (held(c.shift, "shift+"@) + (held(
        c.win,
        "win+"@,
    ) + key_names(c.key)[0])))
}

/// Text with quotes and backslashes escaped.
pub open spec fn escaped(t: Seq<char>) -> Seq<char>
    decreases t.len(),
{
    if t.len() == 0 {
        seq![]
    } else if t[0] == '"' || t[0] == '\\' {
        seq!['\\', t[0]] + escaped(t.skip(1))
    } else {
        seq![t[0]] + escaped(t.skip(1))
    }
}

/// Text in quotes.
pub open spec fn quoted(t: Seq<char>) -> Seq<char> {
    seq!['"'] + (escaped(t) + seq!['"'])
}

/// A step as it is written.
pub open spec fn step_text(step: mt::StepView) -> Seq<char> {
    match step {
        mt::StepView::Focus => "focus"@,
        mt::StepView::Wait(ms) => "wait "@ + text::dec(ms as nat),
        mt::StepView::Press(c) => "press "@ + chord_text(c),
        mt::StepView::Type(t) => "type "@ + quoted(t),
        mt::StepView::KeyDown(c) => "keydown "@ + chord_text(c),
        mt::StepView::KeyUp(c) => "keyup "@ + chord_text(c),
    }
}

/// Whether a step can be written: its key has a name, and its wait is no longer than two seconds.
pub open spec fn writable(step: mt::StepView) -> bool {
    match step {
        mt::StepView::Wait(ms) => ms <= 2000,
        mt::StepView::Press(c) => nameable(c.key),
        mt::StepView::KeyDown(c) => nameable(c.key),
        mt::StepView::KeyUp(c) => nameable(c.key),
        _ => true,
    }
}

/// Steps as they are written, one behind the other.
pub open spec fn chain_text(steps: Seq<mt::StepView>) -> Seq<char>
    decreases steps.len(),
{
    if steps.len() <= 1 {
        step_text(steps[0])
    } else {
        chain_text(steps.drop_last()) + " > "@ + step_text(steps.last())
    }
}

/// An action of one step.
pub open spec fn one(step: mt::StepView) -> Result<Seq<mt::StepView>, Seq<char>> {
    Ok(seq![step])
}

// ---------------------------------------------------------------------------
// Plain text
// ---------------------------------------------------------------------------

/// Whether text has neither quotes nor arrows.
spec fn plain(s: Seq<char>) -> bool {
    forall|i: int| 0 <= i < s.len() ==> #[trigger] s[i] != '"' && s[i] != '>'
}

proof fn lemma_plain_scan(s: Seq<char>)
    requires
        plain(s),
    ensures
        mt::next_separator(s, false, false) == s.len(),
        !mt::quote_open(s, false, false),
    decreases s.len(),
{
    if s.len() > 0 {
        assert(s[0] != '"');
        if s.len() > 2 {
            assert(s[1] != '>');
        }
        assert forall|i: int| 0 <= i < s.skip(1).len() implies #[trigger] s.skip(1)[i] != '"'
            && s.skip(1)[i] != '>' by {
            assert(s.skip(1)[i] == s[i + 1]);
        }
        lemma_plain_scan(s.skip(1));
    }
}

proof fn lemma_trim_end_char(s: Seq<char>)
    ensures
        s.len() > 0 && !text::is_space(s.last()) ==> text::trim_end(s) == s,
        s.len() > 0 && text::is_space(s.last()) ==> text::trim_end(s) == text::trim_end(s.drop_last()),
{
}

/// Trimming the end again, or in front of more text, changes nothing.
proof fn lemma_trim_end_keeps(s: Seq<char>)
    ensures
        text::trim_end(s).len() <= s.len(),
        text::trim_end(s) == s.take(text::trim_end(s).len() as int),
        text::trim_end(s).len() > 0 ==> !text::is_space(text::trim_end(s).last()),
        forall|i: int|
            text::trim_end(s).len() <= i < s.len() ==> text::is_space(#[trigger] s[i]),
    decreases s.len(),
{
    if s.len() > 0 && text::is_space(s.last()) {
        lemma_trim_end_keeps(s.drop_last());
        let t = text::trim_end(s);
        assert(s.drop_last().take(t.len() as int) == s.take(t.len() as int));
        assert forall|i: int| t.len() <= i < s.len() implies text::is_space(#[trigger] s[i]) by {
            if i < s.len() - 1 {
                assert(s.drop_last()[i] == s[i]);
            }
        }
    } else {
        assert(s.take(s.len() as int) == s);
    }
}

proof fn lemma_trim_start_keeps(s: Seq<char>)
    ensures
        text::trim_start(s).len() <= s.len(),
        text::trim_start(s) == s.skip(s.len() - text::trim_start(s).len()),
        text::trim_start(s).len() > 0 ==> !text::is_space(text::trim_start(s)[0]),
        forall|i: int|
            0 <= i < s.len() - text::trim_start(s).len() ==> text::is_space(#[trigger] s[i]),
    decreases s.len(),
{
    if s.len() > 0 && text::is_space(s[0]) {
        let d = s.drop_first();
        lemma_trim_start_keeps(d);
        let t = text::trim_start(s);
        assert(d.skip(d.len() - t.len()) == s.skip(s.len() - t.len()));
        assert forall|i: int| 0 <= i < s.len() - t.len() implies text::is_space(#[trigger] s[i]) by {
            if i > 0 {
                assert(d[i - 1] == s[i]);
            }
        }
    } else {
        assert(s.skip(0) == s);
    }
}

/// Text that begins and ends with something is left alone.
proof fn lemma_trim_tight(s: Seq<char>)
    requires
        s.len() > 0,
        !text::is_space(s[0]),
        !text::is_space(s.last()),
    ensures
        text::trim(s) == s,
        text::trim_start(s) == s,
        text::trim_end(s) == s,
{
}

/// A character that is no white space stays.
proof fn lemma_trim_has(s: Seq<char>, i: int)
    requires
        0 <= i < s.len(),
        !text::is_space(s[i]),
    ensures
        text::trim(s).contains(s[i]),
        text::trim(s).len() > 0,
        exists|d: int| 0 <= d && #[trigger] tail_at(s, d) == text::trim(s) && d <= i < d + text::trim(s).len(),
{
    lemma_trim_start_keeps(s);
    let a = text::trim_start(s);
    let d = s.len() - a.len();
    assert(d <= i);
    assert(a[i - d] == s[i]);
    lemma_trim_end_keeps(a);
    let t = text::trim_end(a);
    assert(i - d < t.len());
    assert(t[i - d] == s[i]);
    assert(tail_at(s, d) == t);
}

/// Trimmed text within text, from `d` on.
spec fn tail_at(s: Seq<char>, d: int) -> Seq<char> {
    text::trim_end(s.skip(d))
}

// ---------------------------------------------------------------------------
// Chords
// ---------------------------------------------------------------------------

/// Whether text is letters only, in lower case.
spec fn letters(s: Seq<char>) -> bool {
    forall|i: int| 0 <= i < s.len() ==> 'a' <= #[trigger] s[i] <= 'z'
}

proof fn lemma_names_are_letters(lower: Seq<char>)
    requires
        mt::named_key(lower) is Some,
    ensures
        letters(lower),
        lower.len() > 1,
{
    reveal_strlit("enter");
    reveal_strlit("return");
    reveal_strlit("esc");
    reveal_strlit("escape");
    reveal_strlit("tab");
    reveal_strlit("space");
    reveal_strlit("backspace");
    reveal_strlit("delete");
    reveal_strlit("del");
    reveal_strlit("up");
    reveal_strlit("down");
    reveal_strlit("left");
    reveal_strlit("right");
    reveal_strlit("home");
    reveal_strlit("end");
    reveal_strlit("pageup");
    reveal_strlit("pgup");
    reveal_strlit("pagedown");
    reveal_strlit("pgdn");
}

/// What a key is written with: no quote, no arrow, and a sign only behind an `f`.
proof fn lemma_key_chars(s: Seq<char>)
    requires
        mt::key_of(s) is Ok,
    ensures
        plain(s),
        text::trim(s).len() > 0,
        forall|i: int|
            0 <= i < text::trim(s).len() && #[trigger] text::trim(s)[i] == '+' ==> text::lower(
                text::trim(s)[0],
            ) == 'f' && text::trim(s).len() <= 3,
{
    let t = text::trim(s);
    let lower = text::ascii_lower(t);
    assert forall|i: int| 0 <= i < t.len() implies #[trigger] t[i] != '"' && t[i] != '>' && (t[i]
        == '+' ==> text::lower(t[0]) == 'f' && t.len() <= 3) by {
        assert(lower[i] == text::lower(t[i]));
        assert(lower[0] == text::lower(t[0]));
        if mt::named_key(lower) is Some {
            lemma_names_are_letters(lower);
            assert('a' <= lower[i] <= 'z');
        } else if lower.len() > 0 && lower[0] == 'f' && lower.len() <= 3 {
            let d = text::unsigned_digits(lower.skip(1));
            if i > 0 && t[i] != '+' {
                assert(lower.skip(1)[i - 1] == lower[i]);
                if lower.skip(1)[0] == '+' {
                    assert(i > 1) by {
                        if i == 1 {
                            assert(lower[1] == '+');
                            assert(text::lower(t[1]) == '+');
                        }
                    }
                    assert(d[i - 2] == lower[i]);
                    assert(text::is_digit(d[i - 2]));
                } else {
                    assert(d[i - 1] == lower[i]);
                    assert(text::is_digit(d[i - 1]));
                }
            }
        }
    }
    assert forall|i: int| 0 <= i < s.len() implies #[trigger] s[i] != '"' && s[i] != '>' by {
        if !text::is_space(s[i]) {
            lemma_trim_has(s, i);
            let j = choose|j: int| 0 <= j < t.len() && t[j] == s[i];
            assert(t[j] == s[i]);
        }
    }
    if t.len() == 0 {
        assert(lower.len() == 0);
        if mt::named_key(lower) is Some {
            lemma_names_are_letters(lower);
        }
    }
}

spec fn ctrl_name() -> Seq<char> {
    seq!['c', 't', 'r', 'l', '+']
}

spec fn alt_name() -> Seq<char> {
    seq!['a', 'l', 't', '+']
}

spec fn shift_name() -> Seq<char> {
    seq!['s', 'h', 'i', 'f', 't', '+']
}

spec fn win_name() -> Seq<char> {
    seq!['w', 'i', 'n', '+']
}

/// Whether text begins with a modifier.
spec fn modified(s: Seq<char>) -> bool {
    mt::begins_ignoring_case(s, ctrl_name()) || mt::begins_ignoring_case(s, alt_name())
        || mt::begins_ignoring_case(s, shift_name()) || mt::begins_ignoring_case(s, win_name())
}

proof fn lemma_begin_chars(s: Seq<char>, p: Seq<char>, i: int)
    requires
        mt::begins_ignoring_case(s, p),
        0 <= i < p.len(),
    ensures
        s.len() >= p.len(),
        text::lower(s[i]) == p[i],
{
    let l = text::ascii_lower(s);
    assert(l.take(p.len() as int)[i] == p[i]);
}

/// A modifier in front is no key.
proof fn lemma_modified_is_no_key(s: Seq<char>)
    requires
        modified(s),
    ensures
        mt::key_of(s) is Err,
        s.len() >= 4,
        !text::is_space(s[0]),
{
    let n: int = if mt::begins_ignoring_case(s, ctrl_name()) {
        lemma_begin_chars(s, ctrl_name(), 0);
        lemma_begin_chars(s, ctrl_name(), 4);
        4
    } else if mt::begins_ignoring_case(s, alt_name()) {
        lemma_begin_chars(s, alt_name(), 0);
        lemma_begin_chars(s, alt_name(), 3);
        3
    } else if mt::begins_ignoring_case(s, shift_name()) {
        lemma_begin_chars(s, shift_name(), 0);
        lemma_begin_chars(s, shift_name(), 5);
        5
    } else {
        lemma_begin_chars(s, win_name(), 0);
        lemma_begin_chars(s, win_name(), 3);
        3
    };
    assert(s[n] == '+');
    if mt::key_of(s) is Ok {
        lemma_key_chars(s);
        let t = text::trim(s);
        assert(text::trim_start(s) == s);
        lemma_trim_end_keeps(s);
        assert(n < t.len());
        assert(t[n] == '+');
        assert(t[0] == s[0]);
        assert(false);
    }
}

proof fn lemma_begins_less(s: Seq<char>, p: Seq<char>)
    requires
        s.len() > 0,
    ensures
        mt::begins_ignoring_case(s.drop_last(), p) ==> mt::begins_ignoring_case(s, p),
        mt::begins_ignoring_case(s, p) && s.len() > p.len() ==> mt::begins_ignoring_case(
            s.drop_last(),
            p,
        ),
{
    let l = text::ascii_lower(s);
    let m = text::ascii_lower(s.drop_last());
    assert(m == l.drop_last());
    if m.len() >= p.len() {
        assert(m.take(p.len() as int) == l.take(p.len() as int));
    }
}

/// White space behind a chord does not matter.
proof fn lemma_chord_space_behind(
    s: Seq<char>,
    ctrl: bool,
    alt: bool,
    shift: bool,
    win: bool,
)
    requires
        mt::chord_of(s, ctrl, alt, shift, win) is Ok,
        s.len() > 0,
        text::is_space(s.last()),
    ensures
        mt::chord_of(s.drop_last(), ctrl, alt, shift, win) == mt::chord_of(s, ctrl, alt, shift, win),
        s.len() > 1,
    decreases s.len(),
{
    let d = s.drop_last();
    lemma_begins_less(s, ctrl_name());
    lemma_begins_less(s, alt_name());
    lemma_begins_less(s, shift_name());
    lemma_begins_less(s, win_name());
    if mt::begins_ignoring_case(s, ctrl_name()) {
        lemma_begin_chars(s, ctrl_name(), 4);
        assert(s.len() > 5);
        assert(s.skip(5).drop_last() == d.skip(5));
        lemma_chord_space_behind(s.skip(5), true, alt, shift, win);
    } else if mt::begins_ignoring_case(s, alt_name()) {
        lemma_begin_chars(s, alt_name(), 3);
        assert(s.len() > 4);
        assert(s.skip(4).drop_last() == d.skip(4));
        lemma_chord_space_behind(s.skip(4), ctrl, true, shift, win);
    } else if mt::begins_ignoring_case(s, shift_name()) {
        lemma_begin_chars(s, shift_name(), 5);
        assert(s.len() > 6);
        assert(s.skip(6).drop_last() == d.skip(6));
        lemma_chord_space_behind(s.skip(6), ctrl, alt, true, win);
    } else if mt::begins_ignoring_case(s, win_name()) {
        lemma_begin_chars(s, win_name(), 3);
        assert(s.len() > 4);
        assert(s.skip(4).drop_last() == d.skip(4));
        lemma_chord_space_behind(s.skip(4), ctrl, alt, shift, true);
    } else {
        lemma_key_chars(s);
        lemma_trim_drop_last(s);
        assert(text::trim(d) == text::trim(s));
        assert(mt::key_of(d)->Ok_0 == mt::key_of(s)->Ok_0);
    }
}

proof fn lemma_trim_drop_last(s: Seq<char>)
    requires
        s.len() > 0,
        text::is_space(s.last()),
    ensures
        text::trim(s.drop_last()) == text::trim(s),
        text::trim(s).len() > 0 ==> s.len() > 1,
    decreases s.len(),
{
    if text::is_space(s[0]) {
        if s.len() > 1 {
            assert(s.drop_first().drop_last() == s.drop_last().drop_first());
            lemma_trim_drop_last(s.drop_first());
        } else {
            assert(s.drop_first() == Seq::<char>::empty());
            assert(s.drop_last() == Seq::<char>::empty());
        }
    } else {
        assert(s.drop_last().len() > 0);
    }
}

proof fn lemma_chord_trim_end(s: Seq<char>)
    requires
        mt::step_chord(s) is Ok,
    ensures
        mt::step_chord(text::trim_end(s)) == mt::step_chord(s),
        text::trim_end(s).len() > 0,
    decreases s.len(),
{
    if text::is_space(s.last()) {
        lemma_chord_space_behind(s, false, false, false, false);
        lemma_chord_trim_end(s.drop_last());
    }
}

proof fn lemma_chord_trim_start(s: Seq<char>)
    requires
        mt::step_chord(s) is Ok,
    ensures
        mt::step_chord(text::trim_start(s)) == mt::step_chord(s),
        text::trim_start(s).len() > 0,
    decreases s.len(),
{
    if text::is_space(s[0]) {
        if modified(s) {
            lemma_modified_is_no_key(s);
        }
        let d = s.drop_first();
        lemma_key_chars(s);
        assert(text::trim(d) == text::trim(s));
        if d.len() == 0 {
            assert(text::trim(d).len() == 0);
        }
        assert(mt::key_of(d) is Ok);
        if modified(d) {
            lemma_modified_is_no_key(d);
        }
        lemma_chord_trim_start(d);
    }
}

/// A chord is written without quotes and arrows.
proof fn lemma_chord_plain(s: Seq<char>, ctrl: bool, alt: bool, shift: bool, win: bool)
    requires
        mt::chord_of(s, ctrl, alt, shift, win) is Ok,
    ensures
        plain(s),
    decreases s.len(),
{
    if mt::begins_ignoring_case(s, ctrl_name()) {
        lemma_chord_plain(s.skip(5), true, alt, shift, win);
        lemma_plain_behind(s, ctrl_name());
    } else if mt::begins_ignoring_case(s, alt_name()) {
        lemma_chord_plain(s.skip(4), ctrl, true, shift, win);
        lemma_plain_behind(s, alt_name());
    } else if mt::begins_ignoring_case(s, shift_name()) {
        lemma_chord_plain(s.skip(6), ctrl, alt, true, win);
        lemma_plain_behind(s, shift_name());
    } else if mt::begins_ignoring_case(s, win_name()) {
        lemma_chord_plain(s.skip(4), ctrl, alt, shift, true);
        lemma_plain_behind(s, win_name());
    } else {
        lemma_key_chars(s);
    }
}

proof fn lemma_plain_behind(s: Seq<char>, p: Seq<char>)
    requires
        mt::begins_ignoring_case(s, p),
        plain(s.skip(p.len() as int)),
        plain(p),
    ensures
        plain(s),
{
    assert forall|i: int| 0 <= i < s.len() implies #[trigger] s[i] != '"' && s[i] != '>' by {
        if i < p.len() {
            lemma_begin_chars(s, p, i);
            assert(p[i] != '"' && p[i] != '>');
        } else {
            assert(s.skip(p.len() as int)[i - p.len()] == s[i]);
        }
    }
}

/// Modifiers that were read before are kept.
proof fn lemma_chord_flags(
    s: Seq<char>,
    f: KeyChord,
    g: KeyChord,
)
    requires
        mt::chord_of(s, f.ctrl, f.alt, f.shift, f.win) is Ok,
        f.ctrl ==> g.ctrl,
        f.alt ==> g.alt,
        f.shift ==> g.shift,
        f.win ==> g.win,
    ensures
        ({
            let c = mt::chord_of(s, f.ctrl, f.alt, f.shift, f.win)->Ok_0;
            mt::chord_of(s, g.ctrl, g.alt, g.shift, g.win) == Ok::<KeyChord, Seq<char>>(
                KeyChord {
                    ctrl: c.ctrl || g.ctrl,
                    alt: c.alt || g.alt,
                    shift: c.shift || g.shift,
                    win: c.win || g.win,
                    key: c.key,
                },
            )
        }),
    decreases s.len(),
{
    if mt::begins_ignoring_case(s, ctrl_name()) {
        lemma_chord_flags(s.skip(5), KeyChord { ctrl: true, ..f }, KeyChord { ctrl: true, ..g });
        lemma_chord_keeps(s.skip(5), KeyChord { ctrl: true, ..f });
    } else if mt::begins_ignoring_case(s, alt_name()) {
        lemma_chord_flags(s.skip(4), KeyChord { alt: true, ..f }, KeyChord { alt: true, ..g });
        lemma_chord_keeps(s.skip(4), KeyChord { alt: true, ..f });
    } else if mt::begins_ignoring_case(s, shift_name()) {
        lemma_chord_flags(s.skip(6), KeyChord { shift: true, ..f }, KeyChord { shift: true, ..g });
        lemma_chord_keeps(s.skip(6), KeyChord { shift: true, ..f });
    } else if mt::begins_ignoring_case(s, win_name()) {
        lemma_chord_flags(s.skip(4), KeyChord { win: true, ..f }, KeyChord { win: true, ..g });
        lemma_chord_keeps(s.skip(4), KeyChord { win: true, ..f });
    }
}

proof fn lemma_chord_keeps(s: Seq<char>, f: KeyChord)
    requires
        mt::chord_of(s, f.ctrl, f.alt, f.shift, f.win) is Ok,
    ensures
        ({
            let c = mt::chord_of(s, f.ctrl, f.alt, f.shift, f.win)->Ok_0;
            &&& f.ctrl ==> c.ctrl
            &&& f.alt ==> c.alt
            &&& f.shift ==> c.shift
            &&& f.win ==> c.win
        }),
    decreases s.len(),
{
    if mt::begins_ignoring_case(s, ctrl_name()) {
        lemma_chord_keeps(s.skip(5), KeyChord { ctrl: true, ..f });
    } else if mt::begins_ignoring_case(s, alt_name()) {
        lemma_chord_keeps(s.skip(4), KeyChord { alt: true, ..f });
    } else if mt::begins_ignoring_case(s, shift_name()) {
        lemma_chord_keeps(s.skip(6), KeyChord { shift: true, ..f });
    } else if mt::begins_ignoring_case(s, win_name()) {
        lemma_chord_keeps(s.skip(4), KeyChord { win: true, ..f });
    }
}

// ---------------------------------------------------------------------------
// Steps
// ---------------------------------------------------------------------------

proof fn lemma_differs(a: Seq<char>, b: Seq<char>, i: int)
    requires
        0 <= i < a.len(),
        i < b.len(),
        text::lower(a[i]) != text::lower(b[i]),
    ensures
        !text::same_ignoring_case(a, b),
{
    assert(text::ascii_lower(a)[i] == text::lower(a[i]));
    assert(text::ascii_lower(b)[i] == text::lower(b[i]));
}

/// Text that differs from a verb within it does not begin with the verb.
proof fn lemma_no_verb(step: Seq<char>, verb: Seq<char>, i: int)
    requires
        0 <= i < verb.len(),
        i < step.len(),
        text::lower(step[i]) != text::lower(verb[i]),
    ensures
        mt::after_verb(step, verb) is None,
{
    if step.len() >= verb.len() {
        assert(step.take(verb.len() as int)[i] == step[i]);
        lemma_differs(step.take(verb.len() as int), verb, i);
    }
}

/// What stands behind a verb and a space.
proof fn lemma_behind_verb(verb: Seq<char>, tail: Seq<char>)
    ensures
        mt::after_verb(verb + (seq![' '] + tail), verb) == Some(text::trim_start(tail)),
{
    let s = verb + (seq![' '] + tail);
    assert(s.take(verb.len() as int) == verb);
    assert(s.skip(verb.len() as int) == seq![' '] + tail);
    assert((seq![' '] + tail).drop_first() == tail);
}

proof fn lemma_verbs()
    ensures
        "press "@ == "press"@ + seq![' '],
        "keydown "@ == "keydown"@ + seq![' '],
        "keyup "@ == "keyup"@ + seq![' '],
        "wait "@ == "wait"@ + seq![' '],
        "type "@ == "type"@ + seq![' '],
        "press"@ == seq!['p', 'r', 'e', 's', 's'],
        "keydown"@ == seq!['k', 'e', 'y', 'd', 'o', 'w', 'n'],
        "keyup"@ == seq!['k', 'e', 'y', 'u', 'p'],
        "wait"@ == seq!['w', 'a', 'i', 't'],
        "type"@ == seq!['t', 'y', 'p', 'e'],
        "focus"@ == seq!['f', 'o', 'c', 'u', 's'],
{
    reveal_strlit("press ");
    reveal_strlit("keydown ");
    reveal_strlit("keyup ");
    reveal_strlit("wait ");
    reveal_strlit("type ");
    reveal_strlit("press");
    reveal_strlit("keydown");
    reveal_strlit("keyup");
    reveal_strlit("wait");
    reveal_strlit("type");
    reveal_strlit("focus");
    assert("press "@ =~= "press"@ + seq![' ']);
    assert("keydown "@ =~= "keydown"@ + seq![' ']);
    assert("keyup "@ =~= "keyup"@ + seq![' ']);
    assert("wait "@ =~= "wait"@ + seq![' ']);
    assert("type "@ =~= "type"@ + seq![' ']);
    assert("press"@ =~= seq!['p', 'r', 'e', 's', 's']);
    assert("keydown"@ =~= seq!['k', 'e', 'y', 'd', 'o', 'w', 'n']);
    assert("keyup"@ =~= seq!['k', 'e', 'y', 'u', 'p']);
    assert("wait"@ =~= seq!['w', 'a', 'i', 't']);
    assert("type"@ =~= seq!['t', 'y', 'p', 'e']);
    assert("focus"@ =~= seq!['f', 'o', 'c', 'u', 's']);
}

/// An action without separators is its one step.
proof fn lemma_one_piece(s: Seq<char>)
    requires
        mt::next_separator(s, false, false) == s.len(),
        !mt::quote_open(s, false, false),
        text::trim(s).len() > 0,
    ensures
        mt::action_steps(s) == (match mt::step_of(text::trim(s)) {
            Ok(step) => one(step),
            Err(m) => Err(m),
        }),
{
    let parts = seq![text::trim(s)];
    assert(mt::chain(s, true) == Ok::<Seq<Seq<char>>, Seq<char>>(parts));
    assert(parts.drop_last() == Seq::<Seq<char>>::empty());
    assert(mt::steps_of(parts.drop_last()) == Ok::<Seq<mt::StepView>, Seq<char>>(seq![]));
    if let Ok(step) = mt::step_of(parts.last()) {
        assert(Seq::<mt::StepView>::empty().push(step) == seq![step]);
    }
}

/// A verb with a chord behind it, trimmed.
proof fn lemma_chord_step(verb: Seq<char>, k: Seq<char>)
    requires
        mt::step_chord(k) is Ok,
        verb.len() > 0,
        plain(verb),
        !text::is_space(verb[0]),
    ensures
        ({
            let s = verb + seq![' '] + k;
            let t = text::trim(s);
            &&& mt::next_separator(s, false, false) == s.len()
            &&& !mt::quote_open(s, false, false)
            &&& t.len() > verb.len()
            &&& text::trim(t) == t
            &&& forall|i: int| 0 <= i < verb.len() ==> #[trigger] t[i] == verb[i]
            &&& mt::after_verb(t, verb) matches Some(rest) && mt::step_chord(text::trim(rest))
                == mt::step_chord(k)
        }),
{
    let s = verb + seq![' '] + k;
    lemma_chord_plain(k, false, false, false, false);
    assert forall|i: int| 0 <= i < s.len() implies #[trigger] s[i] != '"' && s[i] != '>' by {
        if i < verb.len() {
            assert(s[i] == verb[i]);
        } else if i > verb.len() {
            assert(s[i] == k[i - verb.len() - 1]);
        }
    }
    lemma_plain_scan(s);
    lemma_chord_trim_end(k);
    let e = text::trim_end(k);
    lemma_trim_end_keeps(k);
    lemma_trim_end_joined(verb + seq![' '], k);
    let t = text::trim(s);
    assert(t == verb + seq![' '] + e);
    assert(t == verb + (seq![' '] + e));
    assert(t.last() == e.last());
    lemma_trim_tight(t);
    lemma_behind_verb(verb, e);
    lemma_chord_trim_start(e);
    lemma_chord_trim_end(text::trim_start(e));
    let rest = text::trim_start(e);
    lemma_trim_start_keeps(e);
    assert(text::trim_start(rest) == rest);
    assert(text::trim(rest) == text::trim_end(rest));
}

proof fn lemma_trim_end_joined(a: Seq<char>, b: Seq<char>)
    requires
        text::trim_end(b).len() > 0,
    ensures
        text::trim_end(a + b) == a + text::trim_end(b),
    decreases b.len(),
{
    if text::is_space(b.last()) {
        assert((a + b).drop_last() == a + b.drop_last());
        lemma_trim_end_joined(a, b.drop_last());
    }
}

// ---------------------------------------------------------------------------
// Laws
// ---------------------------------------------------------------------------

/// A chord behind a verb makes the step of that verb: `press` presses it and lets it go,
/// `keydown` presses it down, and `keyup` lets it go.
pub proof fn law_verbs_name_their_steps(k: Seq<char>, c: KeyChord)
    requires
        mt::step_chord(k) == Ok::<KeyChord, Seq<char>>(c),
    ensures
        mt::action_steps("press "@ + k) == one(mt::StepView::Press(c)),
        mt::action_steps("keydown "@ + k) == one(mt::StepView::KeyDown(c)),
        mt::action_steps("keyup "@ + k) == one(mt::StepView::KeyUp(c)),
{
    lemma_verbs();
    lemma_chord_step("press"@, k);
    lemma_chord_step("keydown"@, k);
    lemma_chord_step("keyup"@, k);
    let p = "press "@ + k;
    let d = "keydown "@ + k;
    let u = "keyup "@ + k;
    assert(p == "press"@ + seq![' '] + k);
    assert(d == "keydown"@ + seq![' '] + k);
    assert(u == "keyup"@ + seq![' '] + k);
    let tp = text::trim(p);
    let td = text::trim(d);
    let tu = text::trim(u);
    assert(tp[0] == "press"@[0]);
    assert(td[0] == "keydown"@[0] && td[3] == "keydown"@[3]);
    assert(tu[0] == "keyup"@[0] && tu[3] == "keyup"@[3]);
    lemma_differs(tp, "focus"@, 0);
    lemma_differs(td, "focus"@, 0);
    lemma_differs(tu, "focus"@, 0);
    lemma_no_verb(tp, "wait"@, 0);
    lemma_no_verb(td, "wait"@, 0);
    lemma_no_verb(tu, "wait"@, 0);
    lemma_no_verb(td, "press"@, 0);
    lemma_no_verb(tu, "press"@, 0);
    lemma_no_verb(tu, "keydown"@, 3);
    lemma_one_piece(p);
    lemma_one_piece(d);
    lemma_one_piece(u);
}

/// A wait lasts as long as is written, and none is longer than two seconds.
pub proof fn law_waits_are_as_written(ms: u32)
    ensures
        ms <= 2000 ==> mt::action_steps("wait "@ + text::dec(ms as nat)) == one(
            mt::StepView::Wait(ms),
        ),
        ms > 2000 ==> mt::action_steps("wait "@ + text::dec(ms as nat)) is Err,
{
    lemma_verbs();
    let d = text::dec(ms as nat);
    let s = "wait "@ + d;
    text::lemma_dec_digits(ms as nat);
    text::lemma_dec_parses(ms as nat, u32::MAX as nat);
    assert(s == "wait"@ + (seq![' '] + d));
    assert(text::is_digit(d[0]) && text::is_digit(d[d.len() - 1]));
    assert forall|i: int| 0 <= i < s.len() implies #[trigger] s[i] != '"' && s[i] != '>' by {
        if i >= 5 {
            assert(s[i] == d[i - 5]);
            assert(text::is_digit(d[i - 5]));
        }
    }
    lemma_plain_scan(s);
    assert(s[0] == 'w' && s.last() == d.last());
    lemma_trim_tight(s);
    lemma_trim_tight(d);
    lemma_behind_verb("wait"@, d);
    lemma_differs(s, "focus"@, 0);
    lemma_one_piece(s);
}

proof fn lemma_quoted_scan(t: Seq<char>)
    ensures
        mt::next_separator(escaped(t) + seq!['"'], true, false) == escaped(t).len() + 1,
        !mt::quote_open(escaped(t) + seq!['"'], true, false),
        mt::unquote(escaped(t) + seq!['"']) == Ok::<Seq<char>, Seq<char>>(t),
    decreases t.len(),
{
    let q = seq!['"'];
    let s = escaped(t) + q;
    if t.len() == 0 {
        assert(s == q);
        assert(s.skip(1) == Seq::<char>::empty());
        assert(mt::next_separator(s.skip(1), false, false) == 0);
        assert(!mt::quote_open(s.skip(1), false, false));
        assert(t == Seq::<char>::empty());
    } else {
        let rest = escaped(t.skip(1)) + q;
        lemma_quoted_scan(t.skip(1));
        assert(t == seq![t[0]] + t.skip(1));
        if t[0] == '"' || t[0] == '\\' {
            assert(s.skip(1).skip(1) == rest);
            assert(s.skip(2) == rest);
            assert(s[0] == '\\' && s[1] == t[0]);
            assert(s.skip(1)[0] == t[0]);
            assert(mt::next_separator(s.skip(1), true, true) == 1 + mt::next_separator(
                s.skip(1).skip(1),
                true,
                false,
            ));
            assert(mt::quote_open(s.skip(1), true, true) == mt::quote_open(
                s.skip(1).skip(1),
                true,
                false,
            ));
        } else {
            assert(s.skip(1) == rest);
            assert(s[0] == t[0]);
        }
    }
}

/// Plain text in front moves a separator along.
proof fn lemma_plain_lead(p: Seq<char>, s: Seq<char>)
    requires
        plain(p),
        s.len() > 0,
        s[0] != '>',
    ensures
        mt::next_separator(p + s, false, false) == p.len() + mt::next_separator(s, false, false),
        mt::quote_open(p + s, false, false) == mt::quote_open(s, false, false),
    decreases p.len(),
{
    let j = p + s;
    if p.len() == 0 {
        assert(j == s);
    } else {
        assert(p[0] != '"');
        assert(j[0] == p[0]);
        assert(j[1] != '>') by {
            if p.len() > 1 {
                assert(p[1] != '>');
                assert(j[1] == p[1]);
            } else {
                assert(j[1] == s[0]);
            }
        }
        assert(plain(p.skip(1))) by {
            assert forall|i: int| 0 <= i < p.skip(1).len() implies #[trigger] p.skip(1)[i] != '"'
                && p.skip(1)[i] != '>' by {
                assert(p.skip(1)[i] == p[i + 1]);
            }
        }
        assert(j.skip(1) == p.skip(1) + s);
        lemma_plain_lead(p.skip(1), s);
    }
}

/// Quoted text is typed as it is, whatever it holds: quotes, backslashes and arrows too.
pub proof fn law_quoted_text_is_typed(t: Seq<char>)
    ensures
        mt::action_steps("type "@ + quoted(t)) == one(mt::StepView::Type(t)),
{
    lemma_verbs();
    let q = quoted(t);
    let s = "type "@ + q;
    let inner = escaped(t) + seq!['"'];
    assert(s == "type"@ + (seq![' '] + q));
    lemma_quoted_scan(t);
    assert(q.skip(1) == inner);
    assert(q[0] == '"' && q.last() == '"');
    assert("type "@ =~= seq!['t', 'y', 'p', 'e', ' ']);
    lemma_plain_lead("type "@, q);
    assert(mt::next_separator(q, false, false) == 1 + mt::next_separator(q.skip(1), true, false));
    assert(s.last() == '"');
    lemma_trim_tight(s);
    lemma_trim_tight(q);
    lemma_behind_verb("type"@, q);
    lemma_differs(s, "focus"@, 0);
    lemma_no_verb(s, "wait"@, 0);
    lemma_no_verb(s, "press"@, 0);
    lemma_no_verb(s, "keydown"@, 0);
    lemma_no_verb(s, "keyup"@, 0);
    lemma_one_piece(s);
}

/// Text without a sign holds no modifier.
proof fn lemma_unmodified(s: Seq<char>)
    requires
        forall|i: int| 0 <= i < s.len() ==> #[trigger] s[i] != '+',
    ensures
        !modified(s),
{
    if mt::begins_ignoring_case(s, ctrl_name()) {
        lemma_begin_chars(s, ctrl_name(), 4);
    }
    if mt::begins_ignoring_case(s, alt_name()) {
        lemma_begin_chars(s, alt_name(), 3);
    }
    if mt::begins_ignoring_case(s, shift_name()) {
        lemma_begin_chars(s, shift_name(), 5);
    }
    if mt::begins_ignoring_case(s, win_name()) {
        lemma_begin_chars(s, win_name(), 3);
    }
}

/// Each name of a key names that key, alone.
pub proof fn law_key_names_name_keys(key: Key, i: int)
    requires
        nameable(key),
        0 <= i < key_names(key).len(),
    ensures
        mt::step_chord(key_names(key)[i]) == Ok::<KeyChord, Seq<char>>(bare(key)),
{
    let s = key_names(key)[i];
    reveal_strlit("enter");
    reveal_strlit("return");
    reveal_strlit("esc");
    reveal_strlit("escape");
    reveal_strlit("tab");
    reveal_strlit("space");
    reveal_strlit("backspace");
    reveal_strlit("delete");
    reveal_strlit("del");
    reveal_strlit("up");
    reveal_strlit("down");
    reveal_strlit("left");
    reveal_strlit("right");
    reveal_strlit("home");
    reveal_strlit("end");
    reveal_strlit("pageup");
    reveal_strlit("pgup");
    reveal_strlit("pagedown");
    reveal_strlit("pgdn");
    match key {
        Key::F(n) => {
            let d = text::dec(n as nat);
            text::lemma_dec_digits(n as nat);
            text::lemma_dec_parses(n as nat, 255);
            assert(text::is_digit(d[0]) && text::is_digit(d[d.len() - 1]));
            assert(s.last() == d.last());
            lemma_trim_tight(s);
            assert(text::ascii_lower(s) =~= s) by {
                assert forall|j: int| 0 <= j < s.len() implies text::lower(#[trigger] s[j])
                    == s[j] by {
                    if j > 0 {
                        assert(s[j] == d[j - 1]);
                        assert(text::is_digit(d[j - 1]));
                    }
                }
            }
            assert(s[1] == d[0]);
            if mt::named_key(s) is Some {
                lemma_names_are_letters(s);
                assert('a' <= s[1] <= 'z');
            }
            assert(s.skip(1) == d);
            assert(d.len() <= 2) by {
                reveal_with_fuel(text::dec, 3);
            }
            lemma_unmodified(s);
        },
        Key::Char(c) => {
            assert(s == seq![c]);
            lemma_trim_tight(s);
            assert(text::ascii_lower(s) =~= s);
            if mt::named_key(s) is Some {
                lemma_names_are_letters(s);
            }
            assert(text::parse_unsigned(s.skip(1), 255) is None);
            lemma_unmodified(s);
        },
        _ => {
            lemma_trim_tight(s);
            assert(text::ascii_lower(s) =~= s);
            lemma_unmodified(s);
            assert(mt::key_of(s) == Ok::<Key, Seq<char>>(key));
        },
    }
}

/// A modifier written in front of a chord joins the chord, whichever others stand there.
pub proof fn law_modifiers_join_the_chord(k: Seq<char>, c: KeyChord)
    requires
        mt::step_chord(k) == Ok::<KeyChord, Seq<char>>(c),
    ensures
        mt::step_chord("ctrl+"@ + k) == Ok::<KeyChord, Seq<char>>(KeyChord { ctrl: true, ..c }),
        mt::step_chord("alt+"@ + k) == Ok::<KeyChord, Seq<char>>(KeyChord { alt: true, ..c }),
        mt::step_chord("shift+"@ + k) == Ok::<KeyChord, Seq<char>>(KeyChord { shift: true, ..c }),
        mt::step_chord("win+"@ + k) == Ok::<KeyChord, Seq<char>>(KeyChord { win: true, ..c }),
{
    reveal_strlit("ctrl+");
    reveal_strlit("alt+");
    reveal_strlit("shift+");
    reveal_strlit("win+");
    assert("ctrl+"@ =~= ctrl_name());
    assert("alt+"@ =~= alt_name());
    assert("shift+"@ =~= shift_name());
    assert("win+"@ =~= win_name());
    let f = bare(c.key);
    lemma_chord_flags(k, f, KeyChord { ctrl: true, ..f });
    lemma_chord_flags(k, f, KeyChord { alt: true, ..f });
    lemma_chord_flags(k, f, KeyChord { shift: true, ..f });
    lemma_chord_flags(k, f, KeyChord { win: true, ..f });
    lemma_led(ctrl_name(), k);
    lemma_led(alt_name(), k);
    lemma_led(shift_name(), k);
    lemma_led(win_name(), k);
    lemma_not_led(alt_name() + k, ctrl_name());
    lemma_not_led(shift_name() + k, ctrl_name());
    lemma_not_led(shift_name() + k, alt_name());
    lemma_not_led(win_name() + k, ctrl_name());
    lemma_not_led(win_name() + k, alt_name());
    lemma_not_led(win_name() + k, shift_name());
}

proof fn lemma_led(p: Seq<char>, k: Seq<char>)
    requires
        forall|i: int| 0 <= i < p.len() ==> text::lower(#[trigger] p[i]) == p[i],
    ensures
        mt::begins_ignoring_case(p + k, p),
        (p + k).skip(p.len() as int) == k,
{
    let l = text::ascii_lower(p + k);
    assert(l.take(p.len() as int) =~= p) by {
        assert forall|i: int| 0 <= i < p.len() implies #[trigger] l.take(p.len() as int)[i]
            == p[i] by {
            assert((p + k)[i] == p[i]);
        }
    }
    assert((p + k).skip(p.len() as int) =~= k);
}

proof fn lemma_not_led(s: Seq<char>, p: Seq<char>)
    requires
        s.len() > 0,
        p.len() > 0,
        text::lower(s[0]) != p[0],
    ensures
        !mt::begins_ignoring_case(s, p),
{
    if mt::begins_ignoring_case(s, p) {
        lemma_begin_chars(s, p, 0);
    }
}

/// A chord is read as it is written.
pub proof fn law_written_chord_reads_back(c: KeyChord)
    requires
        nameable(c.key),
    ensures
        mt::step_chord(chord_text(c)) == Ok::<KeyChord, Seq<char>>(c),
{
    let k = key_names(c.key)[0];
    law_key_names_name_keys(c.key, 0);
    let c0 = bare(c.key);
    let w = held(c.win, "win+"@) + k;
    let c1 = KeyChord { win: c.win, ..c0 };
    lemma_joined(k, c0);
    let s = held(c.shift, "shift+"@) + w;
    let c2 = KeyChord { shift: c.shift, ..c1 };
    lemma_joined(w, c1);
    let a = held(c.alt, "alt+"@) + s;
    let c3 = KeyChord { alt: c.alt, ..c2 };
    lemma_joined(s, c2);
    lemma_joined(a, c3);
}

proof fn lemma_joined(k: Seq<char>, c: KeyChord)
    requires
        mt::step_chord(k) == Ok::<KeyChord, Seq<char>>(c),
    ensures
        held(false, "ctrl+"@) + k == k,
        held(false, "alt+"@) + k == k,
        held(false, "shift+"@) + k == k,
        held(false, "win+"@) + k == k,
        mt::step_chord("ctrl+"@ + k) == Ok::<KeyChord, Seq<char>>(KeyChord { ctrl: true, ..c }),
        mt::step_chord("alt+"@ + k) == Ok::<KeyChord, Seq<char>>(KeyChord { alt: true, ..c }),
        mt::step_chord("shift+"@ + k) == Ok::<KeyChord, Seq<char>>(KeyChord { shift: true, ..c }),
        mt::step_chord("win+"@ + k) == Ok::<KeyChord, Seq<char>>(KeyChord { win: true, ..c }),
{
    law_modifiers_join_the_chord(k, c);
    assert(Seq::<char>::empty() + k =~= k);
}

/// A step is read as it is written.
pub proof fn law_written_step_reads_back(step: mt::StepView)
    requires
        writable(step),
    ensures
        mt::action_steps(step_text(step)) == one(step),
{
    match step {
        mt::StepView::Focus => {
            lemma_verbs();
            let s = "focus"@;
            lemma_plain_scan(s);
            lemma_trim_tight(s);
            lemma_one_piece(s);
        },
        mt::StepView::Wait(ms) => {
            law_waits_are_as_written(ms);
        },
        mt::StepView::Press(c) => {
            law_written_chord_reads_back(c);
            law_verbs_name_their_steps(chord_text(c), c);
        },
        mt::StepView::Type(t) => {
            law_quoted_text_is_typed(t);
        },
        mt::StepView::KeyDown(c) => {
            law_written_chord_reads_back(c);
            law_verbs_name_their_steps(chord_text(c), c);
        },
        mt::StepView::KeyUp(c) => {
            law_written_chord_reads_back(c);
            law_verbs_name_their_steps(chord_text(c), c);
        },
    }
}

/// A chain of steps is read as it is written: the same steps, in the same order.
pub proof fn law_written_chain_reads_back(steps: Seq<mt::StepView>)
    requires
        steps.len() > 0,
        forall|i: int| 0 <= i < steps.len() ==> writable(#[trigger] steps[i]),
    ensures
        mt::action_steps(chain_text(steps)) == Ok::<Seq<mt::StepView>, Seq<char>>(steps),
    decreases steps.len(),
{
    if steps.len() == 1 {
        law_written_step_reads_back(steps[0]);
        assert(seq![steps[0]] =~= steps);
    } else {
        let head = steps.drop_last();
        assert forall|i: int| 0 <= i < head.len() implies writable(#[trigger] head[i]) by {
            assert(head[i] == steps[i]);
        }
        law_written_chain_reads_back(head);
        law_written_step_reads_back(steps.last());
        macro_join::law_joined_chains_run_in_turn(chain_text(head), step_text(steps.last()));
        assert(head + seq![steps.last()] =~= steps);
    }
}

/// Any call that reads one written key step gives back that step: what is pressed, held down or
/// let go is the chord that was written.
pub proof fn law_calls_read_key_steps(c: KeyChord, s: &str, r: Result<Vec<mt::Step>, String>)
    requires
        nameable(c.key),
        call_ensures(mt::parse_action, (s,), r),
    ensures
        s@ == "press "@ + chord_text(c) ==> (r matches Ok(v) && v@.len() == 1 && v@[0]@
            == mt::StepView::Press(c)),
        s@ == "keydown "@ + chord_text(c) ==> (r matches Ok(v) && v@.len() == 1 && v@[0]@
            == mt::StepView::KeyDown(c)),
        s@ == "keyup "@ + chord_text(c) ==> (r matches Ok(v) && v@.len() == 1 && v@[0]@
            == mt::StepView::KeyUp(c)),
{
    law_written_chord_reads_back(c);
    law_verbs_name_their_steps(chord_text(c), c);
    if let Ok(v) = r {
        let w = mt::steps_view(v@);
        assert(w.len() == v@.len());
        assert(v@.len() == 1 ==> w[0] == v@[0]@);
    }
}

/// Any call that reads a written `type` or `wait` step gives back its text or its time.
pub proof fn law_calls_read_text_and_waits(
    t: Seq<char>,
    ms: u32,
    s: &str,
    r: Result<Vec<mt::Step>, String>,
)
    requires
        call_ensures(mt::parse_action, (s,), r),
    ensures
        s@ == "type "@ + quoted(t) ==> (r matches Ok(v) && v@.len() == 1 && v@[0]@
            == mt::StepView::Type(t)),
        s@ == "wait "@ + text::dec(ms as nat) ==> match r {
            Ok(v) => ms <= 2000 && v@.len() == 1 && v@[0]@ == mt::StepView::Wait(ms),
            Err(_) => ms > 2000,
        },
{
    law_quoted_text_is_typed(t);
    law_waits_are_as_written(ms);
    if let Ok(v) = r {
        let w = mt::steps_view(v@);
        assert(w.len() == v@.len());
        assert(v@.len() == 1 ==> w[0] == v@[0]@);
    }
}

} // verus!
