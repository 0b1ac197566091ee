//! Joining action chains.
use crate::games::macro_text as mt;
use crate::text;
use vstd::prelude::*;

verus! {

/// Two chains written one behind the other.
pub open spec fn joined(a: Seq<char>, b: Seq<char>) -> Seq<char> {
    a + " > "@ + b
}

/// Joining two valid chains with ` > ` gives the steps of the first followed by those of the
/// second.
pub proof fn law_joined_chains_run_in_turn(a: Seq<char>, b: Seq<char>)
    requires
        mt::action_steps(a) is Ok,
        mt::action_steps(b) is Ok,
    ensures
        mt::action_steps(joined(a, b)) == Ok::<Seq<mt::StepView>, Seq<char>>(
            mt::action_steps(a)->Ok_0 + mt::action_steps(b)->Ok_0,
        ),
{
    let pa = mt::chain(a, true)->Ok_0;
    let pb = mt::chain(b, true)->Ok_0;
    lemma_chain_joined(a, b, true);
    lemma_steps_joined(pa, pb);
}

// ---------------------------------------------------------------------------
// No step ends in an arrow
// ---------------------------------------------------------------------------

/// Whether `s` ends in `>`.
spec fn arrow_end(s: Seq<char>) -> bool {
    s.len() > 0 && s.last() == '>'
}

/// Text that is empty or ends in `>`.
spec fn no_value(s: Seq<char>) -> bool {
    s.len() == 0 || arrow_end(s)
}

proof fn lemma_trim_start_arrow(s: Seq<char>)
    requires
        arrow_end(s),
    ensures
        arrow_end(text::trim_start(s)),
    decreases s.len(),
{
    if text::is_space(s[0]) {
        assert(s.len() > 1);
        lemma_trim_start_arrow(s.drop_first());
    }
}

proof fn lemma_trim_arrow(s: Seq<char>)
    ensures
        arrow_end(s) ==> arrow_end(text::trim(s)),
        no_value(s) ==> no_value(text::trim(s)),
{
    if arrow_end(s) {
        lemma_trim_start_arrow(s);
    }
}

proof fn lemma_number_arrow(s: Seq<char>, max: nat)
    requires
        no_value(s),
    ensures
        text::parse_unsigned(s, max) is None,
{
    let d = text::unsigned_digits(s);
    if text::all_digits(d) {
        assert(d.last() == s.last());
        assert(text::is_digit(d[d.len() - 1]));
    }
}

proof fn lemma_names_arrow(lower: Seq<char>)
    requires
        no_value(lower),
    ensures
        mt::named_key(lower) is None,
{
    reveal_strlit("enter");
    reveal_strlit("return");
    reveal_strlit("esc");
    reveal_strlit("escape");
    reveal_strlit("tab");
    reveal_strlit("space");
    reveal_strlit("backspace");
    reveal_strlit("delete");
    reveal_strlit("del");
    reveal_strlit("up");
    reveal_strlit("down");
    reveal_strlit("left");
    reveal_strlit("right");
    reveal_strlit("home");
    reveal_strlit("end");
    reveal_strlit("pageup");
    reveal_strlit("pgup");
    reveal_strlit("pagedown");
    reveal_strlit("pgdn");
    assert(!no_value("enter"@) && !no_value("return"@) && !no_value("esc"@) && !no_value("escape"@));
    assert(!no_value("tab"@) && !no_value("space"@) && !no_value("backspace"@));
    assert(!no_value("delete"@) && !no_value("del"@) && !no_value("up"@) && !no_value("down"@));
    assert(!no_value("left"@) && !no_value("right"@) && !no_value("home"@) && !no_value("end"@));
    assert(!no_value("pageup"@) && !no_value("pgup"@));
    assert(!no_value("pagedown"@) && !no_value("pgdn"@));
}

proof fn lemma_key_arrow(s: Seq<char>)
    requires
        no_value(s),
    ensures
        mt::key_of(s) is Err,
{
    let t = text::trim(s);
    let lower = text::ascii_lower(t);
    lemma_trim_arrow(s);
    if t.len() > 0 {
        assert(lower.last() == text::lower(t.last()));
    }
    assert(no_value(lower));
    lemma_names_arrow(lower);
    if lower.len() > 0 && lower[0] == 'f' {
        if lower.skip(1).len() > 0 {
            assert(lower.skip(1).last() == lower.last());
        }
        lemma_number_arrow(lower.skip(1), 255);
    }
}

proof fn lemma_skip_arrow(s: Seq<char>, n: int)
    requires
        no_value(s),
        0 <= n <= s.len(),
    ensures
        no_value(s.skip(n)),
{
    if n < s.len() {
        assert(s.skip(n).last() == s.last());
    }
}

proof fn lemma_chord_arrow(s: Seq<char>, ctrl: bool, alt: bool, shift: bool, win: bool)
    requires
        no_value(s),
    ensures
        mt::chord_of(s, ctrl, alt, shift, win) is Err,
    decreases s.len(),
{
    if mt::begins_ignoring_case(s, seq!['c', 't', 'r', 'l', '+']) {
        lemma_skip_arrow(s, 5);
        lemma_chord_arrow(s.skip(5), true, alt, shift, win);
    } else if mt::begins_ignoring_case(s, seq!['a', 'l', 't', '+']) {
        lemma_skip_arrow(s, 4);
        lemma_chord_arrow(s.skip(4), ctrl, true, shift, win);
    } else if mt::begins_ignoring_case(s, seq!['s', 'h', 'i', 'f', 't', '+']) {
        lemma_skip_arrow(s, 6);
        lemma_chord_arrow(s.skip(6), ctrl, alt, true, win);
    } else if mt::begins_ignoring_case(s, seq!['w', 'i', 'n', '+']) {
        lemma_skip_arrow(s, 4);
        lemma_chord_arrow(s.skip(4), ctrl, alt, shift, true);
    } else {
        lemma_key_arrow(s);
    }
}

proof fn lemma_unquote_arrow(s: Seq<char>)
    requires
        no_value(s),
    ensures
        mt::unquote(s) is Err,
    decreases s.len(),
{
    if s.len() > 0 {
        if s[0] == '\\' {
            if s.len() > 1 {
                lemma_skip_arrow(s, 2);
                lemma_unquote_arrow(s.skip(2));
            }
        } else if s[0] != '"' {
            lemma_skip_arrow(s, 1);
            lemma_unquote_arrow(s.skip(1));
        }
    }
}

proof fn lemma_verb_arrow(step: Seq<char>, verb: Seq<char>)
    requires
        arrow_end(step),
    ensures
        mt::after_verb(step, verb) matches Some(rest) ==> no_value(text::trim(rest)) && no_value(
            text::trim(text::trim(rest)),
        ),
{
    if let Some(rest) = mt::after_verb(step, verb) {
        let tail = step.skip(verb.len() as int);
        lemma_skip_arrow(step, verb.len() as int);
        if tail.len() > 0 {
            lemma_trim_start_arrow(tail);
        }
        assert(no_value(rest));
        lemma_trim_arrow(rest);
        lemma_trim_arrow(text::trim(rest));
    }
}

/// No valid step ends in `>`.
proof fn lemma_arrow_is_no_step(piece: Seq<char>)
    requires
        arrow_end(piece),
    ensures
        mt::step_of(piece) is Err,
{
    let step = text::trim(piece);
    lemma_trim_arrow(piece);
    reveal_strlit("focus");
    if text::same_ignoring_case(step, "focus"@) {
        let l = text::ascii_lower(step);
        assert(l == text::ascii_lower("focus"@));
        assert(l.len() == 5 && step.len() == 5);
        assert(l[4] == text::lower(step[4]) && l[4] == text::lower("focus"@[4]));
        assert(false);
    }
    lemma_verb_arrow(step, "wait"@);
    lemma_verb_arrow(step, "press"@);
    lemma_verb_arrow(step, "keydown"@);
    lemma_verb_arrow(step, "keyup"@);
    lemma_verb_arrow(step, "type"@);
    if let Some(rest) = mt::after_verb(step, "wait"@) {
        lemma_number_arrow(text::trim(rest), u32::MAX as nat);
    } else if let Some(rest) = mt::after_verb(step, "press"@) {
        lemma_chord_arrow(text::trim(rest), false, false, false, false);
    } else if let Some(rest) = mt::after_verb(step, "keydown"@) {
        lemma_chord_arrow(text::trim(rest), false, false, false, false);
    } else if let Some(rest) = mt::after_verb(step, "keyup"@) {
        lemma_chord_arrow(text::trim(rest), false, false, false, false);
    } else if let Some(rest) = mt::after_verb(step, "type"@) {
        let t = text::trim(text::trim(rest));
        if t.len() > 0 {
            lemma_skip_arrow(t, 1);
            lemma_unquote_arrow(t.skip(1));
        }
    }
}

// ---------------------------------------------------------------------------
// Separators
// ---------------------------------------------------------------------------

/// A separator stays where it is when text follows.
proof fn lemma_separator_stays(s: Seq<char>, t: Seq<char>, quoted: bool, escaped: bool)
    requires
        mt::next_separator(s, quoted, escaped) < s.len(),
    ensures
        mt::next_separator(s + t, quoted, escaped) == mt::next_separator(s, quoted, escaped),
    decreases s.len(),
{
    mt::lemma_next_separator(s, quoted, escaped);
    assert((s + t).skip(1) == s.skip(1) + t);
    if escaped {
        lemma_separator_stays(s.skip(1), t, quoted, false);
    } else if quoted {
        lemma_separator_stays(s.skip(1), t, s[0] != '"', s[0] == '\\');
    } else if s[0] == '"' {
        lemma_separator_stays(s.skip(1), t, true, false);
    } else if !(s.len() > 2 && s[0] == ' ' && s[1] == '>' && s[2] == ' ') {
        lemma_separator_stays(s.skip(1), t, false, false);
    }
}

/// The separator behind a last piece is found right behind it.
proof fn lemma_separator_behind(s: Seq<char>, b: Seq<char>, quoted: bool, escaped: bool)
    requires
        mt::next_separator(s, quoted, escaped) == s.len(),
        !mt::quote_open(s, quoted, escaped),
        escaped ==> quoted,
        !arrow_end(s),
    ensures
        mt::next_separator(joined(s, b), quoted, escaped) == s.len(),
    decreases s.len(),
{
    let j = joined(s, b);
    reveal_strlit(" > ");
    if s.len() == 0 {
        assert(j == " > "@ + b);
        assert(j[0] == ' ' && j[1] == '>' && j[2] == ' ');
    } else {
        assert(j.skip(1) == joined(s.skip(1), b));
        assert(j[0] == s[0]);
        if s.len() > 1 {
            assert(s.skip(1).last() == s.last());
            assert(j[1] == s[1]);
        } else {
            assert(j[1] == ' ');
        }
        if s.len() > 2 {
            assert(j[2] == s[2]);
        }
        if escaped {
            lemma_separator_behind(s.skip(1), b, quoted, false);
        } else if quoted {
            lemma_separator_behind(s.skip(1), b, s[0] != '"', s[0] == '\\');
        } else if s[0] == '"' {
            lemma_separator_behind(s.skip(1), b, true, false);
        } else {
            lemma_separator_behind(s.skip(1), b, false, false);
        }
    }
}

/// Pieces of joined chains.
proof fn lemma_chain_joined(a: Seq<char>, b: Seq<char>, first: bool)
    requires
        mt::chain(a, first) matches Ok(pa) && mt::steps_of(pa) is Ok,
        mt::chain(b, true) is Ok,
    ensures
        mt::chain(joined(a, b), first) == Ok::<Seq<Seq<char>>, Seq<char>>(
            mt::chain(a, first)->Ok_0 + mt::chain(b, true)->Ok_0,
        ),
    decreases a.len(),
{
    let j = joined(a, b);
    let pa = mt::chain(a, first)->Ok_0;
    let pb = mt::chain(b, true)->Ok_0;
    let n = mt::next_separator(a, false, false);
    mt::lemma_next_separator(a, false, false);
    reveal_strlit(" > ");
    assert(j == a + (" > "@ + b));
    if n < a.len() {
        lemma_separator_stays(a, " > "@ + b, false, false);
        let piece = text::trim(a.take(n));
        let rest = a.skip(n + 3);
        let pr = mt::chain(rest, false)->Ok_0;
        assert(pa == seq![piece] + pr);
        lemma_steps_behind(piece, pr);
        assert(j.take(n) == a.take(n));
        assert(j.skip(n + 3) == joined(rest, b));
        lemma_chain_joined(rest, b, false);
        assert(seq![piece] + (pr + pb) == pa + pb);
    } else {
        let last = text::trim(a);
        assert(pa == seq![last]);
        assert(pa.last() == last);
        assert(mt::step_of(last) is Ok);
        if arrow_end(a) {
            lemma_trim_arrow(a);
            lemma_arrow_is_no_step(last);
        }
        lemma_separator_behind(a, b, false, false);
        assert(j.take(n) == a);
        assert(j.skip(n + 3) == b);
        lemma_chain_first(b);
    }
}

/// Being the first piece matters only to how an empty one is refused.
proof fn lemma_chain_first(b: Seq<char>)
    requires
        mt::chain(b, true) is Ok,
    ensures
        mt::chain(b, false) == mt::chain(b, true),
{
}

// ---------------------------------------------------------------------------
// Steps
// ---------------------------------------------------------------------------

/// Pieces behind a first one are valid where all are.
proof fn lemma_steps_behind(piece: Seq<char>, rest: Seq<Seq<char>>)
    requires
        mt::steps_of(seq![piece] + rest) is Ok,
    ensures
        mt::steps_of(rest) is Ok,
    decreases rest.len(),
{
    if rest.len() > 0 {
        let all = seq![piece] + rest;
        assert(all.drop_last() == seq![piece] + rest.drop_last());
        assert(all.last() == rest.last());
        lemma_steps_behind(piece, rest.drop_last());
    }
}

/// Steps of pieces in turn.
proof fn lemma_steps_joined(pa: Seq<Seq<char>>, pb: Seq<Seq<char>>)
    requires
        mt::steps_of(pa) is Ok,
        mt::steps_of(pb) is Ok,
    ensures
        mt::steps_of(pa + pb) == Ok::<Seq<mt::StepView>, Seq<char>>(
            mt::steps_of(pa)->Ok_0 + mt::steps_of(pb)->Ok_0,
        ),
    decreases pb.len(),
{
    if pb.len() == 0 {
        assert(pa + pb == pa);
        assert(mt::steps_of(pa)->Ok_0 + mt::steps_of(pb)->Ok_0 == mt::steps_of(pa)->Ok_0);
    } else {
        assert((pa + pb).drop_last() == pa + pb.drop_last());
        assert((pa + pb).last() == pb.last());
        lemma_steps_joined(pa, pb.drop_last());
        let s = mt::steps_of(pa)->Ok_0;
        let t = mt::steps_of(pb.drop_last())->Ok_0;
        let step = mt::step_of(pb.last())->Ok_0;
        assert((s + t).push(step) == s + t.push(step));
    }
}

} // verus!
