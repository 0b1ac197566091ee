//! Laws on macro documents: what a document that reads holds, and which lines count.
use crate::games::macro_text as mt;
use crate::games::macro_text::{MacroView, Reading, StepView};
use crate::text;
use crate::text::reading;
use vstd::prelude::*;

verus! {

/// All waits of a macro together.
pub open spec fn total_wait(steps: Seq<StepView>) -> int
    decreases steps.len(),
{
    if steps.len() == 0 {
        0
    } else {
        (match steps[0] {
            StepView::Wait(ms) => ms as int,
            _ => 0,
        }) + total_wait(steps.drop_first())
    }
}

proof fn lemma_total_wait(steps: Seq<StepView>, last: StepView)
    ensures
        total_wait(steps.push(last)) == total_wait(steps) + match last {
            StepView::Wait(ms) => ms as int,
            _ => 0,
        },
    decreases steps.len(),
{
    if steps.len() == 0 {
        assert(steps.push(last).drop_first() == Seq::<StepView>::empty());
        assert(total_wait(steps.push(last).drop_first()) == 0);
    } else {
        assert(steps.push(last).drop_first() == steps.drop_first().push(last));
        lemma_total_wait(steps.drop_first(), last);
    }
}

proof fn lemma_wait_sum(steps: Seq<StepView>)
    ensures
        mt::wait_sum(steps) == total_wait(steps),
    decreases steps.len(),
{
    if steps.len() > 0 {
        lemma_wait_sum(steps.drop_last());
        lemma_total_wait(steps.drop_last(), steps.last());
        assert(steps.drop_last().push(steps.last()) == steps);
    }
}

proof fn lemma_waits(parts: Seq<Seq<char>>, i: int)
    requires
        mt::steps_of(parts) is Ok,
        0 <= i < parts.len(),
    ensures
        mt::steps_of(parts)->Ok_0.len() == parts.len(),
        mt::steps_of(parts)->Ok_0[i] matches StepView::Wait(ms) ==> ms <= 2000,
    decreases parts.len(),
{
    let init = parts.drop_last();
    if i < init.len() {
        lemma_waits(init, i);
    } else if init.len() > 0 {
        lemma_waits(init, 0);
    }
}

/// A macro that may stand in a document: a name, 1 to 48 steps that its action text spells, no
/// wait above 2000 ms and not more than 8000 ms of waits together.
pub open spec fn within_limits(m: MacroView) -> bool {
    &&& text::trim(m.name).len() > 0
    &&& mt::action_steps(m.action) == Ok::<Seq<StepView>, Seq<char>>(m.steps)
    &&& 1 <= m.steps.len() <= 48
    &&& total_wait(m.steps) <= 8000
    &&& forall|i: int|
        0 <= i < m.steps.len() ==> (#[trigger] m.steps[i] matches StepView::Wait(ms) ==> ms <= 2000)
}

/// What was read so far is in order: each macro within limits, and names that differ in more than
/// case.
pub open spec fn in_order(st: Reading) -> bool {
    &&& st.seen.len() == st.macros.len() + if st.name is Some {
        1int
    } else {
        0int
    }
    &&& forall|i: int|
        0 <= i < st.macros.len() ==> within_limits(#[trigger] st.macros[i]) && st.macros[i].name
            == st.seen[i]
    &&& st.name matches Some(n) ==> n == st.seen.last()
    &&& forall|i: int, j: int|
        0 <= i < j < st.seen.len() ==> !text::same_ignoring_case(
            #[trigger] st.seen[i],
            #[trigger] st.seen[j],
        )
}

proof fn lemma_closed(name: Seq<char>, action: Option<Seq<char>>, st: Reading, line: int)
    requires
        mt::closed_macro(name, action, st.meta, line) is Ok,
    ensures
        within_limits(mt::closed_macro(name, action, st.meta, line)->Ok_0),
        mt::closed_macro(name, action, st.meta, line)->Ok_0.name == name,
{
    let m = mt::closed_macro(name, action, st.meta, line)->Ok_0;
    lemma_wait_sum(m.steps);
    let parts = mt::chain(m.action, true)->Ok_0;
    assert forall|i: int| 0 <= i < m.steps.len() implies (#[trigger] m.steps[i] matches StepView::Wait(
        ms,
    ) ==> ms <= 2000) by {
        lemma_steps_count(parts);
        lemma_waits(parts, i);
    }
}

proof fn lemma_steps_count(parts: Seq<Seq<char>>)
    ensures
        mt::steps_of(parts) matches Ok(s) ==> s.len() == parts.len(),
    decreases parts.len(),
{
    if parts.len() > 0 {
        lemma_steps_count(parts.drop_last());
    }
}

proof fn lemma_entry_in_order(st: Reading, line: int, key: Seq<char>, value: Seq<char>)
    requires
        in_order(st),
    ensures
        mt::read_entry(st, line, key, value) matches Ok(next) ==> in_order(next),
{
    if key == "name"@ && mt::read_entry(st, line, key, value) is Ok {
        let next = mt::read_entry(st, line, key, value)->Ok_0;
        if let Some(n) = st.name {
            lemma_closed(n, st.action, st, line);
        }
        assert forall|i: int| 0 <= i < next.macros.len() implies within_limits(
            #[trigger] next.macros[i],
        ) && next.macros[i].name == next.seen[i] by {
            if i < st.macros.len() {
                assert(within_limits(st.macros[i]));
            }
        }
        assert forall|i: int, j: int| 0 <= i < j < next.seen.len() implies !text::same_ignoring_case(
            #[trigger] next.seen[i],
            #[trigger] next.seen[j],
        ) by {
            if j == st.seen.len() {
                assert(!text::same_ignoring_case(st.seen[i], value));
            } else {
                assert(next.seen[i] == st.seen[i] && next.seen[j] == st.seen[j]);
            }
        }
    }
}

proof fn lemma_lines_in_order(lines: Seq<Seq<char>>)
    ensures
        mt::read_lines(lines) matches Ok(st) ==> in_order(st),
    decreases lines.len(),
{
    if lines.len() > 0 {
        lemma_lines_in_order(lines.drop_last());
        if let Ok(st) = mt::read_lines(lines.drop_last()) {
            let raw = lines.last();
            let body = text::trim(raw.take(mt::comment_start(raw, false, false)));
            if body.len() > 0 {
                if let Some((k, v)) = mt::entry(body) {
                    lemma_entry_in_order(
                        st,
                        lines.len() as int,
                        text::ascii_lower(k),
                        text::trim(v),
                    );
                }
            }
        }
    }
}

/// A document that reads has at most 16384 bytes and 1 to 24 macros, each within its own limits,
/// and no two with one name, whatever its case.
pub proof fn law_document_keeps_the_limits(s: Seq<char>)
    requires
        mt::document(s) is Ok,
    ensures
        ({
            let d = mt::document(s)->Ok_0;
            &&& vstd::utf8::encode_utf8(s).len() <= 16384
            &&& 1 <= d.macros.len() <= 24
            &&& forall|i: int| 0 <= i < d.macros.len() ==> within_limits(#[trigger] d.macros[i])
            &&& forall|i: int, j: int|
                0 <= i < j < d.macros.len() ==> !text::same_ignoring_case(
                    (#[trigger] d.macros[i]).name,
                    (#[trigger] d.macros[j]).name,
                )
        }),
{
    let lines = text::lines(s);
    lemma_lines_in_order(lines);
    let st = mt::read_lines(lines)->Ok_0;
    let end: int = if lines.len() == 0 {
        1
    } else {
        lines.len() as int
    };
    let d = mt::document(s)->Ok_0;
    if let Some(n) = st.name {
        lemma_closed(n, st.action, st, end);
    }
    assert forall|i: int| 0 <= i < d.macros.len() implies within_limits(#[trigger] d.macros[i])
        && d.macros[i].name == st.seen[i] by {
        if i < st.macros.len() {
            assert(within_limits(st.macros[i]));
        }
    }
}

/// What is too long, has too many macros or none does not read.
pub proof fn law_document_over_the_limits_is_refused(s: Seq<char>)
    ensures
        vstd::utf8::encode_utf8(s).len() > 16384 ==> mt::document(s) is Err,
        text::lines(s).len() == 0 ==> mt::document(s) is Err,
{
}

/// A refused line is named by its number, and the lines before it read.
pub proof fn law_first_bad_line_is_named(lines: Seq<Seq<char>>)
    requires
        mt::read_lines(lines) is Err,
    ensures
        exists|n: int|
            1 <= n <= lines.len() && mt::read_lines(lines)->Err_0.line == Some(n)
                && #[trigger] mt::read_lines(lines.take(n - 1)) is Ok,
    decreases lines.len(),
{
    let init = lines.drop_last();
    if mt::read_lines(init) is Err {
        law_first_bad_line_is_named(init);
        let n = choose|n: int|
            1 <= n <= init.len() && mt::read_lines(init)->Err_0.line == Some(n)
                && #[trigger] mt::read_lines(init.take(n - 1)) is Ok;
        assert(lines.take(n - 1) == init.take(n - 1));
    } else {
        let n = lines.len() as int;
        assert(lines.take(n - 1) == init);
        assert(mt::read_lines(lines.take(n - 1)) is Ok);
    }
}

proof fn lemma_comment_start(a: Seq<char>, b: Seq<char>)
    requires
        !a.contains('#'),
        !a.contains('"'),
    ensures
        mt::comment_start(a + seq!['#'] + b, false, false) == a.len(),
        mt::comment_start(a, false, false) == a.len(),
    decreases a.len(),
{
    let s = a + seq!['#'] + b;
    if a.len() == 0 {
        assert(s[0] == '#');
    } else {
        assert(a.contains(a[0]));
        let t = a.skip(1);
        assert(!t.contains('#') && !t.contains('"')) by {
            if t.contains('#') {
                let i = choose|i: int| 0 <= i < t.len() && t[i] == '#';
                assert(a[i + 1] == '#');
            }
            if t.contains('"') {
                let i = choose|i: int| 0 <= i < t.len() && t[i] == '"';
                assert(a[i + 1] == '"');
            }
        }
        assert(s.skip(1) == t + seq!['#'] + b);
        lemma_comment_start(t, b);
    }
}

/// A comment changes nothing: what follows a hash outside quotes is not read.
pub proof fn law_comments_are_not_read(st: Reading, n: int, a: Seq<char>, b: Seq<char>)
    requires
        !a.contains('#'),
        !a.contains('"'),
    ensures
        mt::read_line(st, n, a + seq!['#'] + b) == mt::read_line(st, n, a),
{
    lemma_comment_start(a, b);
    let s = a + seq!['#'] + b;
    assert(s.take(a.len() as int) == a);
    assert(a.take(a.len() as int) == a);
}

/// A blank line, or one that holds only a comment, changes nothing.
pub proof fn law_blank_lines_are_passed_over(st: Reading, n: int, a: Seq<char>, b: Seq<char>)
    requires
        reading::blank(a),
        !a.contains('#'),
        !a.contains('"'),
    ensures
        mt::read_line(st, n, a) == Ok::<Reading, mt::ErrorView>(st),
        mt::read_line(st, n, a + seq!['#'] + b) == Ok::<Reading, mt::ErrorView>(st),
{
    law_comments_are_not_read(st, n, a, b);
    lemma_comment_start(a, b);
    assert(a.take(a.len() as int) == a);
    lemma_trim_blank(a);
}

proof fn lemma_trim_blank(a: Seq<char>)
    requires
        reading::blank(a),
    ensures
        text::trim(a).len() == 0,
    decreases a.len(),
{
    if a.len() > 0 {
        assert(text::is_space(a[0]));
        let t = a.drop_first();
        assert(reading::blank(t)) by {
            assert forall|i: int| 0 <= i < t.len() implies text::is_space(#[trigger] t[i]) by {
                assert(t[i] == a[i + 1]);
            }
        }
        lemma_trim_blank(t);
    }
}

/// Entries before the first name are headers of the document; `name` begins a macro, `action`
/// gives its chain, and any other entry is kept with it.
pub proof fn law_entries_have_their_place(st: Reading, n: int, key: Seq<char>, value: Seq<char>)
    ensures
        key != "name"@ && st.name is None ==> mt::read_entry(st, n, key, value) == Ok::<
            Reading,
            mt::ErrorView,
        >(Reading { headers: st.headers.insert(key, value), ..st }),
        key != "name"@ && key != "action"@ && st.name is Some ==> mt::read_entry(st, n, key, value)
            == Ok::<Reading, mt::ErrorView>(Reading { meta: st.meta.insert(key, value), ..st }),
        st.name is Some && st.action is None ==> mt::read_entry(st, n, "action"@, value) == Ok::<
            Reading,
            mt::ErrorView,
        >(Reading { action: Some(value), ..st }),
        st.name is Some && st.action is Some ==> mt::read_entry(st, n, "action"@, value) is Err,
        mt::read_entry(st, n, "name"@, value) matches Ok(next) ==> next.name == Some(value)
            && next.action is None && next.meta == Map::<Seq<char>, Seq<char>>::empty()
            && next.headers == st.headers && value.len() > 0,
        value.len() == 0 ==> mt::read_entry(st, n, "name"@, value) is Err,
{
    reveal_strlit("name");
    reveal_strlit("action");
    assert("name"@.len() == 4 && "action"@.len() == 6);
}

/// The two halves of a game reference stand on either side of its first bar, without the blanks
/// around them.
pub proof fn law_bar_parts_a_game_reference(a: Seq<char>, b: Seq<char>)
    requires
        !a.contains('|'),
    ensures
        mt::game_ref_left(a + seq!['|'] + b) == text::trim(a),
        mt::game_ref_right(a + seq!['|'] + b) == text::trim(b),
        mt::game_ref_left(a) == text::trim(a),
        mt::game_ref_right(a).len() == 0,
{
    let s = a + seq!['|'] + b;
    assert forall|i: int| 0 <= i < a.len() implies #[trigger] s[i] != '|' by {
        assert(s[i] == a[i]);
    }
    assert(s[a.len() as int] == '|');
    text::lemma_find_is(s, '|', a.len() as int);
    text::lemma_find_is(a, '|', a.len() as int);
    assert(s.take(a.len() as int) == a);
    assert(s.skip(a.len() as int + 1) == b);
    assert(a.take(a.len() as int) == a);
}

} // verus!
