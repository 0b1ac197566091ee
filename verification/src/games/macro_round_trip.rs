//! Laws of the share text: what export writes, parse reads back.
use crate::games::macro_text as mt;
use crate::text;
use crate::text_map;
use vstd::prelude::*;

verus! {

// ---------------------------------------------------------------------------
// Trimming
// ---------------------------------------------------------------------------

/// Whether `s` is white space only.
spec fn blank(s: Seq<char>) -> bool {
    forall|i: int| 0 <= i < s.len() ==> text::is_space(#[trigger] s[i])
}

/// Whether `s` neither begins nor ends with white space.
spec fn tight(s: Seq<char>) -> bool {
    s.len() > 0 ==> !text::is_space(s[0]) && !text::is_space(s.last())
}

proof fn lemma_trim_start(s: Seq<char>) -> (w: Seq<char>)
    ensures
        blank(w),
        s == w + text::trim_start(s),
        text::trim_start(s).len() > 0 ==> !text::is_space(text::trim_start(s)[0]),
    decreases s.len(),
{
    if s.len() > 0 && text::is_space(s[0]) {
        let w = lemma_trim_start(s.drop_first());
        let all = seq![s[0]] + w;
        assert(s == seq![s[0]] + s.drop_first());
        assert(s == all + text::trim_start(s));
        assert(blank(all)) by {
            assert forall|i: int| 0 <= i < all.len() implies text::is_space(#[trigger] all[i]) by {
                if i > 0 {
                    assert(all[i] == w[i - 1]);
                }
            }
        }
        all
    } else {
        assert(s == Seq::<char>::empty() + s);
        Seq::empty()
    }
}

proof fn lemma_trim_end(s: Seq<char>) -> (w: Seq<char>)
    ensures
        blank(w),
        s == text::trim_end(s) + w,
        text::trim_end(s).len() > 0 ==> !text::is_space(text::trim_end(s).last())
            && text::trim_end(s)[0] == s[0],
    decreases s.len(),
{
    if s.len() > 0 && text::is_space(s.last()) {
        let w = lemma_trim_end(s.drop_last());
        let all = w.push(s.last());
        assert(s == s.drop_last().push(s.last()));
        assert(s == text::trim_end(s) + all);
        all
    } else {
        assert(s == s + Seq::<char>::empty());
        Seq::empty()
    }
}

/// Trimmed text stands between white space.
proof fn lemma_trim(s: Seq<char>) -> (w: (Seq<char>, Seq<char>))
    ensures
        blank(w.0),
        blank(w.1),
        s == w.0 + text::trim(s) + w.1,
        tight(text::trim(s)),
{
    let a = lemma_trim_start(s);
    let b = lemma_trim_end(text::trim_start(s));
    assert(s == a + text::trim(s) + b);
    (a, b)
}

proof fn lemma_trim_tight(s: Seq<char>)
    requires
        tight(s),
    ensures
        text::trim(s) == s,
{
}

/// Leading white space does not matter.
proof fn lemma_trim_lead(w: Seq<char>, s: Seq<char>)
    requires
        blank(w),
    ensures
        text::trim(w + s) == text::trim(s),
    decreases w.len(),
{
    if w.len() == 0 {
        assert(w + s == s);
    } else {
        assert(text::is_space(w[0]));
        assert((w + s).drop_first() == w.drop_first() + s);
        assert(blank(w.drop_first())) by {
            assert forall|i: int| 0 <= i < w.drop_first().len() implies text::is_space(
                #[trigger] w.drop_first()[i],
            ) by {
                assert(w.drop_first()[i] == w[i + 1]);
            }
        }
        lemma_trim_lead(w.drop_first(), s);
    }
}

// ---------------------------------------------------------------------------
// Comments
// ---------------------------------------------------------------------------

/// Quote state behind `s`, or nothing when a comment starts within it.
spec fn scan(s: Seq<char>, quoted: bool, escaped: bool) -> Option<(bool, bool)>
    decreases s.len(),
{
    if s.len() == 0 {
        Some((quoted, escaped))
    } else if escaped {
        scan(s.skip(1), quoted, false)
    } else if s[0] == '\\' && quoted {
        scan(s.skip(1), quoted, true)
    } else if s[0] == '"' {
        scan(s.skip(1), !quoted, false)
    } else if s[0] == '#' && !quoted {
        None
    } else {
        scan(s.skip(1), quoted, false)
    }
}

proof fn lemma_scan_comment(s: Seq<char>, quoted: bool, escaped: bool)
    ensures
        0 <= mt::comment_start(s, quoted, escaped) <= s.len(),
        scan(s.take(mt::comment_start(s, quoted, escaped)), quoted, escaped) is Some,
        scan(s, quoted, escaped) is Some ==> mt::comment_start(s, quoted, escaped) == s.len(),
    decreases s.len(),
{
    let n = mt::comment_start(s, quoted, escaped);
    if s.len() > 0 {
        lemma_scan_comment(s.skip(1), quoted, false);
        lemma_scan_comment(s.skip(1), quoted, true);
        lemma_scan_comment(s.skip(1), !quoted, false);
        if n > 0 {
            assert(s.take(n).skip(1) == s.skip(1).take(n - 1));
            assert(s.take(n)[0] == s[0]);
        }
    }
}

proof fn lemma_scan_concat(a: Seq<char>, b: Seq<char>, quoted: bool, escaped: bool)
    ensures
        scan(a + b, quoted, escaped) == match scan(a, quoted, escaped) {
            None => None,
            Some(st) => scan(b, st.0, st.1),
        },
    decreases a.len(),
{
    if a.len() == 0 {
        assert(a + b == b);
    } else {
        assert((a + b).skip(1) == a.skip(1) + b);
        lemma_scan_concat(a.skip(1), b, quoted, false);
        lemma_scan_concat(a.skip(1), b, quoted, true);
        lemma_scan_concat(a.skip(1), b, !quoted, false);
    }
}

proof fn lemma_scan_lower(a: Seq<char>, quoted: bool, escaped: bool)
    ensures
        scan(text::ascii_lower(a), quoted, escaped) == scan(a, quoted, escaped),
    decreases a.len(),
{
    if a.len() > 0 {
        assert(text::ascii_lower(a).skip(1) == text::ascii_lower(a.skip(1)));
        assert(text::ascii_lower(a)[0] == text::lower(a[0]));
        lemma_scan_lower(a.skip(1), quoted, false);
        lemma_scan_lower(a.skip(1), quoted, true);
        lemma_scan_lower(a.skip(1), !quoted, false);
    }
}

/// White space and colons leave the quote state alone and end an escape.
proof fn lemma_scan_neutral(s: Seq<char>, quoted: bool, escaped: bool)
    requires
        forall|i: int| 0 <= i < s.len() ==> text::is_space(#[trigger] s[i]) || s[i] == ':',
    ensures
        scan(s, quoted, escaped) == Some((quoted, escaped && s.len() == 0)),
    decreases s.len(),
{
    if s.len() > 0 {
        assert(text::is_space(s[0]) || s[0] == ':');
        assert forall|i: int| 0 <= i < s.skip(1).len() implies text::is_space(
            #[trigger] s.skip(1)[i],
        ) || s.skip(1)[i] == ':' by {
            assert(s.skip(1)[i] == s[i + 1]);
        }
        lemma_scan_neutral(s.skip(1), quoted, false);
    }
}

// ---------------------------------------------------------------------------
// One entry
// ---------------------------------------------------------------------------

/// An entry that can stand on a line of its own.
spec fn plain(k: Seq<char>, v: Seq<char>) -> bool {
    &&& k.len() > 0
    &&& !mt::has_space(k)
    &&& !k.contains(':')
    &&& text::ascii_lower(k) == k
    &&& !v.contains('\n')
    &&& tight(v)
    &&& scan(mt::entry_line((k, v)), false, false) is Some
}

proof fn lemma_line_reads(st: mt::Reading, n: int, k: Seq<char>, v: Seq<char>)
    requires
        plain(k, v),
    ensures
        mt::read_line(st, n, mt::entry_line((k, v))) == mt::read_entry(st, n, k, v),
{
    let l = mt::entry_line((k, v));
    lemma_scan_comment(l, false, false);
    assert(l.take(l.len() as int) == l);
    assert(!text::is_space(k[0]));
    assert(l[0] == k[0]);
    let body = text::trim(l);
    if v.len() > 0 {
        assert(l.last() == v.last());
        lemma_trim_tight(l);
        assert(body == l);
    } else {
        let short = k.push(':');
        assert(l.drop_last() == short);
        assert(text::is_space(' '));
        assert(text::trim_start(l) == l);
        assert(!text::is_space(':'));
        assert(text::trim_end(short) == short);
        assert(body == short);
    }
    assert forall|i: int| 0 <= i < k.len() implies body[i] != ':' by {
        assert(body[i] == k[i]);
        assert(k.contains(k[i]));
    }
    text::lemma_find_is(body, ':', k.len() as int);
    assert(body.take(k.len() as int) == k);
    assert(tight(k));
    lemma_trim_tight(k);
    let tail = body.skip((k.len() + 1) as int);
    if v.len() > 0 {
        assert(tail == seq![' '] + v);
        lemma_trim_lead(seq![' '], v);
        lemma_trim_tight(v);
    } else {
        assert(tail == v);
        lemma_trim_tight(v);
    }
}

/// Entries of a line that was accepted can stand on a line of their own.
proof fn lemma_entry_plain(raw: Seq<char>)
    requires
        !raw.contains('\n'),
    ensures
        ({
            let body = text::trim(raw.take(mt::comment_start(raw, false, false)));
            mt::entry(body) matches Some(kv) ==> plain(text::ascii_lower(kv.0), text::trim(kv.1))
        }),
{
    lemma_scan_comment(raw, false, false);
    let cut = raw.take(mt::comment_start(raw, false, false));
    let body = text::trim(cut);
    if let Some(kv) = mt::entry(body) {
        let (k, v) = kv;
        let (w1, w2) = lemma_trim(cut);
        let c = text::find(body, ':');
        text::lemma_find(body, ':');
        let k0 = body.take(c);
        let (w3, w4) = lemma_trim(k0);
        let (w5, w6) = lemma_trim(v);
        let key = text::ascii_lower(k);
        let value = text::trim(v);
        // The key starts the line, so no white space leads it.
        assert(w3.len() == 0) by {
            if w3.len() > 0 {
                assert(text::is_space(w3[0]));
                assert(k0[0] == w3[0]);
                assert(body[0] == w3[0]);
            }
        }
        assert(k0 == k + w4);
        assert(body == k0 + seq![':'] + v);
        let gap = w4 + seq![':'] + w5;
        assert(cut == w1 + (k + (gap + (value + (w6 + w2)))));
        assert forall|i: int| 0 <= i < gap.len() implies text::is_space(#[trigger] gap[i])
            || gap[i] == ':' by {
            if i < w4.len() {
                assert(gap[i] == w4[i]);
            } else if i > w4.len() {
                assert(gap[i] == w5[i - w4.len() - 1]);
            }
        }
        lemma_scan_neutral(w1, false, false);
        lemma_scan_concat(w1, k + (gap + (value + (w6 + w2))), false, false);
        lemma_scan_concat(k, gap + (value + (w6 + w2)), false, false);
        let st = scan(k, false, false)->0;
        lemma_scan_neutral(gap, st.0, st.1);
        lemma_scan_concat(gap, value + (w6 + w2), st.0, st.1);
        lemma_scan_concat(value, w6 + w2, st.0, false);
        assert(scan(value, st.0, false) is Some);
        lemma_scan_lower(k, false, false);
        let colon = seq![':', ' '];
        lemma_scan_neutral(colon, st.0, st.1);
        lemma_scan_concat(colon, value, st.0, st.1);
        lemma_scan_concat(key, colon + value, false, false);
        assert(mt::entry_line((key, value)) == key + (colon + value));
        // The key is lower case, without white space and colons.
        assert forall|i: int| 0 <= i < key.len() implies !text::is_space(#[trigger] key[i])
            && key[i] != ':' by {
            assert(!text::is_space(k[i]));
            assert(body[i] == k[i]);
            assert(key[i] == text::lower(k[i]));
        }
        assert(text::ascii_lower(key) =~= key);
        if value.contains('\n') {
            let i = choose|i: int| 0 <= i < value.len() && value[i] == '\n';
            let at = w1.len() + k.len() + gap.len() + i;
            assert(cut[at as int] == '\n');
            assert(raw[at as int] == '\n');
        }
    }
}

/// No line holds a line feed.
proof fn lemma_lines_whole(s: Seq<char>)
    ensures
        forall|i: int| 0 <= i < text::lines(s).len() ==> !(#[trigger] text::lines(s)[i]).contains(
            '\n',
        ),
    decreases s.len(),
{
    if s.len() > 0 {
        let n = text::find(s, '\n');
        text::lemma_find(s, '\n');
        let ls = text::lines(s);
        if n < s.len() {
            let rest = text::lines(s.skip(n + 1));
            lemma_lines_whole(s.skip(n + 1));
            assert forall|i: int| 0 <= i < ls.len() implies !(#[trigger] ls[i]).contains('\n') by {
                if i == 0 {
                    assert(ls[0] == text::chop_cr(s.take(n)));
                    if ls[0].contains('\n') {
                        let j = choose|j: int| 0 <= j < ls[0].len() && ls[0][j] == '\n';
                        assert(s[j] == '\n');
                    }
                } else {
                    assert(ls[i] == rest[i - 1]);
                }
            }
        } else {
            assert(ls == seq![s]);
            if s.contains('\n') {
                let j = choose|j: int| 0 <= j < s.len() && s[j] == '\n';
                assert(s[j] != '\n');
            }
        }
    }
}

// ---------------------------------------------------------------------------
// What reading keeps
// ---------------------------------------------------------------------------

spec fn plain_map(m: Map<Seq<char>, Seq<char>>) -> bool {
    &&& m.dom().finite()
    &&& forall|k: Seq<char>| m.dom().contains(k) ==> #[trigger] plain(k, m[k])
}

spec fn plain_macro(m: mt::MacroView) -> bool {
    &&& m.name.len() > 0
    &&& plain("name"@, m.name)
    &&& plain("action"@, m.action)
    &&& plain_map(m.meta)
    &&& !m.meta.dom().contains("name"@)
    &&& !m.meta.dom().contains("action"@)
    &&& forall|line: int|
        #[trigger] mt::closed_macro(m.name, Some(m.action), m.meta, line) == Ok::<
            mt::MacroView,
            mt::ErrorView,
        >(m)
}

/// Names that differ up to ASCII case.
spec fn distinct_names(names: Seq<Seq<char>>) -> bool {
    forall|i: int, j: int|
        0 <= i < j < names.len() ==> !text::same_ignoring_case(
            #[trigger] names[i],
            #[trigger] names[j],
        )
}

spec fn good(st: mt::Reading) -> bool {
    &&& plain_map(st.headers)
    &&& !st.headers.dom().contains("name"@)
    &&& forall|i: int| 0 <= i < st.macros.len() ==> plain_macro(#[trigger] st.macros[i])
    &&& distinct_names(st.seen)
    &&& forall|i: int|
        0 <= i < st.macros.len() ==> st.seen[i] == (#[trigger] st.macros[i]).name
    &&& match st.name {
        None => st.seen.len() == st.macros.len(),
        Some(name) => {
            &&& st.seen.len() == st.macros.len() + 1
            &&& st.seen.last() == name
            &&& name.len() > 0
            &&& plain("name"@, name)
            &&& (st.action matches Some(a) ==> plain("action"@, a))
            &&& plain_map(st.meta)
            &&& !st.meta.dom().contains("name"@)
            &&& !st.meta.dom().contains("action"@)
        },
    }
}

proof fn lemma_plain_insert(m: Map<Seq<char>, Seq<char>>, k: Seq<char>, v: Seq<char>)
    requires
        plain_map(m),
        plain(k, v),
    ensures
        plain_map(m.insert(k, v)),
{
    let m2 = m.insert(k, v);
    assert forall|x: Seq<char>| m2.dom().contains(x) implies #[trigger] plain(x, m2[x]) by {
        if x != k {
            assert(plain(x, m[x]));
        }
    }
}

proof fn lemma_names_unlike()
    ensures
        "name"@ != "action"@,
        "name"@ != "game"@,
{
    reveal_strlit("name");
    reveal_strlit("action");
    reveal_strlit("game");
    assert("name"@[0] != "action"@[0]);
    assert("name"@[0] != "game"@[0]);
}

/// Closing a good section gives good macros.
proof fn lemma_close_good(st: mt::Reading, line: int)
    requires
        good(st),
    ensures
        mt::close_section(st, line) matches Ok(ms) ==> {
            &&& ms.len() == st.seen.len()
            &&& forall|i: int| 0 <= i < ms.len() ==> plain_macro(#[trigger] ms[i])
            &&& forall|i: int| 0 <= i < ms.len() ==> st.seen[i] == (#[trigger] ms[i]).name
        },
{
    if let Ok(ms) = mt::close_section(st, line) {
        if let Some(name) = st.name {
            let m = mt::closed_macro(name, st.action, st.meta, line)->Ok_0;
            assert(plain_macro(m));
            assert(ms == st.macros.push(m));
            assert forall|i: int| 0 <= i < ms.len() implies plain_macro(#[trigger] ms[i])
                && st.seen[i] == ms[i].name by {
                if i < st.macros.len() {
                    assert(ms[i] == st.macros[i]);
                }
            }
        }
    }
}

proof fn lemma_read_entry_good(st: mt::Reading, line: int, k: Seq<char>, v: Seq<char>)
    requires
        good(st),
        plain(k, v),
    ensures
        mt::read_entry(st, line, k, v) matches Ok(st2) ==> good(st2),
{
    lemma_names_unlike();
    if let Ok(st2) = mt::read_entry(st, line, k, v) {
        if k == "name"@ {
            lemma_close_good(st, line);
            let ms = mt::close_section(st, line)->Ok_0;
            assert(st2.macros == ms);
            assert(st2.seen == st.seen.push(v));
            assert forall|i: int, j: int| 0 <= i < j < st2.seen.len() implies
                !text::same_ignoring_case(#[trigger] st2.seen[i], #[trigger] st2.seen[j]) by {
                assert(st2.seen[i] == st.seen[i]);
                if j < st.seen.len() {
                    assert(st2.seen[j] == st.seen[j]);
                }
            }
            assert forall|i: int| 0 <= i < ms.len() implies st2.seen[i] == (
            #[trigger] ms[i]).name by {
                assert(st2.seen[i] == st.seen[i]);
            }
            assert(plain_map(st2.meta));
        } else if st.name is None {
            lemma_plain_insert(st.headers, k, v);
        } else if k == "action"@ {
        } else {
            lemma_plain_insert(st.meta, k, v);
        }
    }
}

proof fn lemma_read_lines_good(lines: Seq<Seq<char>>)
    requires
        forall|i: int| 0 <= i < lines.len() ==> !(#[trigger] lines[i]).contains('\n'),
    ensures
        mt::read_lines(lines) matches Ok(st) ==> good(st),
    decreases lines.len(),
{
    if lines.len() > 0 {
        lemma_read_lines_good(lines.drop_last());
        let raw = lines.last();
        lemma_entry_plain(raw);
        if let Ok(st) = mt::read_lines(lines.drop_last()) {
            let body = text::trim(raw.take(mt::comment_start(raw, false, false)));
            if let Some(kv) = mt::entry(body) {
                lemma_read_entry_good(
                    st,
                    lines.len() as int,
                    text::ascii_lower(kv.0),
                    text::trim(kv.1),
                );
            }
        }
    }
}

// ---------------------------------------------------------------------------
// Reading back
// ---------------------------------------------------------------------------

spec fn plain_entries(es: Seq<(Seq<char>, Seq<char>)>) -> bool {
    forall|i: int| 0 <= i < es.len() ==> plain((#[trigger] es[i]).0, es[i].1)
}

spec fn entry_lines(es: Seq<(Seq<char>, Seq<char>)>) -> Seq<Seq<char>> {
    Seq::new(es.len(), |i: int| mt::entry_line(es[i]))
}

/// What is read of a list of entries.
spec fn read_entries(es: Seq<(Seq<char>, Seq<char>)>) -> Result<mt::Reading, mt::ErrorView>
    decreases es.len(),
{
    if es.len() == 0 {
        Ok(mt::nothing_read())
    } else {
        match read_entries(es.drop_last()) {
            Err(e) => Err(e),
            Ok(st) => mt::read_entry(st, es.len() as int, es.last().0, es.last().1),
        }
    }
}

proof fn lemma_entries_read(es: Seq<(Seq<char>, Seq<char>)>)
    requires
        plain_entries(es),
    ensures
        mt::read_lines(entry_lines(es)) == read_entries(es),
    decreases es.len(),
{
    if es.len() > 0 {
        assert(plain_entries(es.drop_last())) by {
            assert forall|i: int| 0 <= i < es.drop_last().len() implies plain(
                (#[trigger] es.drop_last()[i]).0,
                es.drop_last()[i].1,
            ) by {
                assert(es.drop_last()[i] == es[i]);
            }
        }
        lemma_entries_read(es.drop_last());
        assert(entry_lines(es).drop_last() == entry_lines(es.drop_last()));
        let e = es.last();
        assert(entry_lines(es).last() == mt::entry_line(e));
        assert(plain(e.0, e.1)) by {
            assert(es[es.len() - 1] == e);
        }
        if let Ok(st) = read_entries(es.drop_last()) {
            lemma_line_reads(st, es.len() as int, e.0, e.1);
        }
    }
}

/// Written lines are the lines read.
proof fn lemma_lines_of_text(es: Seq<(Seq<char>, Seq<char>)>)
    requires
        plain_entries(es),
    ensures
        text::lines(mt::entry_text(es)) == entry_lines(es),
    decreases es.len(),
{
    if es.len() > 0 {
        let e = es[0];
        let rest = es.drop_first();
        let l = mt::entry_line(e);
        assert(es == seq![e] + rest);
        mt::lemma_entry_text_concat(seq![e], rest);
        let one = seq![e];
        assert(one.drop_last() == Seq::<(Seq<char>, Seq<char>)>::empty());
        assert(mt::entry_text(one) == l + seq!['\n']) by {
            assert(mt::entry_text(one.drop_last()) + l + seq!['\n'] == l + seq!['\n']);
        }
        assert(plain(e.0, e.1)) by {
            assert(es[0] == e);
        }
        assert forall|i: int| 0 <= i < l.len() implies l[i] != '\n' by {
            if i < e.0.len() {
                assert(!text::is_space(e.0[i]));
                assert(l[i] == e.0[i]);
            } else if i >= e.0.len() + 2 {
                assert(l[i] == e.1[i - e.0.len() - 2]);
                assert(e.1.contains(l[i]));
            }
        }
        text::lemma_lines_cons(l, mt::entry_text(rest));
        assert(text::chop_cr(l) == l) by {
            if e.1.len() > 0 {
                assert(l.last() == e.1.last());
            } else {
                assert(l.last() == ' ');
            }
        }
        assert(plain_entries(rest)) by {
            assert forall|i: int| 0 <= i < rest.len() implies plain(
                (#[trigger] rest[i]).0,
                rest[i].1,
            ) by {
                assert(rest[i] == es[i + 1]);
            }
        }
        lemma_lines_of_text(rest);
        assert(entry_lines(es) == seq![l] + entry_lines(rest));
    } else {
        assert(entry_lines(es) == Seq::<Seq<char>>::empty());
    }
}

// ---------------------------------------------------------------------------
// Maps written out
// ---------------------------------------------------------------------------

/// The map that a list of entries makes.
spec fn map_of(es: Seq<(Seq<char>, Seq<char>)>) -> Map<Seq<char>, Seq<char>>
    decreases es.len(),
{
    if es.len() == 0 {
        Map::empty()
    } else {
        map_of(es.drop_last()).insert(es.last().0, es.last().1)
    }
}

proof fn lemma_listed(
    m: Map<Seq<char>, Seq<char>>,
    keys: Seq<Seq<char>>,
    skipped: Set<Seq<char>>,
)
    requires
        forall|i: int| 0 <= i < keys.len() ==> m.dom().contains(#[trigger] keys[i]),
    ensures
        map_of(mt::listed(m, keys, skipped)) == m.restrict(keys.to_set().difference(skipped)),
        forall|i: int|
            0 <= i < mt::listed(m, keys, skipped).len() ==> {
                let e = #[trigger] mt::listed(m, keys, skipped)[i];
                m.dom().contains(e.0) && e.1 == m[e.0] && !skipped.contains(e.0)
            },
    decreases keys.len(),
{
    let l = mt::listed(m, keys, skipped);
    if keys.len() == 0 {
        assert(map_of(l) =~= m.restrict(keys.to_set().difference(skipped)));
    } else {
        let init = keys.drop_last();
        let k = keys.last();
        assert forall|i: int| 0 <= i < init.len() implies m.dom().contains(#[trigger] init[i]) by {
            assert(init[i] == keys[i]);
        }
        lemma_listed(m, init, skipped);
        assert(keys == init.push(k));
        assert(keys.to_set() =~= init.to_set().insert(k)) by {
            assert forall|x: Seq<char>| keys.to_set().contains(x) == init.to_set().insert(
                k,
            ).contains(x) by {
                if keys.contains(x) {
                    let i = choose|i: int| 0 <= i < keys.len() && keys[i] == x;
                    if i < init.len() {
                        assert(init[i] == x);
                    }
                }
                if init.contains(x) {
                    let i = choose|i: int| 0 <= i < init.len() && init[i] == x;
                    assert(keys[i] == x);
                }
                assert(keys[keys.len() - 1] == k);
            }
        }
        assert(m.dom().contains(k)) by {
            assert(keys[keys.len() - 1] == k);
        }
        let prev = mt::listed(m, init, skipped);
        if skipped.contains(k) {
            assert(map_of(l) =~= m.restrict(keys.to_set().difference(skipped)));
        } else {
            assert(l.drop_last() == prev);
            assert(map_of(l) =~= m.restrict(keys.to_set().difference(skipped)));
            assert forall|i: int| 0 <= i < l.len() implies ({
                let e = #[trigger] l[i];
                m.dom().contains(e.0) && e.1 == m[e.0] && !skipped.contains(e.0)
            }) by {
                if i < prev.len() {
                    assert(l[i] == prev[i]);
                }
            }
        }
    }
}

proof fn lemma_map_of_concat(
    a: Seq<(Seq<char>, Seq<char>)>,
    b: Seq<(Seq<char>, Seq<char>)>,
)
    ensures
        map_of(a + b) == map_of(a).union_prefer_right(map_of(b)),
    decreases b.len(),
{
    if b.len() == 0 {
        assert(a + b == a);
        assert(map_of(a).union_prefer_right(map_of(b)) =~= map_of(a));
    } else {
        assert((a + b).drop_last() == a + b.drop_last());
        lemma_map_of_concat(a, b.drop_last());
        assert(map_of(a + b) =~= map_of(a).union_prefer_right(map_of(b)));
    }
}

/// Header entries write out exactly the headers.
proof fn lemma_header_entries(m: Map<Seq<char>, Seq<char>>)
    requires
        plain_map(m),
        !m.dom().contains("name"@),
    ensures
        map_of(mt::header_entries(m)) == m,
        plain_entries(mt::header_entries(m)),
        forall|i: int|
            0 <= i < mt::header_entries(m).len() ==> (#[trigger] mt::header_entries(m)[i]).0
                != "name"@,
{
    text_map::lemma_in_order_exists(m.dom());
    let keys = text_map::in_order(m.dom());
    let game = set!["game"@];
    assert forall|i: int| 0 <= i < keys.len() implies m.dom().contains(#[trigger] keys[i]) by {
        assert(keys.contains(keys[i]));
        assert(keys.to_set().contains(keys[i]));
    }
    lemma_listed(m, keys, game);
    let others = mt::listed(m, keys, game);
    let es = mt::header_entries(m);
    if m.dom().contains("game"@) {
        let one = seq![("game"@, m["game"@])];
        lemma_map_of_concat(one, others);
        assert(one.drop_last() == Seq::<(Seq<char>, Seq<char>)>::empty());
        assert(map_of(one) == Map::<Seq<char>, Seq<char>>::empty().insert("game"@, m["game"@])) by {
            assert(map_of(one.drop_last()) == Map::<Seq<char>, Seq<char>>::empty());
            assert(one.last() == ("game"@, m["game"@]));
        }
        assert(map_of(es) =~= m);
        assert(plain("game"@, m["game"@]));
    } else {
        assert(map_of(es) =~= m);
    }
    assert forall|i: int| 0 <= i < es.len() implies plain((#[trigger] es[i]).0, es[i].1) && es[i].0
        != "name"@ by {
        if m.dom().contains("game"@) && i > 0 {
            assert(es[i] == others[i - 1]);
            assert(plain(others[i - 1].0, m[others[i - 1].0]));
        } else if !m.dom().contains("game"@) {
            assert(es[i] == others[i]);
            assert(plain(others[i].0, m[others[i].0]));
        }
    }
}

proof fn lemma_meta_entries(m: Map<Seq<char>, Seq<char>>)
    requires
        plain_map(m),
        !m.dom().contains("name"@),
        !m.dom().contains("action"@),
    ensures
        ({
            let es = mt::listed(m, text_map::in_order(m.dom()), set!["action"@, "name"@]);
            &&& map_of(es) == m
            &&& plain_entries(es)
            &&& forall|i: int|
                0 <= i < es.len() ==> (#[trigger] es[i]).0 != "name"@ && es[i].0 != "action"@
        }),
{
    text_map::lemma_in_order_exists(m.dom());
    let keys = text_map::in_order(m.dom());
    let skipped = set!["action"@, "name"@];
    assert forall|i: int| 0 <= i < keys.len() implies m.dom().contains(#[trigger] keys[i]) by {
        assert(keys.contains(keys[i]));
        assert(keys.to_set().contains(keys[i]));
    }
    lemma_listed(m, keys, skipped);
    let es = mt::listed(m, keys, skipped);
    assert(map_of(es) =~= m);
    assert forall|i: int| 0 <= i < es.len() implies plain((#[trigger] es[i]).0, es[i].1) && es[i].0
        != "name"@ && es[i].0 != "action"@ by {
        assert(plain(es[i].0, m[es[i].0]));
    }
}

// ---------------------------------------------------------------------------
// Documents
// ---------------------------------------------------------------------------

/// What a document shares of its macros.
pub open spec fn shared(macros: Seq<mt::MacroView>) -> Seq<mt::Share> {
    Seq::new(
        macros.len(),
        |i: int|
            mt::Share { name: macros[i].name, action: macros[i].action, meta: macros[i].meta },
    )
}

spec fn names_of(macros: Seq<mt::MacroView>) -> Seq<Seq<char>> {
    Seq::new(macros.len(), |i: int| macros[i].name)
}

/// State behind the entries of `macros`.
spec fn behind(h: Map<Seq<char>, Seq<char>>, macros: Seq<mt::MacroView>) -> mt::Reading {
    if macros.len() == 0 {
        mt::Reading { headers: h, ..mt::nothing_read() }
    } else {
        mt::Reading {
            headers: h,
            macros: macros.drop_last(),
            name: Some(macros.last().name),
            action: Some(macros.last().action),
            meta: macros.last().meta,
            seen: names_of(macros),
        }
    }
}

proof fn lemma_read_headers(es: Seq<(Seq<char>, Seq<char>)>)
    requires
        forall|i: int| 0 <= i < es.len() ==> (#[trigger] es[i]).0 != "name"@,
    ensures
        read_entries(es) == Ok::<mt::Reading, mt::ErrorView>(
            mt::Reading { headers: map_of(es), ..mt::nothing_read() },
        ),
    decreases es.len(),
{
    if es.len() > 0 {
        assert forall|i: int| 0 <= i < es.drop_last().len() implies (
        #[trigger] es.drop_last()[i]).0 != "name"@ by {
            assert(es.drop_last()[i] == es[i]);
        }
        assert(es[es.len() - 1] == es.last());
        lemma_read_headers(es.drop_last());
    }
}

proof fn lemma_read_meta(
    before: Seq<(Seq<char>, Seq<char>)>,
    st: mt::Reading,
    es: Seq<(Seq<char>, Seq<char>)>,
)
    requires
        read_entries(before) == Ok::<mt::Reading, mt::ErrorView>(st),
        st.name is Some,
        st.meta == Map::<Seq<char>, Seq<char>>::empty(),
        forall|i: int|
            0 <= i < es.len() ==> (#[trigger] es[i]).0 != "name"@ && es[i].0 != "action"@,
    ensures
        read_entries(before + es) == Ok::<mt::Reading, mt::ErrorView>(
            mt::Reading { meta: map_of(es), ..st },
        ),
    decreases es.len(),
{
    if es.len() == 0 {
        assert(before + es == before);
    } else {
        assert forall|i: int| 0 <= i < es.drop_last().len() implies (
        #[trigger] es.drop_last()[i]).0 != "name"@ && es.drop_last()[i].0 != "action"@ by {
            assert(es.drop_last()[i] == es[i]);
        }
        assert(es[es.len() - 1] == es.last());
        lemma_read_meta(before, st, es.drop_last());
        assert((before + es).drop_last() == before + es.drop_last());
        assert((before + es).last() == es.last());
    }
}

#[verifier::spinoff_prover]
#[verifier::rlimit(60)]
proof fn lemma_read_document(h: Map<Seq<char>, Seq<char>>, macros: Seq<mt::MacroView>)
    requires
        plain_map(h),
        !h.dom().contains("name"@),
        forall|i: int| 0 <= i < macros.len() ==> plain_macro(#[trigger] macros[i]),
        distinct_names(names_of(macros)),
    ensures
        plain_entries(mt::document_entries(h, shared(macros))),
        read_entries(mt::document_entries(h, shared(macros))) == Ok::<mt::Reading, mt::ErrorView>(
            behind(h, macros),
        ),
    decreases macros.len(),
{
    lemma_names_unlike();
    let es = mt::document_entries(h, shared(macros));
    if macros.len() == 0 {
        lemma_header_entries(h);
        lemma_read_headers(es);
    } else {
        let init = macros.drop_last();
        let m = macros.last();
        assert(macros[macros.len() - 1] == m);
        assert forall|i: int| 0 <= i < init.len() implies plain_macro(#[trigger] init[i]) by {
            assert(init[i] == macros[i]);
        }
        assert(distinct_names(names_of(init))) by {
            assert forall|i: int, j: int| 0 <= i < j < names_of(init).len() implies
                !text::same_ignoring_case(
                #[trigger] names_of(init)[i],
                #[trigger] names_of(init)[j],
            ) by {
                assert(names_of(init)[i] == names_of(macros)[i]);
                assert(names_of(init)[j] == names_of(macros)[j]);
            }
        }
        lemma_read_document(h, init);
        assert(shared(macros).drop_last() == shared(init));
        let done = mt::document_entries(h, shared(init));
        let st = behind(h, init);
        let a = seq![("name"@, m.name)];
        let b = mt::listed(m.meta, text_map::in_order(m.meta.dom()), set!["action"@, "name"@]);
        let c = seq![("action"@, m.action)];
        assert(es == done + (a + b + c));
        // The name closes the section before it.
        let line = (done.len() + 1) as int;
        assert(mt::close_section(st, line) == Ok::<Seq<mt::MacroView>, mt::ErrorView>(init)) by {
            if init.len() > 0 {
                let p = init.last();
                assert(init[init.len() - 1] == p);
                assert(mt::closed_macro(p.name, Some(p.action), p.meta, line) == Ok::<
                    mt::MacroView,
                    mt::ErrorView,
                >(p));
                assert(init.drop_last().push(p) == init);
            } else {
                assert(init =~= Seq::<mt::MacroView>::empty());
            }
        }
        assert(st.seen == names_of(init));
        assert(!mt::name_taken(st.seen, m.name)) by {
            assert forall|i: int| 0 <= i < st.seen.len() implies !text::same_ignoring_case(
                #[trigger] st.seen[i],
                m.name,
            ) by {
                assert(names_of(macros)[i] == st.seen[i]);
                assert(names_of(macros)[macros.len() - 1] == m.name);
            }
        }
        let st_name = mt::Reading {
            headers: h,
            macros: init,
            name: Some(m.name),
            action: None,
            meta: Map::empty(),
            seen: names_of(macros),
        };
        assert(st.seen.push(m.name) == names_of(macros));
        assert((done + a).drop_last() == done);
        assert((done + a).last() == ("name"@, m.name));
        assert(read_entries(done + a) == Ok::<mt::Reading, mt::ErrorView>(st_name));
        lemma_meta_entries(m.meta);
        lemma_read_meta(done + a, st_name, b);
        assert((done + a + b + c).drop_last() == done + a + b);
        assert((done + a + b + c).last() == ("action"@, m.action));
        assert(es == done + a + b + c);
        assert(read_entries(es) == Ok::<mt::Reading, mt::ErrorView>(behind(h, macros)));
        assert forall|i: int| 0 <= i < es.len() implies plain((#[trigger] es[i]).0, es[i].1) by {
            if i < done.len() {
                assert(es[i] == done[i]);
            } else if i == done.len() {
                assert(es[i] == a[0]);
            } else if i < done.len() + 1 + b.len() {
                assert(es[i] == b[i - done.len() - 1]);
            } else {
                assert(es[i] == c[0]);
            }
        }
    }
}

/// Exporting a parsed document and parsing the result gives the document back,
/// as long as the exported text stays within the size limit.
pub proof fn law_export_then_parse(s: Seq<char>)
    requires
        mt::document(s) is Ok,
        ({
            let d = mt::document(s)->Ok_0;
            vstd::utf8::encode_utf8(mt::share_text(d.headers, shared(d.macros))).len()
                <= mt::MAX_DOCUMENT_BYTES
        }),
    ensures
        ({
            let d = mt::document(s)->Ok_0;
            mt::document(mt::share_text(d.headers, shared(d.macros))) == Ok::<
                mt::DocumentView,
                mt::ErrorView,
            >(d)
        }),
{
    let d = mt::document(s)->Ok_0;
    let lines = text::lines(s);
    lemma_lines_whole(s);
    lemma_read_lines_good(lines);
    let st = mt::read_lines(lines)->Ok_0;
    let end = if lines.len() == 0 {
        1
    } else {
        lines.len() as int
    };
    lemma_close_good(st, end);
    let macros = d.macros;
    assert(names_of(macros) =~= st.seen);
    lemma_read_document(d.headers, macros);
    let es = mt::document_entries(d.headers, shared(macros));
    let t = mt::entry_text(es);
    lemma_lines_of_text(es);
    lemma_entries_read(es);
    let last = macros.last();
    assert(macros[macros.len() - 1] == last);
    let n = text::lines(t).len();
    let end2 = if n == 0 {
        1
    } else {
        n as int
    };
    assert(mt::closed_macro(last.name, Some(last.action), last.meta, end2) == Ok::<
        mt::MacroView,
        mt::ErrorView,
    >(last));
    assert(macros.drop_last().push(last) == macros);
    assert(mt::close_section(behind(d.headers, macros), end2) == Ok::<
        Seq<mt::MacroView>,
        mt::ErrorView,
    >(macros));
}

/// A game header reads back as the game it was written for; its name comes back trimmed.
pub proof fn law_game_ref_reads_back(appid: Option<u32>, name: Seq<char>)
    ensures
        ({
            let value = match appid {
                Some(id) => text::dec(id as nat) + "|"@ + name,
                None => "|"@ + name,
            };
            &&& mt::game_ref_right(value) == text::trim(name)
            &&& text::parse_unsigned(mt::game_ref_left(value), u32::MAX as nat) == match appid {
                Some(id) => Some(id as nat),
                None => None,
            }
        }),
{
    reveal_strlit("|");
    let head = match appid {
        Some(id) => text::dec(id as nat),
        None => Seq::empty(),
    };
    let value = head + "|"@ + name;
    assert(appid is None ==> value == "|"@ + name);
    if let Some(id) = appid {
        text::lemma_dec_digits(id as nat);
        text::lemma_dec_parses(id as nat, u32::MAX as nat);
        assert forall|i: int| 0 <= i < head.len() implies value[i] != '|' by {
            assert(text::is_digit(head[i]));
            assert(value[i] == head[i]);
        }
        assert(tight(head)) by {
            assert(text::is_digit(head[0]));
            assert(text::is_digit(head[head.len() - 1]));
        }
    }
    text::lemma_find_is(value, '|', head.len() as int);
    assert(value.take(head.len() as int) == head);
    assert(value.skip((head.len() + 1) as int) == name);
    lemma_trim_tight(head);
}

} // verus!
