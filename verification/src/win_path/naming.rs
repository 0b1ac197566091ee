//! Laws on the parts of a path.
use super::{extension, file_name, first_separator, is_separator, last_dot, pieces, stem};
use vstd::prelude::*;

verus! {

/// A name: no separator in it, not empty, and neither `.` nor `..`.
pub open spec fn plain_name(name: Seq<char>) -> bool {
    &&& name.len() > 0
    &&& name != seq!['.']
    &&& name != seq!['.', '.']
    &&& forall|i: int| 0 <= i < name.len() ==> (#[trigger] name[i]) != '/' && name[i] != '\\'
}

proof fn lemma_no_separator(s: Seq<char>)
    requires
        forall|i: int| 0 <= i < s.len() ==> !is_separator(#[trigger] s[i]),
    ensures
        first_separator(s) == s.len(),
    decreases s.len(),
{
    if s.len() > 0 {
        assert(!is_separator(s[0]));
        let t = s.drop_first();
        assert forall|i: int| 0 <= i < t.len() implies !is_separator(#[trigger] t[i]) by {
            assert(t[i] == s[i + 1]);
        }
        lemma_no_separator(t);
    }
}

proof fn lemma_first_separator_stays(s: Seq<char>, rest: Seq<char>)
    ensures
        0 <= first_separator(s) <= s.len(),
        first_separator(s) < s.len() ==> first_separator(s + rest) == first_separator(s),
        first_separator(s) == s.len() ==> first_separator(s + rest) == s.len() + first_separator(
            rest,
        ),
    decreases s.len(),
{
    if s.len() == 0 {
        assert(s + rest == rest);
    } else {
        assert((s + rest).drop_first() == s.drop_first() + rest);
        lemma_first_separator_stays(s.drop_first(), rest);
    }
}

/// Pieces of a path behind which a separator and a name follow.
proof fn lemma_last_piece(dir: Seq<char>, sep: char, name: Seq<char>)
    requires
        is_separator(sep),
        forall|i: int| 0 <= i < name.len() ==> !is_separator(#[trigger] name[i]),
    ensures
        pieces(dir + seq![sep] + name) == pieces(dir).push(name),
    decreases dir.len(),
{
    let s = dir + seq![sep] + name;
    let tail = seq![sep] + name;
    assert(s == dir + tail);
    lemma_first_separator_stays(dir, tail);
    let n = first_separator(dir);
    if n < dir.len() {
        assert(s.take(n) == dir.take(n));
        assert(s.skip(n + 1) == dir.skip(n + 1) + seq![sep] + name);
        lemma_last_piece(dir.skip(n + 1), sep, name);
        assert(seq![dir.take(n)] + pieces(dir.skip(n + 1)).push(name) == (seq![dir.take(n)]
            + pieces(dir.skip(n + 1))).push(name));
    } else {
        assert(first_separator(tail) == 0) by {
            assert(is_separator(tail[0]));
        }
        assert(s.take(n) == dir);
        assert(s.skip(n + 1) == name);
        lemma_no_separator(name);
        assert(pieces(name) == seq![name]);
        assert(seq![dir] + seq![name] == seq![dir].push(name));
    }
}

/// The file that a path on a drive names is what stands behind its last separator, a slash or a
/// backslash.
pub proof fn law_file_name_is_behind_the_last_separator(
    drive: char,
    dir: Seq<char>,
    sep: char,
    name: Seq<char>,
)
    requires
        'a' <= drive <= 'z' || 'A' <= drive <= 'Z',
        sep == '/' || sep == '\\',
        plain_name(name),
    ensures
        file_name(seq![drive, ':'] + dir + seq![sep] + name) == Some(name),
{
    let s = seq![drive, ':'] + dir + seq![sep] + name;
    assert(s.skip(2) == dir + seq![sep] + name);
    assert forall|i: int| 0 <= i < name.len() implies !is_separator(#[trigger] name[i]) by {
        assert(name[i] != '/' && name[i] != '\\');
    }
    lemma_last_piece(dir, sep, name);
    assert(s[1] == ':' && s[0] == drive);
    assert(pieces(dir).push(name).last() == name);
}

/// A name alone is its own file name.
pub proof fn law_bare_name_is_its_own(name: Seq<char>)
    requires
        plain_name(name),
        !name.contains(':'),
    ensures
        file_name(name) == Some(name),
{
    assert forall|i: int| 0 <= i < name.len() implies !is_separator(#[trigger] name[i]) by {
        assert(name[i] != '/' && name[i] != '\\');
    }
    lemma_no_separator(name);
    assert(pieces(name) == seq![name]);
    if name.len() >= 2 {
        assert(name[1] != ':');
    }
    assert(seq![name].last() == name);
}

proof fn lemma_last_dot(a: Seq<char>, b: Seq<char>)
    requires
        !b.contains('.'),
    ensures
        last_dot(a + seq!['.'] + b) == a.len(),
    decreases b.len(),
{
    let s = a + seq!['.'] + b;
    if b.len() == 0 {
        assert(s.last() == '.');
    } else {
        assert(s.last() == b.last());
        assert(b.contains(b[b.len() - 1]));
        let c = b.drop_last();
        assert(!c.contains('.')) by {
            if c.contains('.') {
                let i = choose|i: int| 0 <= i < c.len() && c[i] == '.';
                assert(b[i] == '.');
            }
        }
        assert(s.drop_last() == a + seq!['.'] + c);
        lemma_last_dot(a, c);
    }
}

proof fn lemma_no_dot(s: Seq<char>)
    requires
        !s.contains('.'),
    ensures
        last_dot(s) == -1,
    decreases s.len(),
{
    if s.len() > 0 {
        assert(s.contains(s[s.len() - 1]));
        let c = s.drop_last();
        assert(!c.contains('.')) by {
            if c.contains('.') {
                let i = choose|i: int| 0 <= i < c.len() && c[i] == '.';
                assert(s[i] == '.');
            }
        }
        lemma_no_dot(c);
    }
}

/// A name comes apart at its last dot into stem and extension. A name without a dot, or with its
/// last one in front, is all stem.
pub proof fn law_last_dot_parts_a_name(a: Seq<char>, b: Seq<char>)
    requires
        !b.contains('.'),
    ensures
        a.len() > 0 ==> stem(a + seq!['.'] + b) == a && extension(a + seq!['.'] + b) == Some(b),
        stem(b) == b && extension(b) is None,
        stem(seq!['.'] + b) == seq!['.'] + b && extension(seq!['.'] + b) is None,
{
    let s = a + seq!['.'] + b;
    lemma_last_dot(a, b);
    lemma_no_dot(b);
    assert(s.take(a.len() as int) == a);
    assert(s.skip(a.len() as int + 1) == b);
    lemma_last_dot(Seq::empty(), b);
    assert(Seq::<char>::empty() + seq!['.'] + b == seq!['.'] + b);
}

} // verus!
