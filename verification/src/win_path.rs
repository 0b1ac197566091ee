//! File names of Windows paths: plain, drive-letter and network-share ones.
use crate::text;
use vstd::prelude::*;
use vstd::slice::slice_subrange;

pub mod naming;

verus! {

/// Whether a character separates path components.
pub open spec fn is_separator(c: char) -> bool {
    c == '/' || c == '\\'
}

/// Position of the first separator, or the length when there is none.
pub open spec fn first_separator(s: Seq<char>) -> int
    decreases s.len(),
{
    if s.len() == 0 || is_separator(s[0]) {
        0
    } else {
        1 + first_separator(s.drop_first())
    }
}

proof fn lemma_first_separator(s: Seq<char>)
    ensures
        0 <= first_separator(s) <= s.len(),
    decreases s.len(),
{
    if s.len() > 0 && !is_separator(s[0]) {
        lemma_first_separator(s.drop_first());
    }
}

proof fn lemma_first_separator_is(s: Seq<char>, k: int)
    requires
        0 <= k <= s.len(),
        k < s.len() ==> is_separator(s[k]),
        forall|i: int| 0 <= i < k ==> !is_separator(s[i]),
    ensures
        first_separator(s) == k,
    decreases k,
{
    if k > 0 {
        assert(!is_separator(s[0]));
        let t = s.drop_first();
        assert forall|i: int| 0 <= i < k - 1 implies !is_separator(t[i]) by {
            assert(t[i] == s[i + 1]);
        }
        lemma_first_separator_is(t, k - 1);
    }
}

/// Text between separators, empty pieces among them.
pub open spec fn pieces(s: Seq<char>) -> Seq<Seq<char>>
    decreases s.len(),
{
    let n = first_separator(s);
    if 0 <= n < s.len() {
        seq![s.take(n)] + pieces(s.skip(n + 1))
    } else {
        seq![s]
    }
}

/// Whether a path begins with a drive letter.
pub open spec fn has_drive(s: Seq<char>) -> bool {
    s.len() >= 2 && s[1] == ':' && ('a' <= s[0] <= 'z' || 'A' <= s[0] <= 'Z')
}

/// A path behind its drive letter.
pub open spec fn behind_drive(s: Seq<char>) -> Seq<char> {
    if has_drive(s) {
        s.skip(2)
    } else {
        s
    }
}

/// Whether the pieces begin with `\\server\share`.
pub open spec fn is_share(p: Seq<Seq<char>>) -> bool {
    p.len() >= 4 && p[0].len() == 0 && p[1].len() == 0 && p[2].len() > 0 && p[3].len() > 0
}

/// Pieces of a path behind its drive letter or network share.
pub open spec fn body(s: Seq<char>) -> Seq<Seq<char>> {
    let p = pieces(behind_drive(s));
    if !has_drive(s) && is_share(p) {
        p.skip(4)
    } else {
        p
    }
}

/// Whether a piece names something: an empty one and `.` do not.
pub open spec fn names(p: Seq<char>) -> bool {
    p.len() > 0 && p != seq!['.']
}

/// The last piece that names something.
pub open spec fn last_named(p: Seq<Seq<char>>) -> Option<Seq<char>>
    decreases p.len(),
{
    if p.len() == 0 {
        None
    } else if names(p.last()) {
        Some(p.last())
    } else {
        last_named(p.drop_last())
    }
}

/// Number of pieces that name something.
pub open spec fn named_count(p: Seq<Seq<char>>) -> nat
    decreases p.len(),
{
    if p.len() == 0 {
        0
    } else {
        named_count(p.drop_last()) + (if names(p.last()) {
            1nat
        } else {
            0nat
        })
    }
}

/// File name of a path; a path that ends in `..` has none.
pub open spec fn file_name(s: Seq<char>) -> Option<Seq<char>> {
    match last_named(body(s)) {
        Some(n) => if n == seq!['.', '.'] {
            None
        } else {
            Some(n)
        },
        None => None,
    }
}

/// Number of components: drive, share (with its root), root, a leading `.`, and names.
pub open spec fn component_count(s: Seq<char>) -> nat {
    let p = pieces(behind_drive(s));
    let share = !has_drive(s) && is_share(p);
    let rooted = p.len() >= 2 && p[0].len() == 0;
    (if has_drive(s) {
        1nat
    } else {
        0nat
    }) + (if share {
        2nat
    } else if rooted || p[0] == seq!['.'] {
        1nat
    } else {
        0nat
    }) + named_count(body(s))
}

/// Position of the last dot, or -1.
pub open spec fn last_dot(s: Seq<char>) -> int
    decreases s.len(),
{
    if s.len() == 0 {
        -1
    } else if s.last() == '.' {
        s.len() - 1
    } else {
        last_dot(s.drop_last())
    }
}

/// File name without its extension; a name with its only dot in front has none.
pub open spec fn stem(name: Seq<char>) -> Seq<char> {
    if last_dot(name) <= 0 {
        name
    } else {
        name.take(last_dot(name))
    }
}

/// Extension of a file name.
pub open spec fn extension(name: Seq<char>) -> Option<Seq<char>> {
    if last_dot(name) <= 0 {
        None
    } else {
        Some(name.skip(last_dot(name) + 1))
    }
}

/// Models of a list of pieces.
pub open spec fn views(v: Seq<Vec<char>>) -> Seq<Seq<char>> {
    Seq::new(v.len(), |i: int| v[i]@)
}

/// Executable form of [`pieces`].
fn split(s: &[char]) -> (r: Vec<Vec<char>>)
    ensures
        views(r@) == pieces(s@),
{
    let mut out: Vec<Vec<char>> = Vec::new();
    let mut at: usize = 0;
    assert(s@.skip(0) == s@);
    assert(views(out@) + pieces(s@.skip(0)) =~= pieces(s@));
    loop
        invariant
            at <= s@.len(),
            views(out@) + pieces(s@.skip(at as int)) == pieces(s@),
        decreases s@.len() - at,
    {
        let ghost rest = s@.skip(at as int);
        let mut n: usize = at;
        while n < s.len() && s[n] != '/' && s[n] != '\\'
            invariant
                at <= n <= s@.len(),
                rest == s@.skip(at as int),
                forall|k: int| 0 <= k < n - at ==> !is_separator(#[trigger] rest[k]),
            decreases s@.len() - n,
        {
            assert(rest[n - at] == s@[n as int]);
            n = n + 1;
        }
        proof {
            if n < s@.len() {
                assert(rest[n - at] == s@[n as int]);
            }
            lemma_first_separator_is(rest, n - at);
        }
        let piece = text::slice_to_vec_range(s, at, n);
        assert(piece@ == rest.take(n - at));
        let ghost before = views(out@);
        out.push(piece);
        assert(views(out@) =~= before.push(piece@));
        if n >= s.len() {
            assert(rest.take(n - at) == rest);
            assert(before.push(piece@) =~= before + seq![rest]);
            return out;
        }
        assert(rest.skip(n - at + 1) == s@.skip(n + 1));
        assert(before.push(piece@) + pieces(s@.skip(n + 1)) =~= before + (seq![piece@] + pieces(
            s@.skip(n + 1),
        )));
        at = n + 1;
    }
}

fn starts_with_drive(s: &[char]) -> (r: bool)
    ensures
        r == has_drive(s@),
{
    s.len() >= 2 && s[1] == ':' && (('a' <= s[0] && s[0] <= 'z') || ('A' <= s[0] && s[0] <= 'Z'))
}

proof fn lemma_pieces_not_empty(s: Seq<char>)
    ensures
        pieces(s).len() > 0,
{
}

/// Pieces of a path with its drive letter cut off, and how many of them are its share.
fn split_path(s: &[char]) -> (r: (Vec<Vec<char>>, usize))
    ensures
        views(r.0@) == pieces(behind_drive(s@)),
        r.0@.len() > 0,
        r.1 <= r.0@.len(),
        body(s@) == views(r.0@).skip(r.1 as int),
        r.1 == (if !has_drive(s@) && is_share(pieces(s@)) {
            4int
        } else {
            0int
        }),
{
    let drive = starts_with_drive(s);
    let from: usize = if drive {
        2
    } else {
        0
    };
    let rest = slice_subrange(s, from, s.len());
    assert(rest@ == behind_drive(s@));
    let p = split(rest);
    proof {
        lemma_pieces_not_empty(rest@);
        assert(forall|i: int| 0 <= i < p@.len() ==> (#[trigger] views(p@)[i]) == p@[i]@);
        assert(views(p@).skip(0) == views(p@));
    }
    let share = !drive && p.len() >= 4 && p[0].len() == 0 && p[1].len() == 0 && p[2].len() > 0
        && p[3].len() > 0;
    assert(share == (!has_drive(s@) && is_share(views(p@))));
    let skip: usize = if share {
        4
    } else {
        0
    };
    (p, skip)
}

fn piece_names(p: &[char]) -> (r: bool)
    ensures
        r == names(p@),
{
    let dot = p.len() == 1 && p[0] == '.';
    assert(dot == (p@ =~= seq!['.']));
    p.len() > 0 && !dot
}

/// Executable form of [`file_name`].
pub fn file_name_of(path: &str) -> (r: Option<Vec<char>>)
    ensures
        match r {
            Some(n) => file_name(path@) == Some(n@),
            None => file_name(path@) is None,
        },
{
    let cs = text::chars_of(path);
    let (p, skip) = split_path(cs.as_slice());
    let ghost b = body(path@);
    let mut n: usize = p.len();
    assert(b.take(b.len() as int) == b);
    while n > skip
        invariant
            skip <= n <= p@.len(),
            b == body(path@),
            b == views(p@).skip(skip as int),
            last_named(b) == last_named(b.take(n - skip)),
        decreases n,
    {
        let ghost t = b.take(n - skip);
        assert(t.last() == p@[n - 1]@);
        assert(t.drop_last() == b.take(n - 1 - skip));
        if piece_names(p[n - 1].as_slice()) {
            let name = text::copy_chars(p[n - 1].as_slice());
            let up = name.len() == 2 && name[0] == '.' && name[1] == '.';
            assert(up == (name@ =~= seq!['.', '.']));
            if up {
                return None;
            }
            return Some(name);
        }
        n = n - 1;
    }
    None
}

/// Executable form of `component_count(path@) == 1`.
pub fn is_single_component(path: &str) -> (r: bool)
    ensures
        r == (component_count(path@) == 1),
{
    let cs = text::chars_of(path);
    let drive = starts_with_drive(cs.as_slice());
    let (p, skip) = split_path(cs.as_slice());
    let ghost b = body(path@);
    let ghost v = views(p@);
    let mut count: usize = 0;
    let mut i: usize = skip;
    assert(b.take(0) == Seq::<Seq<char>>::empty());
    while i < p.len()
        invariant
            skip <= i <= p@.len(),
            b == views(p@).skip(skip as int),
            count == named_count(b.take(i - skip)),
            count <= i - skip,
        decreases p@.len() - i,
    {
        assert(b.take(i + 1 - skip).last() == p@[i as int]@);
        assert(b.take(i + 1 - skip).drop_last() == b.take(i - skip));
        if piece_names(p[i].as_slice()) {
            count = count + 1;
        }
        i = i + 1;
    }
    assert(b.take(i - skip) == b);
    assert(v[0] == p@[0]@);
    let dot = p[0].len() == 1 && p[0][0] == '.';
    assert(dot == (v[0] =~= seq!['.']));
    let front = skip == 0 && ((p.len() >= 2 && p[0].len() == 0) || dot);
    if skip > 0 {
        false
    } else if drive {
        count == 0 && !front
    } else if front {
        count == 0
    } else {
        count == 1
    }
}

fn find_last_dot(name: &[char]) -> (r: usize)
    ensures
        r <= name@.len(),
        r < name@.len() ==> last_dot(name@) == r,
        r == name@.len() ==> last_dot(name@) == -1,
{
    let mut n: usize = name.len();
    assert(name@.take(n as int) == name@);
    while n > 0
        invariant
            n <= name@.len(),
            last_dot(name@) == last_dot(name@.take(n as int)),
        decreases n,
    {
        assert(name@.take(n as int).drop_last() == name@.take(n - 1));
        if name[n - 1] == '.' {
            return n - 1;
        }
        n = n - 1;
    }
    name.len()
}

/// Executable form of [`stem`].
pub fn stem_of(name: &[char]) -> (r: Vec<char>)
    ensures
        r@ == stem(name@),
{
    let dot: usize = find_last_dot(name);
    if dot == 0 || dot == name.len() {
        text::copy_chars(name)
    } else {
        assert(name@.subrange(0, dot as int) == name@.take(dot as int));
        text::slice_to_vec_range(name, 0, dot)
    }
}

/// Executable form of [`extension`].
pub fn extension_of(name: &[char]) -> (r: Option<Vec<char>>)
    ensures
        match r {
            Some(e) => extension(name@) == Some(e@),
            None => extension(name@) is None,
        },
{
    let dot: usize = find_last_dot(name);
    if dot == 0 || dot == name.len() {
        None
    } else {
        assert(name@.subrange(dot + 1, name@.len() as int) == name@.skip(dot + 1));
        Some(text::slice_to_vec_range(name, dot + 1, name.len()))
    }
}

} // verus!
