//! Text primitives over character sequences.
//!
//! Text is modelled as a sequence of Unicode scalar values; the functions here
//! work on slices of characters and state their results over that model.
use vstd::prelude::*;
use vstd::slice::slice_subrange;
use vstd::string::StringExecFns;

pub mod reading;

verus! {

/// Contract of `String::push`: the character is appended.
pub assume_specification[ String::push ](s: &mut String, ch: char)
    ensures
        final(s)@ == old(s)@.push(ch),
;

/// Characters of `s`.
pub fn chars_of(s: &str) -> (r: Vec<char>)
    ensures
        r@ == s@,
{
    let mut r: Vec<char> = Vec::new();
    for c in it: s.chars()
        invariant
            it.seq() == s@,
            r@ == s@.take(it.index() as int),
    {
        r.push(c);
    }
    r
}

/// String holding the characters of `cs`.
pub fn to_text(cs: &[char]) -> (r: String)
    ensures
        r@ == cs@,
{
    let mut r: String = String::new();
    let mut i: usize = 0;
    while i < cs.len()
        invariant
            i <= cs@.len(),
            r@ == cs@.take(i as int),
        decreases cs@.len() - i,
    {
        r.push(cs[i]);
        i = i + 1;
    }
    r
}

/// Copy of a slice of characters.
pub fn copy_chars(cs: &[char]) -> (r: Vec<char>)
    ensures
        r@ == cs@,
{
    vstd::slice::slice_to_vec(cs)
}

/// Owned copy of a string.
pub fn own(s: &str) -> (r: String)
    ensures
        r@ == s@,
{
    s.to_owned()
}

/// Two pieces of text, one after the other.
pub fn cat2(a: &str, b: &str) -> (r: String)
    ensures
        r@ == a@ + b@,
{
    let mut r: String = a.to_owned();
    r.append(b);
    r
}

/// Three pieces of text, one after the other.
pub fn cat3(a: &str, b: &str, c: &str) -> (r: String)
    ensures
        r@ == a@ + b@ + c@,
{
    let mut r: String = a.to_owned();
    r.append(b);
    r.append(c);
    r
}

/// Number of bytes of `s` in UTF-8.
pub fn byte_len(s: &str) -> (r: usize)
    ensures
        r == vstd::utf8::encode_utf8(s@).len(),
{
    s.as_bytes().len()
}

// ---------------------------------------------------------------------------
// Equality and order
// ---------------------------------------------------------------------------

/// Whether two slices hold the same characters.
pub fn chars_eq(a: &[char], b: &[char]) -> (r: bool)
    ensures
        r == (a@ == b@),
{
    if a.len() != b.len() {
        return false;
    }
    let mut i: usize = 0;
    while i < a.len()
        invariant
            i <= a@.len(),
            a@.len() == b@.len(),
            a@.take(i as int) == b@.take(i as int),
        decreases a@.len() - i,
    {
        if a[i] != b[i] {
            assert(a@[i as int] != b@[i as int]);
            return false;
        }
        assert(a@.take(i + 1) == a@.take(i as int).push(a@[i as int]));
        assert(b@.take(i + 1) == b@.take(i as int).push(b@[i as int]));
        i = i + 1;
    }
    assert(a@.take(i as int) == a@);
    assert(b@.take(i as int) == b@);
    true
}

/// Whether two strings hold the same characters.
pub fn str_eq(a: &str, b: &str) -> (r: bool)
    ensures
        r == (a@ == b@),
{
    let x = chars_of(a);
    let y = chars_of(b);
    chars_eq(x.as_slice(), y.as_slice())
}

/// Whether a slice of characters spells `lit`.
pub fn chars_are(a: &[char], lit: &str) -> (r: bool)
    ensures
        r == (a@ == lit@),
{
    let y = chars_of(lit);
    chars_eq(a, y.as_slice())
}

/// Strict order by code point, shorter text first on a common prefix.
pub open spec fn text_lt(a: Seq<char>, b: Seq<char>) -> bool
    decreases a.len(),
{
    if b.len() == 0 {
        false
    } else if a.len() == 0 {
        true
    } else if a[0] != b[0] {
        a[0] < b[0]
    } else {
        text_lt(a.drop_first(), b.drop_first())
    }
}

pub proof fn lemma_text_lt_irreflexive(a: Seq<char>)
    ensures
        !text_lt(a, a),
    decreases a.len(),
{
    if a.len() > 0 {
        lemma_text_lt_irreflexive(a.drop_first());
    }
}

pub proof fn lemma_text_lt_transitive(a: Seq<char>, b: Seq<char>, c: Seq<char>)
    requires
        text_lt(a, b),
        text_lt(b, c),
    ensures
        text_lt(a, c),
    decreases a.len(),
{
    if a.len() > 0 && b.len() > 0 && c.len() > 0 && a[0] == b[0] && b[0] == c[0] {
        lemma_text_lt_transitive(a.drop_first(), b.drop_first(), c.drop_first());
    }
}

pub proof fn lemma_text_lt_total(a: Seq<char>, b: Seq<char>)
    ensures
        a == b || text_lt(a, b) || text_lt(b, a),
    decreases a.len(),
{
    if a.len() > 0 && b.len() > 0 && a[0] == b[0] {
        lemma_text_lt_total(a.drop_first(), b.drop_first());
        if a.drop_first() == b.drop_first() {
            assert(a == seq![a[0]] + a.drop_first());
            assert(b == seq![b[0]] + b.drop_first());
        }
    } else if a.len() == 0 && b.len() == 0 {
        assert(a == b);
    }
}

/// Executable form of [`text_lt`].
pub fn chars_lt(a: &[char], b: &[char]) -> (r: bool)
    ensures
        r == text_lt(a@, b@),
{
    let mut i: usize = 0;
    assert(a@.skip(0) == a@);
    assert(b@.skip(0) == b@);
    loop
        invariant
            i <= a@.len(),
            i <= b@.len(),
            text_lt(a@, b@) == text_lt(a@.skip(i as int), b@.skip(i as int)),
        decreases a@.len() - i,
    {
        if i >= b.len() {
            return false;
        }
        if i >= a.len() {
            return true;
        }
        if a[i] != b[i] {
            return a[i] < b[i];
        }
        assert(a@.skip(i as int).drop_first() == a@.skip(i + 1));
        assert(b@.skip(i as int).drop_first() == b@.skip(i + 1));
        i = i + 1;
    }
}

/// Order of two strings by code point.
pub fn str_lt(a: &str, b: &str) -> (r: bool)
    ensures
        r == text_lt(a@, b@),
{
    let x = chars_of(a);
    let y = chars_of(b);
    chars_lt(x.as_slice(), y.as_slice())
}

// ---------------------------------------------------------------------------
// White space
// ---------------------------------------------------------------------------

/// Unicode `White_Space`.
pub open spec fn is_space(c: char) -> bool {
    let u = c as u32;
    ||| 0x9 <= u <= 0xD
    ||| u == 0x20
    ||| u == 0x85
    ||| u == 0xA0
    ||| u == 0x1680
    ||| 0x2000 <= u <= 0x200A
    ||| u == 0x2028
    ||| u == 0x2029
    ||| u == 0x202F
    ||| u == 0x205F
    ||| u == 0x3000
}

/// Executable form of [`is_space`].
pub fn char_is_space(c: char) -> (r: bool)
    ensures
        r == is_space(c),
{
    let u: u32 = c as u32;
    (0x9 <= u && u <= 0xD) || u == 0x20 || u == 0x85 || u == 0xA0 || u == 0x1680 || (0x2000 <= u
        && u <= 0x200A) || u == 0x2028 || u == 0x2029 || u == 0x202F || u == 0x205F || u == 0x3000
}

/// Text without its leading white space.
pub open spec fn trim_start(s: Seq<char>) -> Seq<char>
    decreases s.len(),
{
    if s.len() > 0 && is_space(s[0]) {
        trim_start(s.drop_first())
    } else {
        s
    }
}

/// Text without its trailing white space.
pub open spec fn trim_end(s: Seq<char>) -> Seq<char>
    decreases s.len(),
{
    if s.len() > 0 && is_space(s.last()) {
        trim_end(s.drop_last())
    } else {
        s
    }
}

/// Text without leading or trailing white space.
pub open spec fn trim(s: Seq<char>) -> Seq<char> {
    trim_end(trim_start(s))
}

/// Executable form of [`trim_start`].
pub fn chars_trim_start(s: &[char]) -> (r: &[char])
    ensures
        r@ == trim_start(s@),
{
    let mut i: usize = 0;
    assert(s@.skip(0) == s@);
    while i < s.len() && char_is_space(s[i])
        invariant
            i <= s@.len(),
            trim_start(s@) == trim_start(s@.skip(i as int)),
        decreases s@.len() - i,
    {
        assert(s@.skip(i as int).drop_first() == s@.skip(i + 1));
        i = i + 1;
    }
    assert(s@.subrange(i as int, s@.len() as int) == s@.skip(i as int));
    slice_subrange(s, i, s.len())
}

/// Executable form of [`trim`].
pub fn chars_trim(s: &[char]) -> (r: &[char])
    ensures
        r@ == trim(s@),
{
    let t = chars_trim_start(s);
    let mut j: usize = t.len();
    assert(t@.take(j as int) == t@);
    while j > 0 && char_is_space(t[j - 1])
        invariant
            j <= t@.len(),
            trim_end(t@) == trim_end(t@.take(j as int)),
        decreases j,
    {
        assert(t@.take(j as int).drop_last() == t@.take(j - 1));
        j = j - 1;
    }
    assert(t@.subrange(0, j as int) == t@.take(j as int));
    slice_subrange(t, 0, j)
}

/// Trimmed copy of a string.
pub fn str_trim(s: &str) -> (r: String)
    ensures
        r@ == trim(s@),
{
    let cs = chars_of(s);
    to_text(chars_trim(cs.as_slice()))
}

// ---------------------------------------------------------------------------
// ASCII case
// ---------------------------------------------------------------------------

/// `A`–`Z` mapped to `a`–`z`, every other character unchanged.
pub open spec fn lower(c: char) -> char {
    if 'A' <= c <= 'Z' {
        ((c as u32) + 32) as char
    } else {
        c
    }
}

/// Text with every ASCII capital lowered.
pub open spec fn ascii_lower(s: Seq<char>) -> Seq<char> {
    Seq::new(s.len(), |i: int| lower(s[i]))
}

/// Equality up to ASCII case.
pub open spec fn same_ignoring_case(a: Seq<char>, b: Seq<char>) -> bool {
    ascii_lower(a) == ascii_lower(b)
}

/// Executable form of [`lower`].
pub fn char_lower(c: char) -> (r: char)
    ensures
        r == lower(c),
{
    if 'A' <= c && c <= 'Z' {
        let b: u8 = c as u8;
        assert(b == c as u32);
        (b + 32) as char
    } else {
        c
    }
}

/// Executable form of [`ascii_lower`].
pub fn chars_lower(s: &[char]) -> (r: Vec<char>)
    ensures
        r@ == ascii_lower(s@),
{
    let mut r: Vec<char> = Vec::new();
    let mut i: usize = 0;
    while i < s.len()
        invariant
            i <= s@.len(),
            r@ == ascii_lower(s@).take(i as int),
        decreases s@.len() - i,
    {
        r.push(char_lower(s[i]));
        i = i + 1;
    }
    assert(ascii_lower(s@).take(i as int) == ascii_lower(s@));
    r
}

/// Executable form of [`same_ignoring_case`].
pub fn chars_eq_ignore_case(a: &[char], b: &[char]) -> (r: bool)
    ensures
        r == same_ignoring_case(a@, b@),
{
    let x = chars_lower(a);
    let y = chars_lower(b);
    chars_eq(x.as_slice(), y.as_slice())
}

/// Equality of two strings up to ASCII case.
pub fn str_eq_ignore_case(a: &str, b: &str) -> (r: bool)
    ensures
        r == same_ignoring_case(a@, b@),
{
    let x = chars_of(a);
    let y = chars_of(b);
    chars_eq_ignore_case(x.as_slice(), y.as_slice())
}

/// Lower case of a text, by the Unicode mapping.
pub uninterp spec fn lowercased(s: Seq<char>) -> Seq<char>;

/// `str::to_lowercase`: the Unicode lower case of a text, a function of the text alone. On
/// ASCII text it turns each letter into its lower-case letter.
#[verifier::external_body]
pub(crate) fn str_lowercase(s: &str) -> (r: String)
    ensures
        r@ == lowercased(s@),
        (forall|i: int| 0 <= i < s@.len() ==> (#[trigger] s@[i] as u32) < 128) ==> r@
            == ascii_lower(s@),
{
    s.to_lowercase()
}

// ---------------------------------------------------------------------------
// UTF-16
// ---------------------------------------------------------------------------

/// UTF-16 code units of a character.
pub open spec fn units(c: char) -> Seq<u16> {
    let n = c as u32;
    if n < 0x10000 {
        seq![n as u16]
    } else {
        seq![
            (0xD800 + (n - 0x10000) / 0x400) as u16,
            (0xDC00 + (n - 0x10000) % 0x400) as u16,
        ]
    }
}

/// UTF-16 code units of a text.
pub open spec fn utf16(s: Seq<char>) -> Seq<u16>
    decreases s.len(),
{
    if s.len() == 0 {
        seq![]
    } else {
        utf16(s.drop_last()) + units(s.last())
    }
}

/// Executable form of [`utf16`].
pub fn utf16_units(s: &str) -> (r: Vec<u16>)
    ensures
        r@ == utf16(s@),
{
    let cs = chars_of(s);
    let mut out: Vec<u16> = Vec::new();
    let mut i: usize = 0;
    assert(s@.take(0) == Seq::<char>::empty());
    while i < cs.len()
        invariant
            i <= cs@.len(),
            cs@ == s@,
            out@ == utf16(s@.take(i as int)),
        decreases cs@.len() - i,
    {
        assert(s@.take(i + 1).drop_last() == s@.take(i as int));
        let ghost before = out@;
        let n: u32 = cs[i] as u32;
        if n < 0x10000 {
            out.push(n as u16);
        } else {
            out.push((0xD800 + (n - 0x10000) / 0x400) as u16);
            out.push((0xDC00 + (n - 0x10000) % 0x400) as u16);
        }
        assert(out@ =~= before + units(cs@[i as int]));
        i = i + 1;
    }
    assert(s@.take(i as int) == s@);
    out
}

// ---------------------------------------------------------------------------
// Searching
// ---------------------------------------------------------------------------

/// Position of the first `c`, or the length when there is none.
pub open spec fn find(s: Seq<char>, c: char) -> int
    decreases s.len(),
{
    if s.len() == 0 || s[0] == c {
        0
    } else {
        1 + find(s.drop_first(), c)
    }
}

pub proof fn lemma_find(s: Seq<char>, c: char)
    ensures
        0 <= find(s, c) <= s.len(),
        find(s, c) < s.len() ==> s[find(s, c)] == c,
        forall|i: int| 0 <= i < find(s, c) ==> s[i] != c,
    decreases s.len(),
{
    if s.len() > 0 && s[0] != c {
        lemma_find(s.drop_first(), c);
        assert forall|i: int| 0 <= i < find(s, c) implies s[i] != c by {
            if i > 0 {
                assert(s[i] == s.drop_first()[i - 1]);
            }
        }
    }
}

/// The first occurrence is the only position with nothing earlier.
pub proof fn lemma_find_is(s: Seq<char>, c: char, k: int)
    requires
        0 <= k <= s.len(),
        k < s.len() ==> s[k] == c,
        forall|i: int| 0 <= i < k ==> s[i] != c,
    ensures
        find(s, c) == k,
{
    lemma_find(s, c);
    let f = find(s, c);
    if f < k {
        assert(s[f] != c);
    } else if k < f {
        assert(s[k] != c);
    }
}

/// Executable form of [`find`].
pub fn chars_find(s: &[char], c: char) -> (r: usize)
    ensures
        r == find(s@, c),
        r <= s@.len(),
{
    let mut i: usize = 0;
    while i < s.len() && s[i] != c
        invariant
            i <= s@.len(),
            forall|k: int| 0 <= k < i ==> s@[k] != c,
        decreases s@.len() - i,
    {
        i = i + 1;
    }
    proof {
        lemma_find_is(s@, c, i as int);
    }
    i
}

/// Whether `s` begins with `p`.
pub open spec fn begins(s: Seq<char>, p: Seq<char>) -> bool {
    p.len() <= s.len() && s.take(p.len() as int) == p
}

/// Executable form of [`begins`].
pub fn chars_begin(s: &[char], p: &[char]) -> (r: bool)
    ensures
        r == begins(s@, p@),
{
    if p.len() > s.len() {
        return false;
    }
    assert(s@.subrange(0, p@.len() as int) == s@.take(p@.len() as int));
    chars_eq(slice_subrange(s, 0, p.len()), p)
}

/// Whether a string begins with `p`.
pub fn str_begins(s: &str, p: &str) -> (r: bool)
    ensures
        r == begins(s@, p@),
{
    let x = chars_of(s);
    let y = chars_of(p);
    chars_begin(x.as_slice(), y.as_slice())
}

/// Whether `p` occurs in `s`.
pub open spec fn occurs(s: Seq<char>, p: Seq<char>) -> bool {
    exists|i: int| 0 <= i <= s.len() && #[trigger] begins(s.skip(i), p)
}

/// Whether `p` occurs in the string `s`.
pub fn str_contains(s: &str, p: &str) -> (r: bool)
    ensures
        r == occurs(s@, p@),
{
    let x = chars_of(s);
    let y = chars_of(p);
    let mut i: usize = 0;
    while i < x.len()
        invariant
            i <= x@.len(),
            x@ == s@,
            y@ == p@,
            forall|k: int| 0 <= k < i ==> !#[trigger] begins(s@.skip(k), p@),
        decreases x@.len() - i,
    {
        assert(x@.subrange(i as int, x@.len() as int) == s@.skip(i as int));
        if chars_begin(slice_subrange(x.as_slice(), i, x.len()), y.as_slice()) {
            return true;
        }
        i = i + 1;
    }
    let r = y.len() == 0;
    proof {
        assert(s@.skip(i as int).len() == 0);
        assert(begins(s@.skip(i as int), p@) == r) by {
            if r {
                assert(s@.skip(i as int).take(0) == p@);
            }
        }
    }
    r
}

// ---------------------------------------------------------------------------
// Numbers
// ---------------------------------------------------------------------------

/// The character of a decimal digit.
pub open spec fn digit(d: int) -> char {
    (48 + d) as char
}

/// Whether `c` is `0`–`9`.
pub open spec fn is_digit(c: char) -> bool {
    '0' <= c <= '9'
}

/// Decimal notation of `n`.
pub open spec fn dec(n: nat) -> Seq<char>
    decreases n,
{
    if n < 10 {
        seq![digit(n as int)]
    } else {
        dec(n / 10).push(digit((n % 10) as int))
    }
}

/// Character of the digit `d`.
fn digit_char(d: u8) -> (r: char)
    requires
        d < 10,
    ensures
        r == digit(d as int),
{
    (48 + d) as char
}

/// Decimal notation of `n`, appended to `out`.
pub fn push_dec(out: &mut String, n: u64)
    ensures
        final(out)@ == old(out)@ + dec(n as nat),
    decreases n,
{
    if n >= 10 {
        push_dec(out, n / 10);
    }
    let ghost before = out@;
    let d: u8 = (n % 10) as u8;
    out.push(digit_char(d));
    proof {
        assert(n < 10 ==> before.push(digit(n as int)) == before + seq![digit(n as int)]);
        if n >= 10 {
            assert(old(out)@ + dec((n / 10) as nat).push(digit((n % 10) as int)) == (old(out)@
                + dec((n / 10) as nat)).push(digit((n % 10) as int)));
        }
    }
}

/// Decimal notation of `n`.
pub fn dec_text(n: u64) -> (r: String)
    ensures
        r@ == dec(n as nat),
{
    let mut r: String = String::new();
    push_dec(&mut r, n);
    assert(Seq::<char>::empty() + dec(n as nat) == dec(n as nat));
    r
}

/// Value of a run of decimal digits.
pub open spec fn digits_value(s: Seq<char>) -> nat
    decreases s.len(),
{
    if s.len() == 0 {
        0
    } else {
        digits_value(s.drop_last()) * 10 + ((s.last() as u32) - 48) as nat
    }
}

/// Whether `s` is one or more decimal digits.
pub open spec fn all_digits(s: Seq<char>) -> bool {
    s.len() > 0 && forall|i: int| 0 <= i < s.len() ==> is_digit(#[trigger] s[i])
}

/// Digits of an unsigned number: an optional `+` is dropped.
pub open spec fn unsigned_digits(s: Seq<char>) -> Seq<char> {
    if s.len() > 0 && s[0] == '+' {
        s.drop_first()
    } else {
        s
    }
}

/// Unsigned number written as an optional `+` and digits, at most `max`.
pub open spec fn parse_unsigned(s: Seq<char>, max: nat) -> Option<nat> {
    let d = unsigned_digits(s);
    if all_digits(d) && digits_value(d) <= max {
        Some(digits_value(d))
    } else {
        None
    }
}

proof fn lemma_digits_value_grows(s: Seq<char>, k: int)
    requires
        0 <= k <= s.len(),
        forall|i: int| 0 <= i < s.len() ==> is_digit(#[trigger] s[i]),
    ensures
        digits_value(s.take(k)) <= digits_value(s),
    decreases s.len() - k,
{
    if k < s.len() {
        assert(s.take(k + 1).drop_last() == s.take(k));
        assert(s.take(k + 1).last() == s[k]);
        assert(is_digit(s[k]));
        lemma_digits_value_grows(s, k + 1);
    } else {
        assert(s.take(k) == s);
    }
}

/// Executable form of [`parse_unsigned`] for numbers up to `max`.
pub fn chars_parse_unsigned(s: &[char], max: u32) -> (r: Option<u32>)
    ensures
        match r {
            Some(v) => parse_unsigned(s@, max as nat) == Some(v as nat),
            None => parse_unsigned(s@, max as nat) is None,
        },
{
    let start: usize = if s.len() > 0 && s[0] == '+' {
        1
    } else {
        0
    };
    let d = slice_subrange(s, start, s.len());
    proof {
        assert(d@ == unsigned_digits(s@)) by {
            if start == 1 {
                assert(s@.subrange(1, s@.len() as int) == s@.drop_first());
            } else {
                assert(s@.subrange(0, s@.len() as int) == s@);
            }
        }
    }
    if d.len() == 0 {
        return None;
    }
    let mut i: usize = 0;
    while i < d.len()
        invariant
            i <= d@.len(),
            forall|k: int| 0 <= k < i ==> is_digit(#[trigger] d@[k]),
            d@ == unsigned_digits(s@),
        decreases d@.len() - i,
    {
        if !('0' <= d[i] && d[i] <= '9') {
            assert(!is_digit(d@[i as int]));
            return None;
        }
        i = i + 1;
    }
    let mut v: u64 = 0;
    let mut j: usize = 0;
    while j < d.len()
        invariant
            j <= d@.len(),
            d@ == unsigned_digits(s@),
            all_digits(d@),
            v == digits_value(d@.take(j as int)),
            v <= max,
        decreases d@.len() - j,
    {
        assert(is_digit(d@[j as int]));
        let x: u64 = (d[j] as u32 - 48) as u64;
        proof {
            assert(d@.take(j + 1).drop_last() == d@.take(j as int));
            assert(d@.take(j + 1).last() == d@[j as int]);
            lemma_digits_value_grows(d@, j + 1);
        }
        v = v * 10 + x;
        if v > max as u64 {
            return None;
        }
        j = j + 1;
    }
    assert(d@.take(j as int) == d@);
    Some(v as u32)
}

/// Decimal notation is digits only, without surplus.
pub proof fn lemma_dec_digits(n: nat)
    ensures
        all_digits(dec(n)),
        digits_value(dec(n)) == n,
    decreases n,
{
    if n >= 10 {
        lemma_dec_digits(n / 10);
        let s = dec(n);
        assert(s.drop_last() == dec(n / 10));
        assert forall|i: int| 0 <= i < s.len() implies is_digit(#[trigger] s[i]) by {
            if i < s.len() - 1 {
                assert(s[i] == dec(n / 10)[i]);
            }
        }
    } else {
        let s = dec(n);
        assert(s.drop_last() == Seq::<char>::empty());
        assert(digits_value(s.drop_last()) == 0);
    }
}

/// Reading back a decimal notation gives the number.
pub proof fn lemma_dec_parses(n: nat, max: nat)
    requires
        n <= max,
    ensures
        parse_unsigned(dec(n), max) == Some(n),
{
    lemma_dec_digits(n);
    assert(is_digit(dec(n)[0]));
    assert(unsigned_digits(dec(n)) == dec(n));
}

/// The character of a hexadecimal digit, lower case.
pub open spec fn hex_digit(d: int) -> char {
    if d < 10 {
        (48 + d) as char
    } else {
        (87 + d) as char
    }
}

/// Hexadecimal notation of `n`, lower case.
pub open spec fn hex(n: nat) -> Seq<char>
    decreases n,
{
    if n < 16 {
        seq![hex_digit(n as int)]
    } else {
        hex(n / 16).push(hex_digit((n % 16) as int))
    }
}

/// Two hexadecimal digits of a byte.
pub open spec fn hex2(b: u8) -> Seq<char> {
    seq![hex_digit(b as int / 16), hex_digit(b as int % 16)]
}

fn hex_char(d: u8) -> (r: char)
    requires
        d < 16,
    ensures
        r == hex_digit(d as int),
{
    if d < 10 {
        (48 + d) as char
    } else {
        (87 + d) as char
    }
}

/// Appends the two hexadecimal digits of a byte.
pub fn push_hex2(out: &mut String, b: u8)
    ensures
        final(out)@ == old(out)@ + hex2(b),
{
    out.push(hex_char(b / 16));
    out.push(hex_char(b % 16));
}

/// Four hexadecimal digits of a 16-bit number.
pub open spec fn hex4(n: u16) -> Seq<char> {
    hex2((n / 256) as u8) + hex2((n % 256) as u8)
}

/// Appends the four hexadecimal digits of a 16-bit number.
pub fn push_hex4(out: &mut String, n: u16)
    ensures
        final(out)@ == old(out)@ + hex4(n),
{
    push_hex2(out, (n / 256) as u8);
    push_hex2(out, (n % 256) as u8);
    assert(out@ =~= old(out)@ + hex4(n));
}

/// Decimal notation of a signed number.
pub open spec fn signed_dec(n: int) -> Seq<char> {
    if n < 0 {
        seq!['-'] + dec((-n) as nat)
    } else {
        dec(n as nat)
    }
}

/// Appends the decimal notation of a signed number.
pub fn push_signed(out: &mut String, n: i32)
    ensures
        final(out)@ == old(out)@ + signed_dec(n as int),
{
    if n < 0 {
        out.push('-');
        push_dec(out, (-(n as i64)) as u64);
        assert(out@ =~= old(out)@ + signed_dec(n as int));
    } else {
        push_dec(out, n as u64);
    }
}

/// Appends the hexadecimal notation of `n`.
pub fn push_hex(out: &mut String, n: u128)
    ensures
        final(out)@ == old(out)@ + hex(n as nat),
    decreases n,
{
    if n >= 16 {
        push_hex(out, n / 16);
    }
    let ghost before = out@;
    let d: u8 = (n % 16) as u8;
    out.push(hex_char(d));
    proof {
        assert(n < 16 ==> before.push(hex_digit(n as int)) == before + seq![hex_digit(n as int)]);
        if n >= 16 {
            assert(old(out)@ + hex((n / 16) as nat).push(hex_digit((n % 16) as int)) == (old(out)@
                + hex((n / 16) as nat)).push(hex_digit((n % 16) as int)));
        }
    }
}

// ---------------------------------------------------------------------------
// Sorting
// ---------------------------------------------------------------------------

/// The texts of a list of strings.
pub open spec fn views(v: Seq<String>) -> Seq<Seq<char>> {
    Seq::new(v.len(), |i: int| v[i]@)
}

/// Whether texts ascend; equal neighbours are allowed.
pub open spec fn sorted(q: Seq<Seq<char>>) -> bool {
    forall|i: int, j: int| 0 <= i < j < q.len() ==> !text_lt(#[trigger] q[j], #[trigger] q[i])
}

/// Strings in ascending order.
pub fn sort_strings(v: &[String]) -> (r: Vec<String>)
    ensures
        sorted(views(r@)),
        views(r@).to_multiset() == views(v@).to_multiset(),
{
    let mut r: Vec<String> = Vec::new();
    let mut i: usize = 0;
    assert(views(r@) =~= views(v@).take(0));
    while i < v.len()
        invariant
            i <= v@.len(),
            sorted(views(r@)),
            views(r@).to_multiset() == views(v@).take(i as int).to_multiset(),
        decreases v@.len() - i,
    {
        let x = v[i].clone();
        let ghost q = views(r@);
        let mut at: usize = r.len();
        while at > 0 && str_lt(x.as_str(), r[at - 1].as_str())
            invariant
                at <= r@.len(),
                q == views(r@),
                sorted(q),
                forall|k: int| at <= k < q.len() ==> text_lt(x@, #[trigger] q[k]),
            decreases at,
        {
            at = at - 1;
        }
        let ghost x0 = x@;
        r.insert(at, x);
        proof {
            let q2 = views(r@);
            assert(q2 == q.insert(at as int, x0));
            assert forall|a: int, b: int| 0 <= a < b < q2.len() implies !text_lt(
                #[trigger] q2[b],
                #[trigger] q2[a],
            ) by {
                if a == at {
                    assert(text_lt(x0, q[b - 1]));
                    if text_lt(q[b - 1], x0) {
                        lemma_text_lt_transitive(x0, q[b - 1], x0);
                        lemma_text_lt_irreflexive(x0);
                    }
                } else if b == at {
                    // The element before the gap is not above `x`.
                    if text_lt(x0, q[a]) {
                        assert(!text_lt(x0, q[at - 1]));
                        if a < at - 1 {
                            assert(!text_lt(q[at - 1], q[a]));
                            lemma_text_lt_total(q[at - 1], q[a]);
                            lemma_text_lt_total(x0, q[at - 1]);
                            if q[at - 1] != q[a] {
                                lemma_text_lt_transitive(x0, q[a], q[at - 1]);
                            }
                        }
                    }
                } else {
                    let a0 = if a < at {
                        a
                    } else {
                        a - 1
                    };
                    let b0 = if b < at {
                        b
                    } else {
                        b - 1
                    };
                    assert(q2[a] == q[a0] && q2[b] == q[b0]);
                }
            }
            q.insert_ensures(at as int, x0);
            vstd::seq_lib::to_multiset_insert(q, at as int, x0);
            let vv = views(v@);
            assert(vv.take(i + 1) == vv.take(i as int).push(x0));
            vv.take(i as int).to_multiset_ensures();
        }
        i = i + 1;
    }
    assert(views(v@).take(i as int) == views(v@));
    r
}

/// Whether the `a`-th text comes before the `b`-th: it is smaller, or equal and further ahead.
pub open spec fn comes_before(keys: Seq<Seq<char>>, a: int, b: int) -> bool {
    text_lt(keys[a], keys[b]) || (keys[a] == keys[b] && a < b)
}

/// Whether `order` lists each of the first `n` places once, smaller texts first, equal ones in
/// the order they had.
pub open spec fn stable_order(order: Seq<int>, keys: Seq<Seq<char>>, n: int) -> bool {
    &&& forall|i: int, j: int|
        0 <= i < j < order.len() ==> comes_before(keys, #[trigger] order[i], #[trigger] order[j])
    &&& forall|i: int| 0 <= i < order.len() ==> 0 <= (#[trigger] order[i]) < n
    &&& forall|k: int| 0 <= k < n ==> #[trigger] order.contains(k)
}

/// Places as plain integers.
pub open spec fn places(v: Seq<usize>) -> Seq<int> {
    Seq::new(v.len(), |i: int| v[i] as int)
}

/// Places of texts in ascending order; equal texts keep their order.
pub fn sorted_places(keys: &[String]) -> (r: Vec<usize>)
    ensures
        stable_order(places(r@), views(keys@), keys@.len() as int),
{
    let ghost ks = views(keys@);
    let mut order: Vec<usize> = Vec::new();
    let mut i: usize = 0;
    while i < keys.len()
        invariant
            i <= keys@.len(),
            ks == views(keys@),
            stable_order(places(order@), ks, i as int),
        decreases keys@.len() - i,
    {
        let ghost o = places(order@);
        let mut at: usize = order.len();
        while at > 0
            invariant
                at <= order@.len(),
                i < keys@.len(),
                ks == views(keys@),
                o == places(order@),
                stable_order(o, ks, i as int),
                forall|k: int| at <= k < o.len() ==> text_lt(ks[i as int], ks[#[trigger] o[k]]),
            ensures
                at <= order@.len(),
                o == places(order@),
                forall|k: int| at <= k < o.len() ==> text_lt(ks[i as int], ks[#[trigger] o[k]]),
                at > 0 ==> !text_lt(ks[i as int], ks[o[at - 1]]),
            decreases at,
        {
            let ahead: usize = order[at - 1];
            assert(o[at - 1] == ahead);
            if !str_lt(keys[i].as_str(), keys[ahead].as_str()) {
                break;
            }
            at = at - 1;
        }
        order.insert(at, i);
        proof {
            lemma_place(o, ks, i as int, at as int);
            assert(places(order@) =~= o.insert(at as int, i as int));
        }
        i = i + 1;
    }
    order
}

proof fn lemma_place(o: Seq<int>, ks: Seq<Seq<char>>, i: int, at: int)
    requires
        0 <= i < ks.len(),
        0 <= at <= o.len(),
        stable_order(o, ks, i),
        forall|k: int| at <= k < o.len() ==> text_lt(ks[i], ks[#[trigger] o[k]]),
        at > 0 ==> !text_lt(ks[i], ks[o[at - 1]]),
    ensures
        stable_order(o.insert(at, i), ks, i + 1),
{
    let n = o.insert(at, i);
    assert forall|q: int| 0 <= q < at implies comes_before(ks, #[trigger] o[q], i) by {
        let last = ks[o[at - 1]];
        lemma_text_lt_total(ks[i], last);
        if q < at - 1 {
            assert(comes_before(ks, o[q], o[at - 1]));
            if text_lt(ks[o[q]], last) && text_lt(last, ks[i]) {
                lemma_text_lt_transitive(ks[o[q]], last, ks[i]);
            }
        }
    }
    assert forall|a: int, b: int| 0 <= a < b < n.len() implies comes_before(
        ks,
        #[trigger] n[a],
        #[trigger] n[b],
    ) by {
        if b < at {
            assert(n[a] == o[a] && n[b] == o[b]);
        } else if a < at && b == at {
            assert(n[a] == o[a]);
        } else if a < at {
            assert(n[a] == o[a] && n[b] == o[b - 1]);
        } else if a == at {
            assert(n[b] == o[b - 1]);
        } else {
            assert(n[a] == o[a - 1] && n[b] == o[b - 1]);
        }
    }
    assert forall|a: int| 0 <= a < n.len() implies 0 <= (#[trigger] n[a]) < i + 1 by {
        if a < at {
            assert(n[a] == o[a]);
        } else if a > at {
            assert(n[a] == o[a - 1]);
        }
    }
    assert forall|k: int| 0 <= k < i + 1 implies #[trigger] n.contains(k) by {
        if k == i {
            assert(n[at] == k);
        } else {
            assert(o.contains(k));
            let q = o.index_of(k);
            if q < at {
                assert(n[q] == k);
            } else {
                assert(n[q + 1] == k);
            }
        }
    }
}

// ---------------------------------------------------------------------------
// Lines
// ---------------------------------------------------------------------------

/// Text without one trailing carriage return.
pub open spec fn chop_cr(s: Seq<char>) -> Seq<char> {
    if s.len() > 0 && s.last() == '\r' {
        s.drop_last()
    } else {
        s
    }
}

/// Lines of `s`: split at line feeds, a carriage return before a line feed
/// dropped, no empty line after a final line feed.
pub open spec fn lines(s: Seq<char>) -> Seq<Seq<char>>
    decreases s.len(),
{
    if s.len() == 0 {
        seq![]
    } else {
        let n = find(s, '\n');
        if 0 <= n < s.len() {
            seq![chop_cr(s.take(n))] + lines(s.skip(n + 1))
        } else {
            seq![s]
        }
    }
}

/// A line feed ends the first line.
pub proof fn lemma_lines_cons(a: Seq<char>, rest: Seq<char>)
    requires
        forall|i: int| 0 <= i < a.len() ==> a[i] != '\n',
    ensures
        lines(a + seq!['\n'] + rest) == seq![chop_cr(a)] + lines(rest),
{
    let s = a + seq!['\n'] + rest;
    lemma_find_is(s, '\n', a.len() as int);
    assert(s.take(a.len() as int) == a);
    assert(s.skip((a.len() + 1) as int) == rest);
}

/// Executable form of [`lines`].
pub fn split_lines(s: &str) -> (r: Vec<Vec<char>>)
    ensures
        r@.len() == lines(s@).len(),
        forall|i: int| 0 <= i < r@.len() ==> (#[trigger] r@[i])@ == lines(s@)[i],
{
    let cs = chars_of(s);
    let mut r: Vec<Vec<char>> = Vec::new();
    let mut at: usize = 0;
    assert(s@.skip(0) == s@);
    while at < cs.len()
        invariant
            at <= cs@.len(),
            cs@ == s@,
            lines(s@).len() == r@.len() + lines(s@.skip(at as int)).len(),
            forall|i: int| 0 <= i < r@.len() ==> (#[trigger] r@[i])@ == lines(s@)[i],
            forall|i: int|
                0 <= i < lines(s@.skip(at as int)).len() ==> lines(s@)[r@.len() + i]
                    == #[trigger] lines(s@.skip(at as int))[i],
        decreases cs@.len() - at,
    {
        let ghost rest = s@.skip(at as int);
        let tail = slice_subrange(cs.as_slice(), at, cs.len());
        assert(tail@ == rest);
        let n: usize = chars_find(tail, '\n');
        let ghost before = r@;
        if n < tail.len() {
            let mut line = slice_to_vec_range(tail, 0, n);
            assert(line@ == rest.take(n as int));
            if line.len() > 0 && line[line.len() - 1] == '\r' {
                line.pop();
            }
            r.push(line);
            proof {
                assert(rest.skip(n + 1) == s@.skip(at + n + 1));
                assert(lines(rest)[0] == chop_cr(rest.take(n as int)));
                assert forall|i: int|
                    0 <= i < lines(s@.skip(at + n + 1)).len() implies lines(s@)[r@.len() + i]
                    == #[trigger] lines(s@.skip(at + n + 1))[i] by {
                    assert(lines(rest)[i + 1] == lines(s@.skip(at + n + 1))[i]);
                }
            }
            at = at + n + 1;
        } else {
            let line = copy_chars(tail);
            r.push(line);
            assert(lines(rest)[0] == rest);
            assert(lines(rest).len() == 1);
            at = cs.len();
            assert(s@.skip(at as int).len() == 0);
        }
        assert forall|i: int| 0 <= i < r@.len() implies (#[trigger] r@[i])@ == lines(s@)[i] by {
            if i < before.len() {
                assert(r@[i] == before[i]);
            } else {
                assert(lines(s@)[before.len() as int] == lines(rest)[0]);
            }
        }
    }
    assert(lines(s@.skip(at as int)).len() == 0);
    r
}

/// Copy of `s[from..to]`.
pub fn slice_to_vec_range(s: &[char], from: usize, to: usize) -> (r: Vec<char>)
    requires
        from <= to <= s@.len(),
    ensures
        r@ == s@.subrange(from as int, to as int),
{
    vstd::slice::slice_to_vec(slice_subrange(s, from, to))
}

} // verus!
