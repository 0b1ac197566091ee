//! Laws on texts: numbers read back, trimming takes blanks off, lines come apart where they end.
use super::{
    all_digits, ascii_lower, begins, chop_cr, dec, digits_value, find, hex2, hex4, is_space, lines,
    lower, occurs, parse_unsigned, same_ignoring_case, signed_dec, text_lt, trim, trim_end,
    trim_start, units, utf16,
};
use vstd::prelude::*;

verus! {

// ---------------------------------------------------------------------------
// Numbers
// ---------------------------------------------------------------------------

/// Where a character stands among the hexadecimal digits.
pub open spec fn digit_place(c: char) -> int {
    if c == '0' {
        0
    } else if c == '1' {
        1
    } else if c == '2' {
        2
    } else if c == '3' {
        3
    } else if c == '4' {
        4
    } else if c == '5' {
        5
    } else if c == '6' {
        6
    } else if c == '7' {
        7
    } else if c == '8' {
        8
    } else if c == '9' {
        9
    } else if c == 'a' {
        10
    } else if c == 'b' {
        11
    } else if c == 'c' {
        12
    } else if c == 'd' {
        13
    } else if c == 'e' {
        14
    } else if c == 'f' {
        15
    } else {
        -1
    }
}

/// The number that digits of a base spell, highest first.
pub open spec fn spelled(s: Seq<char>, base: int) -> int
    decreases s.len(),
{
    if s.len() == 0 {
        0
    } else {
        base * spelled(s.drop_last(), base) + digit_place(s.last())
    }
}

/// A number is written in decimal digits that spell it, without a leading zero.
pub proof fn law_decimal_spells_the_number(n: nat)
    ensures
        spelled(dec(n), 10) == n,
        forall|i: int| 0 <= i < dec(n).len() ==> 0 <= digit_place(#[trigger] dec(n)[i]) < 10,
        dec(n).len() >= 1,
        n > 0 ==> dec(n)[0] != '0',
    decreases n,
{
    if n < 10 {
        assert(dec(n).drop_last() == Seq::<char>::empty());
        assert(spelled(dec(n).drop_last(), 10) == 0);
    } else {
        law_decimal_spells_the_number(n / 10);
        assert(dec(n).drop_last() == dec(n / 10));
        assert forall|i: int| 0 <= i < dec(n).len() implies 0 <= digit_place(#[trigger] dec(n)[i])
            < 10 by {
            if i < dec(n / 10).len() {
                assert(dec(n)[i] == dec(n / 10)[i]);
            }
        }
    }
}

/// A negative number is written as its opposite behind a minus sign.
pub proof fn law_sign_goes_first(n: int)
    ensures
        n >= 0 ==> signed_dec(n) == dec(n as nat),
        n < 0 ==> signed_dec(n).len() > 0 && signed_dec(n)[0] == '-' && signed_dec(n).drop_first()
            == dec((-n) as nat),
{
    assert(n < 0 ==> signed_dec(n).drop_first() == dec((-n) as nat));
}

/// A byte is written in two hexadecimal digits that spell it, a 16-bit number in four.
pub proof fn law_hexadecimal_spells_the_number(b: u8, n: u16)
    ensures
        hex2(b).len() == 2,
        spelled(hex2(b), 16) == b,
        hex4(n).len() == 4,
        spelled(hex4(n), 16) == n,
{
    lemma_spelled_two(b);
    let hi = (n / 256) as u8;
    let lo = (n % 256) as u8;
    lemma_spelled_two(hi);
    lemma_spelled_two(lo);
    let s = hex4(n);
    assert(s.drop_last().drop_last() == hex2(hi));
    assert(s.drop_last().last() == hex2(lo)[0]);
    assert(s.last() == hex2(lo)[1]);
    assert(spelled(s.drop_last(), 16) == 16 * spelled(hex2(hi), 16) + digit_place(hex2(lo)[0]));
}

proof fn lemma_spelled_two(b: u8)
    ensures
        spelled(hex2(b), 16) == b,
        16 * digit_place(hex2(b)[0]) + digit_place(hex2(b)[1]) == b,
{
    let s = hex2(b);
    assert(s.drop_last().drop_last() == Seq::<char>::empty());
    assert(spelled(s.drop_last().drop_last(), 16) == 0);
    assert(s.drop_last().last() == s[0]);
    assert(spelled(s.drop_last(), 16) == digit_place(s[0]));
}

/// A text of decimal digits reads as the number that they spell, where it is not above the
/// limit; a plus sign in front changes nothing, and any other text reads as nothing.
pub proof fn law_digits_are_read(s: Seq<char>, max: nat)
    ensures
        ({
            let plain = s.len() > 0 && forall|i: int|
                0 <= i < s.len() ==> 0 <= digit_place(#[trigger] s[i]) < 10;
            &&& plain && spelled(s, 10) <= max ==> parse_unsigned(s, max) == Some(
                spelled(s, 10) as nat,
            )
            &&& plain && spelled(s, 10) > max ==> parse_unsigned(s, max) is None
            &&& plain ==> parse_unsigned(seq!['+'] + s, max) == parse_unsigned(s, max)
            &&& !plain && !(s.len() > 0 && s[0] == '+') ==> parse_unsigned(s, max) is None
        }),
{
    let plain = s.len() > 0 && forall|i: int|
        0 <= i < s.len() ==> 0 <= digit_place(#[trigger] s[i]) < 10;
    if plain {
        assert(0 <= digit_place(s[0]) < 10);
        assert forall|i: int| 0 <= i < s.len() implies super::is_digit(#[trigger] s[i]) by {
            assert(0 <= digit_place(s[i]) < 10);
        }
        lemma_value_spelled(s);
        assert((seq!['+'] + s).drop_first() == s);
    } else if s.len() > 0 {
        if all_digits(s) {
            assert forall|i: int| 0 <= i < s.len() implies 0 <= digit_place(#[trigger] s[i])
                < 10 by {
                assert(super::is_digit(s[i]));
            }
        }
    }
}

proof fn lemma_value_spelled(s: Seq<char>)
    requires
        forall|i: int| 0 <= i < s.len() ==> 0 <= digit_place(#[trigger] s[i]) < 10,
    ensures
        digits_value(s) == spelled(s, 10),
    decreases s.len(),
{
    if s.len() > 0 {
        let init = s.drop_last();
        assert forall|i: int| 0 <= i < init.len() implies 0 <= digit_place(#[trigger] init[i])
            < 10 by {
            assert(init[i] == s[i]);
        }
        lemma_value_spelled(init);
        assert(0 <= digit_place(s[s.len() - 1]) < 10);
    }
}

// ---------------------------------------------------------------------------
// Blanks, case, order
// ---------------------------------------------------------------------------

/// Whether a text is nothing but blanks.
pub open spec fn blank(s: Seq<char>) -> bool {
    forall|i: int| 0 <= i < s.len() ==> is_space(#[trigger] s[i])
}

/// Spaces, tabs and line ends are blanks; the characters that ASCII prints are not.
pub proof fn law_blanks_are_blank(c: char)
    ensures
        c == ' ' || c == '\t' || c == '\n' || c == '\r' ==> is_space(c),
        '!' <= c <= '~' ==> !is_space(c),
{
}

/// Trimming takes the blanks off both ends and nothing else.
pub proof fn law_trim_takes_blanks_off(s: Seq<char>)
    ensures
        exists|a: Seq<char>, b: Seq<char>|
            #![trigger a + trim(s) + b]
            s == a + trim(s) + b && blank(a) && blank(b),
        trim(s).len() > 0 ==> !is_space(trim(s)[0]) && !is_space(trim(s).last()),
{
    let a = lemma_trim_start(s);
    let t = trim_start(s);
    let b = lemma_trim_end(t);
    assert(s == a + trim(s) + b);
}

proof fn lemma_trim_start(s: Seq<char>) -> (a: Seq<char>)
    ensures
        s == a + trim_start(s),
        blank(a),
        trim_start(s).len() > 0 ==> !is_space(trim_start(s)[0]),
    decreases s.len(),
{
    if s.len() > 0 && is_space(s[0]) {
        let r = lemma_trim_start(s.drop_first());
        let a = seq![s[0]] + r;
        assert(s == seq![s[0]] + s.drop_first());
        assert(seq![s[0]] + (r + trim_start(s)) == a + trim_start(s));
        assert forall|i: int| 0 <= i < a.len() implies is_space(#[trigger] a[i]) by {
            if i > 0 {
                assert(a[i] == r[i - 1]);
            }
        }
        a
    } else {
        assert(s == Seq::<char>::empty() + s);
        Seq::empty()
    }
}

proof fn lemma_trim_end(s: Seq<char>) -> (b: Seq<char>)
    ensures
        s == trim_end(s) + b,
        blank(b),
        trim_end(s).len() > 0 ==> !is_space(trim_end(s).last()) && trim_end(s)[0] == s[0],
    decreases s.len(),
{
    if s.len() > 0 && is_space(s.last()) {
        let r = lemma_trim_end(s.drop_last());
        let b = r.push(s.last());
        assert(s == s.drop_last().push(s.last()));
        assert((trim_end(s) + r).push(s.last()) == trim_end(s) + b);
        assert forall|i: int| 0 <= i < b.len() implies is_space(#[trigger] b[i]) by {
            if i < r.len() {
                assert(b[i] == r[i]);
            }
        }
        b
    } else {
        assert(s == s + Seq::<char>::empty());
        Seq::empty()
    }
}

/// ASCII capitals become the letter 32 places on; every other character stays. Two texts that
/// differ in the case of ASCII letters only are the same text where case is ignored.
pub proof fn law_case_is_thirty_two_places(c: char, a: Seq<char>, b: Seq<char>)
    ensures
        lower(c) as u32 == c as u32 + if 'A' <= c <= 'Z' {
            32int
        } else {
            0int
        },
        same_ignoring_case(a, b) <==> a.len() == b.len() && forall|i: int|
            0 <= i < a.len() ==> lower(#[trigger] a[i]) == lower(b[i]),
{
    if a.len() == b.len() && forall|i: int|
        0 <= i < a.len() ==> lower(#[trigger] a[i]) == lower(b[i]) {
        assert(ascii_lower(a) =~= ascii_lower(b));
    }
    if same_ignoring_case(a, b) {
        assert(ascii_lower(a).len() == ascii_lower(b).len());
        assert forall|i: int| 0 <= i < a.len() implies lower(#[trigger] a[i]) == lower(b[i]) by {
            assert(ascii_lower(a)[i] == ascii_lower(b)[i]);
        }
    }
}

/// Texts are ordered by the first character in which they differ, and a text comes before its
/// own continuations.
pub proof fn law_first_difference_orders(p: Seq<char>, x: Seq<char>, y: Seq<char>)
    requires
        x.len() > 0 && y.len() > 0 ==> x[0] != y[0],
    ensures
        text_lt(p + x, p + y) <==> y.len() > 0 && (x.len() == 0 || x[0] < y[0]),
    decreases p.len(),
{
    if p.len() == 0 {
        assert(p + x == x);
        assert(p + y == y);
    } else {
        let q = p.drop_first();
        law_first_difference_orders(q, x, y);
        assert((p + x).drop_first() == q + x);
        assert((p + y).drop_first() == q + y);
    }
}

// ---------------------------------------------------------------------------
// Parts
// ---------------------------------------------------------------------------

/// A text begins with another where the other and a rest make it up; it occurs where something
/// stands before it too.
pub proof fn law_parts_are_found(s: Seq<char>, p: Seq<char>)
    ensures
        begins(s, p) <==> exists|rest: Seq<char>| s == #[trigger] (p + rest),
        occurs(s, p) <==> exists|a: Seq<char>, b: Seq<char>| s == #[trigger] (a + p + b),
{
    if begins(s, p) {
        assert(s == p + s.skip(p.len() as int));
    }
    if exists|rest: Seq<char>| s == #[trigger] (p + rest) {
        let rest = choose|rest: Seq<char>| s == #[trigger] (p + rest);
        assert(s.take(p.len() as int) == p);
    }
    if occurs(s, p) {
        let i = choose|i: int| 0 <= i <= s.len() && #[trigger] begins(s.skip(i), p);
        assert(s == s.take(i) + p + s.skip(i + p.len()));
    }
    if exists|a: Seq<char>, b: Seq<char>| s == #[trigger] (a + p + b) {
        let (a, b) = choose|a: Seq<char>, b: Seq<char>| s == #[trigger] (a + p + b);
        assert(s.skip(a.len() as int).take(p.len() as int) == p);
        assert(begins(s.skip(a.len() as int), p));
    }
}

/// The first place of a character: it stands there, and nowhere before.
pub proof fn law_first_place_is_found(s: Seq<char>, c: char)
    ensures
        0 <= find(s, c) <= s.len(),
        find(s, c) < s.len() ==> s[find(s, c)] == c,
        forall|i: int| 0 <= i < find(s, c) ==> #[trigger] s[i] != c,
{
    super::lemma_find(s, c);
}

/// A line ends at its line feed, and loses a carriage return before it; what follows are the
/// lines of the rest. A last line needs no line feed, and keeps its carriage return.
pub proof fn law_lines_come_apart(a: Seq<char>, rest: Seq<char>)
    requires
        !a.contains('\n'),
    ensures
        lines(a + seq!['\n'] + rest) == seq![chop_cr(a)] + lines(rest),
        a.len() > 0 ==> lines(a) == seq![a],
        lines(Seq::<char>::empty()).len() == 0,
        chop_cr(a.push('\r')) == a,
{
    let s = a + seq!['\n'] + rest;
    assert forall|i: int| 0 <= i < a.len() implies #[trigger] s[i] != '\n' by {
        assert(s[i] == a[i]);
    }
    assert(s[a.len() as int] == '\n');
    super::lemma_find_is(s, '\n', a.len() as int);
    assert(s.take(a.len() as int) == a);
    assert(s.skip(a.len() as int + 1) == rest);
    super::lemma_find_is(a, '\n', a.len() as int);
    assert(a.push('\r').drop_last() == a);
}

// ---------------------------------------------------------------------------
// UTF-16
// ---------------------------------------------------------------------------

/// The text that UTF-16 units spell: a high surrogate and the low one behind it are one
/// character, every other unit is one by itself.
pub open spec fn spelled_text(u: Seq<u16>) -> Seq<char>
    decreases u.len(),
{
    if u.len() == 0 {
        seq![]
    } else if u.len() >= 2 && 0xDC00 <= u.last() <= 0xDFFF {
        spelled_text(u.take(u.len() - 2)).push(
            (65536 + 1024 * (u[u.len() - 2] - 0xD800) + (u.last() - 0xDC00)) as char,
        )
    } else {
        spelled_text(u.drop_last()).push(u.last() as char)
    }
}

proof fn lemma_units(c: char)
    ensures
        units(c).len() == 1 || units(c).len() == 2,
        units(c).len() == 1 ==> units(c)[0] as char == c && !(0xDC00 <= units(c)[0] <= 0xDFFF),
        units(c).len() == 2 ==> 0xDC00 <= units(c)[1] <= 0xDFFF && (65536 + 1024 * (units(c)[0]
            - 0xD800) + (units(c)[1] - 0xDC00)) as char == c,
{
    let n = c as u32;
    if n >= 0x10000 {
        let q = (n - 0x10000) / 0x400;
        let r = (n - 0x10000) % 0x400;
        assert(0 <= q < 0x400 && 0 <= r < 0x400 && 0x400 * q + r == n - 0x10000);
    }
}

/// The units of a text spell it.
pub proof fn law_units_spell_the_text(s: Seq<char>)
    ensures
        spelled_text(utf16(s)) == s,
    decreases s.len(),
{
    if s.len() > 0 {
        law_units_spell_the_text(s.drop_last());
        let c = s.last();
        let head = utf16(s.drop_last());
        let u = utf16(s);
        lemma_units(c);
        assert(s == s.drop_last().push(c));
        if units(c).len() == 1 {
            assert(u.drop_last() == head);
        } else {
            assert(u.take(u.len() - 2) == head);
        }
    } else {
        assert(utf16(s).len() == 0);
    }
}

} // verus!
