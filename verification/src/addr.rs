//! IPv4 addresses as 32-bit numbers: building them from octets, rendering
//! them in dotted-decimal notation and reading dotted-decimal and decimal
//! text.
//!
//! An address `a.b.c.d` is the number `a * 2^24 + b * 2^16 + c * 2^8 + d`,
//! so the numeric order of addresses is their usual order.

use vstd::prelude::*;
use crate::text::{
    copy_range, decimal, digit_char, digit_value, is_digit, is_digit_char, lemma_pieces_prefix,
    pieces_from, push_decimal, split_on, split_on_chars, string_of,
};

verus! {

/// The address `a.b.c.d` as a number.
pub open spec fn quad(a: nat, b: nat, c: nat, d: nat) -> nat {
    a * 16777216 + b * 65536 + c * 256 + d
}

/// Octet `k` (0 is the leftmost) of an address.
pub open spec fn octet(a: u32, k: int) -> nat {
    if k == 0 {
        (a / 16777216) as nat
    } else if k == 1 {
        ((a / 65536) % 256) as nat
    } else if k == 2 {
        ((a / 256) % 256) as nat
    } else {
        (a % 256) as nat
    }
}

/// Dotted-decimal rendering of an address, as `Ipv4Addr`'s `Display` writes it.
pub open spec fn dotted(a: u32) -> Seq<char> {
    decimal(octet(a, 0)) + seq!['.'] + decimal(octet(a, 1)) + seq!['.'] + decimal(octet(a, 2))
        + seq!['.'] + decimal(octet(a, 3))
}

/// The address `a.b.c.d`.
pub fn ipv4(a: u8, b: u8, c: u8, d: u8) -> (r: u32)
    ensures
        r == quad(a as nat, b as nat, c as nat, d as nat),
        octet(r, 0) == a,
        octet(r, 1) == b,
        octet(r, 2) == c,
        octet(r, 3) == d,
{
    let r = (a as u32) * 16777216 + (b as u32) * 65536 + (c as u32) * 256 + (d as u32);
    assert(octet(r, 0) == a && octet(r, 1) == b && octet(r, 2) == c && octet(r, 3) == d)
        by (nonlinear_arith)
        requires
            r == a * 16777216 + b * 65536 + c * 256 + d,
            a < 256,
            b < 256,
            c < 256,
            d < 256,
    ;
    r
}

/// Appends the dotted-decimal rendering of `a`.
pub fn push_dotted(out: &mut Vec<char>, a: u32)
    ensures
        final(out)@ == old(out)@ + dotted(a),
{
    let ghost start = out@;
    push_decimal(out, a / 16777216);
    out.push('.');
    push_decimal(out, (a / 65536) % 256);
    out.push('.');
    push_decimal(out, (a / 256) % 256);
    out.push('.');
    push_decimal(out, a % 256);
    assert(out@ == start + dotted(a));
}

/// The dotted-decimal text of an address.
pub fn ipv4_text(a: u32) -> (s: String)
    ensures
        s@ == dotted(a),
{
    let mut v: Vec<char> = Vec::new();
    push_dotted(&mut v, a);
    string_of(v.as_slice())
}

// ---------------------------------------------------------------------
// Reading decimal numbers
// ---------------------------------------------------------------------

/// Every character is an ASCII decimal digit.
pub open spec fn all_digits(g: Seq<char>) -> bool {
    forall|i: int| 0 <= i < g.len() ==> is_digit(#[trigger] g[i])
}

/// The value of a string of decimal digits (0 for the empty string).
pub open spec fn digits_value(g: Seq<char>) -> nat
    decreases g.len(),
{
    if g.len() == 0 {
        0
    } else {
        digits_value(g.drop_last()) * 10 + digit_value(g.last())
    }
}

/// A digit string is worth at least as much as any of its prefixes.
pub proof fn lemma_digits_value_prefix(g: Seq<char>, i: int)
    requires
        0 <= i <= g.len(),
    ensures
        digits_value(g.take(i)) <= digits_value(g),
    decreases g.len(),
{
    if i < g.len() {
        assert(g.drop_last().take(i) == g.take(i));
        lemma_digits_value_prefix(g.drop_last(), i);
    } else {
        assert(g.take(i) == g);
    }
}

/// The value of `g` when it is all digits and worth at most `limit`.
pub fn decimal_value_at_most(g: &[char], limit: u32) -> (r: Option<u32>)
    requires
        limit <= 100_000_000,
    ensures
        r == (if all_digits(g@) && digits_value(g@) <= limit {
            Some(digits_value(g@) as u32)
        } else {
            None
        }),
{
    let mut i: usize = 0;
    while i < g.len()
        invariant
            i <= g.len(),
            forall|j: int| 0 <= j < i ==> is_digit(#[trigger] g@[j]),
        decreases g.len() - i,
    {
        if !is_digit_char(g[i]) {
            assert(!is_digit(g@[i as int]));
            return None;
        }
        i += 1;
    }
    let mut acc: u32 = 0;
    let mut k: usize = 0;
    while k < g.len()
        invariant
            all_digits(g@),
            k <= g.len(),
            limit <= 100_000_000,
            acc == digits_value(g@.take(k as int)),
            acc <= limit,
        decreases g.len() - k,
    {
        let d = (g[k] as u32) - 48;
        assert(g@.take(k as int + 1).drop_last() == g@.take(k as int));
        acc = acc * 10 + d;
        if acc > limit {
            proof {
                lemma_digits_value_prefix(g@, k as int + 1);
            }
            return None;
        }
        k += 1;
    }
    assert(g@.take(g.len() as int) == g@);
    Some(acc)
}

/// A text that `u8::from_str` accepts: an optional `+` followed by one or
/// more ASCII digits worth at most 255 (leading zeros allowed).
pub open spec fn u8_value(s: Seq<char>) -> Option<u8> {
    let d = if s.len() > 0 && s[0] == '+' {
        s.skip(1)
    } else {
        s
    };
    if d.len() > 0 && all_digits(d) && digits_value(d) <= 255 {
        Some(digits_value(d) as u8)
    } else {
        None
    }
}

/// Reads a byte value written in decimal, as `u8::from_str` does.
pub fn parse_u8_text(s: &[char]) -> (r: Option<u8>)
    ensures
        r == u8_value(s@),
{
    let start: usize = if s.len() > 0 && s[0] == '+' {
        1
    } else {
        0
    };
    let d = copy_range(s, start, s.len());
    assert(start == 0 ==> s@.subrange(0, s@.len() as int) == s@);
    assert(start == 1 ==> s@.subrange(1, s@.len() as int) == s@.skip(1));
    if d.len() == 0 {
        return None;
    }
    match decimal_value_at_most(d.as_slice(), 255) {
        Some(v) => Some(v as u8),
        None => None,
    }
}

// ---------------------------------------------------------------------
// Reading dotted-decimal addresses
// ---------------------------------------------------------------------

/// One octet field of a dotted-decimal address as `Ipv4Addr::from_str`
/// reads it: one to three ASCII digits, no leading zero unless the field is
/// a single digit, worth at most 255.
pub open spec fn octet_field_ok(g: Seq<char>) -> bool {
    &&& 1 <= g.len() <= 3
    &&& all_digits(g)
    &&& (g.len() == 1 || g[0] != '0')
    &&& digits_value(g) <= 255
}

/// The address written in dotted-decimal notation by `s`: exactly four
/// octet fields separated by `.`, nothing else.
pub open spec fn dotted_value(s: Seq<char>) -> Option<u32> {
    let f = split_on(s, seq!['.']);
    if f.len() == 4 && octet_field_ok(f[0]) && octet_field_ok(f[1]) && octet_field_ok(f[2])
        && octet_field_ok(f[3]) {
        Some(
            quad(
                digits_value(f[0]),
                digits_value(f[1]),
                digits_value(f[2]),
                digits_value(f[3]),
            ) as u32,
        )
    } else {
        None
    }
}

/// The value of one octet field, if it is well formed.
fn octet_field(g: &[char]) -> (r: Option<u8>)
    ensures
        match r {
            Some(v) => octet_field_ok(g@) && v == digits_value(g@),
            None => !octet_field_ok(g@),
        },
{
    if g.len() < 1 || g.len() > 3 {
        return None;
    }
    if g.len() > 1 && g[0] == '0' {
        return None;
    }
    match decimal_value_at_most(g, 255) {
        Some(v) => Some(v as u8),
        None => None,
    }
}

/// Reads an address in dotted-decimal notation.
pub fn parse_dotted(s: &[char]) -> (r: Option<u32>)
    ensures
        r == dotted_value(s@),
{
    let mut dot: Vec<char> = Vec::new();
    dot.push('.');
    assert(dot@ == seq!['.']);
    let f = split_on_chars(s, dot.as_slice());
    let ghost fv = f.deep_view();
    if f.len() != 4 {
        return None;
    }
    assert(f@[0]@ == fv[0] && f@[1]@ == fv[1] && f@[2]@ == fv[2] && f@[3]@ == fv[3]);
    let a = match octet_field(f[0].as_slice()) {
        Some(v) => v,
        None => return None,
    };
    let b = match octet_field(f[1].as_slice()) {
        Some(v) => v,
        None => return None,
    };
    let c = match octet_field(f[2].as_slice()) {
        Some(v) => v,
        None => return None,
    };
    let d = match octet_field(f[3].as_slice()) {
        Some(v) => v,
        None => return None,
    };
    Some(ipv4(a, b, c, d))
}

// ---------------------------------------------------------------------
// Rendering and reading back
// ---------------------------------------------------------------------

proof fn lemma_digit_char(d: nat)
    requires
        d < 10,
    ensures
        is_digit(digit_char(d)),
        digit_value(digit_char(d)) == d,
        d > 0 ==> digit_char(d) != '0',
{
    assert(digit_char(d) as u32 == d + 48);
}

/// The decimal rendering of `n` is a string of digits worth `n`, with no
/// leading zero, of one digit below 10, at most two below 100 and at most
/// three below 1000.
pub proof fn lemma_decimal(n: nat)
    ensures
        decimal(n).len() >= 1,
        all_digits(decimal(n)),
        digits_value(decimal(n)) == n,
        n > 0 ==> decimal(n)[0] != '0',
        n < 10 ==> decimal(n).len() == 1,
        n < 100 ==> decimal(n).len() <= 2,
        n < 1000 ==> decimal(n).len() <= 3,
    decreases n,
{
    let s = decimal(n);
    lemma_digit_char(n % 10);
    if n < 10 {
        assert(s.drop_last() == Seq::<char>::empty());
        assert(s.last() == digit_char(n % 10));
        assert(digits_value(s) == digits_value(Seq::<char>::empty()) * 10 + digit_value(s.last()));
    } else {
        let t = decimal(n / 10);
        lemma_decimal(n / 10);
        assert(s.drop_last() == t);
        assert(s[0] == t[0]);
        assert forall|i: int| 0 <= i < s.len() implies is_digit(#[trigger] s[i]) by {
            if i < t.len() {
                assert(s[i] == t[i]);
            }
        }
        assert(s.last() == digit_char(n % 10));
        assert(digits_value(s) == digits_value(t) * 10 + digit_value(s.last()));
        assert(digits_value(s) == (n / 10) * 10 + n % 10);
    }
}

/// A piece of digits followed by a separator.
proof fn lemma_pieces_field(d: Seq<char>, sep: char, rest: Seq<char>, seps: Seq<char>)
    requires
        all_digits(d),
        seps.contains(sep),
        forall|c: char| seps.contains(c) ==> !is_digit(c),
    ensures
        pieces_from(d + (seq![sep] + rest), seps, Seq::empty()) == seq![d] + pieces_from(
            rest,
            seps,
            Seq::empty(),
        ),
{
    assert forall|i: int| 0 <= i < d.len() implies !seps.contains(#[trigger] d[i]) by {
        assert(is_digit(d[i]));
    }
    lemma_pieces_prefix(d, seq![sep] + rest, seps, Seq::empty());
    let s = seq![sep] + rest;
    assert(s[0] == sep);
    assert(s.skip(1) == rest);
    assert(Seq::<char>::empty() + d == d);
}

/// The four octets of an address make up the address.
proof fn lemma_octets(a: u32)
    ensures
        quad(octet(a, 0), octet(a, 1), octet(a, 2), octet(a, 3)) == a,
        octet(a, 0) < 256 && octet(a, 1) < 256 && octet(a, 2) < 256 && octet(a, 3) < 256,
{
    let x = a as int;
    assert(x == (x / 16777216) * 16777216 + ((x / 65536) % 256) * 65536 + ((x / 256) % 256) * 256
        + x % 256 && x / 16777216 < 256) by (nonlinear_arith)
        requires
            0 <= x < 0x1_0000_0000,
    ;
}

/// Every character of a dotted-decimal rendering is a digit or a dot, and it
/// begins and ends with a digit.
pub proof fn lemma_dotted_chars(a: u32)
    ensures
        dotted(a).len() > 0,
        forall|i: int| 0 <= i < dotted(a).len() ==> is_digit(#[trigger] dotted(a)[i]) || dotted(a)[i]
            == '.',
        is_digit(dotted(a)[0]),
        is_digit(dotted(a).last()),
{
    let d0 = decimal(octet(a, 0));
    let d1 = decimal(octet(a, 1));
    let d2 = decimal(octet(a, 2));
    let d3 = decimal(octet(a, 3));
    lemma_decimal(octet(a, 0));
    lemma_decimal(octet(a, 1));
    lemma_decimal(octet(a, 2));
    lemma_decimal(octet(a, 3));
    let s = dotted(a);
    let dot = seq!['.'];
    assert forall|i: int| 0 <= i < s.len() implies is_digit(#[trigger] s[i]) || s[i] == '.' by {
        let n0 = d0.len() as int;
        let n1 = n0 + 1 + d1.len();
        let n2 = n1 + 1 + d2.len();
        if i < n0 {
            assert(s[i] == d0[i]);
        } else if i == n0 {
            assert(s[i] == '.');
        } else if i < n1 {
            assert(s[i] == d1[i - n0 - 1]);
        } else if i == n1 {
            assert(s[i] == '.');
        } else if i < n2 {
            assert(s[i] == d2[i - n1 - 1]);
        } else if i == n2 {
            assert(s[i] == '.');
        } else {
            assert(s[i] == d3[i - n2 - 1]);
        }
    }
    assert(s[0] == d0[0]);
    assert(s.last() == d3.last());
}

/// Reading the dotted-decimal rendering of an address gives the address
/// back.
pub proof fn lemma_dotted_round_trip(a: u32)
    ensures
        dotted_value(dotted(a)) == Some(a),
{
    let d0 = decimal(octet(a, 0));
    let d1 = decimal(octet(a, 1));
    let d2 = decimal(octet(a, 2));
    let d3 = decimal(octet(a, 3));
    lemma_octets(a);
    lemma_decimal(octet(a, 0));
    lemma_decimal(octet(a, 1));
    lemma_decimal(octet(a, 2));
    lemma_decimal(octet(a, 3));
    let dot = seq!['.'];
    let e = Seq::<char>::empty();
    assert(dot[0] == '.');
    assert(dot.contains('.'));
    assert(dotted(a) == d0 + (dot + (d1 + (dot + (d2 + (dot + d3))))));
    lemma_pieces_field(d0, '.', d1 + (dot + (d2 + (dot + d3))), dot);
    lemma_pieces_field(d1, '.', d2 + (dot + d3), dot);
    lemma_pieces_field(d2, '.', d3, dot);
    assert forall|i: int| 0 <= i < d3.len() implies !dot.contains(#[trigger] d3[i]) by {
        assert(is_digit(d3[i]));
    }
    lemma_pieces_prefix(d3, e, dot, e);
    assert(d3 + e == d3);
    assert(e + d3 == d3);
    let f = split_on(dotted(a), dot);
    assert(f == seq![d0, d1, d2, d3]);
}

} // verus!
