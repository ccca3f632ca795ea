//! Character-level text operations: ASCII case folding, Unicode white space,
//! trimming, searching, replacing, collapsing runs of white space and
//! decimal / hexadecimal rendering of numbers.
//!
//! Texts are handled as sequences of `char`; the spec functions here are the
//! vocabulary that the contracts of the other modules are written in.

use vstd::prelude::*;

verus! {

broadcast use vstd::string::group_string_axioms;

// ---------------------------------------------------------------------
// Characters
// ---------------------------------------------------------------------

/// ASCII lower-casing of one character; every other character is kept.
pub open spec fn lower_char(c: char) -> char {
    if 'A' <= c && c <= 'Z' {
        ((c as u8) + 32u8) as char
    } else {
        c
    }
}

/// ASCII lower-casing of a text, character by character.
pub open spec fn lower_text(s: Seq<char>) -> Seq<char> {
    s.map_values(|c: char| lower_char(c))
}

/// The Unicode `White_Space` property (PropList.txt), which is what
/// `char::is_white_space`, `str::trim` and `str::split_whitespace` go by.
pub open spec fn is_white(c: char) -> bool {
    ||| ('\u{9}' <= c && c <= '\u{d}')
    ||| c == ' '
    ||| c == '\u{85}'
    ||| c == '\u{a0}'
    ||| c == '\u{1680}'
    ||| ('\u{2000}' <= c && c <= '\u{200a}')
    ||| c == '\u{2028}'
    ||| c == '\u{2029}'
    ||| c == '\u{202f}'
    ||| c == '\u{205f}'
    ||| c == '\u{3000}'
}

/// ASCII hexadecimal digit, either case.
pub open spec fn is_hex_digit(c: char) -> bool {
    ('0' <= c && c <= '9') || ('a' <= c && c <= 'f') || ('A' <= c && c <= 'F')
}

/// ASCII decimal digit.
pub open spec fn is_digit(c: char) -> bool {
    '0' <= c && c <= '9'
}

/// The value of an ASCII decimal digit.
pub open spec fn digit_value(c: char) -> nat {
    ((c as u32) - 48) as nat
}

pub fn ascii_lower_char(c: char) -> (r: char)
    ensures
        r == lower_char(c),
{
    if 'A' <= c && c <= 'Z' {
        ((c as u8) + 32u8) as char
    } else {
        c
    }
}

pub fn is_white_char(c: char) -> (b: bool)
    ensures
        b == is_white(c),
{
    ('\u{9}' <= c && c <= '\u{d}') || c == ' ' || c == '\u{85}' || c == '\u{a0}' || c == '\u{1680}'
        || ('\u{2000}' <= c && c <= '\u{200a}') || c == '\u{2028}' || c == '\u{2029}' || c
        == '\u{202f}' || c == '\u{205f}' || c == '\u{3000}'
}

pub fn is_hex_digit_char(c: char) -> (b: bool)
    ensures
        b == is_hex_digit(c),
{
    ('0' <= c && c <= '9') || ('a' <= c && c <= 'f') || ('A' <= c && c <= 'F')
}

pub fn is_digit_char(c: char) -> (b: bool)
    ensures
        b == is_digit(c),
{
    '0' <= c && c <= '9'
}

// ---------------------------------------------------------------------
// Conversions between `str` / `String` and character vectors
// ---------------------------------------------------------------------

/// Appends one character to a string (std `String::push`): the string's
/// characters become the old ones followed by `c`.
#[verifier::external_body]
fn push_char(s: &mut String, c: char)
    ensures
        final(s)@ == old(s)@.push(c),
{
    s.push(c);
}

/// The characters of a text, in order.
pub fn chars_of(s: &str) -> (v: Vec<char>)
    ensures
        v@ == s@,
{
    let mut v: Vec<char> = Vec::new();
    for c in it: s.chars()
        invariant
            it.seq() == s@,
            v@ == it.seq().take(it.index()),
    {
        v.push(c);
        assert(v@ == it.seq().take(it.index() + 1));
    }
    v
}

/// A string holding exactly the given characters.
pub fn string_of(v: &[char]) -> (s: String)
    ensures
        s@ == v@,
{
    let mut s = String::new();
    let mut i: usize = 0;
    while i < v.len()
        invariant
            i <= v.len(),
            s@ == v@.take(i as int),
        decreases v.len() - i,
    {
        push_char(&mut s, v[i]);
        assert(v@.take(i as int + 1) == v@.take(i as int).push(v@[i as int]));
        i += 1;
    }
    assert(v@.take(v.len() as int) == v@);
    s
}

/// Appends the characters of `tail` to `out`.
pub fn append_chars(out: &mut Vec<char>, tail: &[char])
    ensures
        final(out)@ == old(out)@ + tail@,
{
    let mut i: usize = 0;
    while i < tail.len()
        invariant
            i <= tail.len(),
            out@ == old(out)@ + tail@.take(i as int),
        decreases tail.len() - i,
    {
        out.push(tail[i]);
        assert(tail@.take(i as int + 1) == tail@.take(i as int).push(tail@[i as int]));
        i += 1;
    }
    assert(tail@.take(tail.len() as int) == tail@);
}

/// Appends the characters of a literal or any other `str`.
pub fn append_str(out: &mut Vec<char>, tail: &str)
    ensures
        final(out)@ == old(out)@ + tail@,
{
    let t = chars_of(tail);
    append_chars(out, t.as_slice());
}

/// The characters `s[from..to]`.
pub fn copy_range(s: &[char], from: usize, to: usize) -> (v: Vec<char>)
    requires
        from <= to <= s.len(),
    ensures
        v@ == s@.subrange(from as int, to as int),
{
    let mut v: Vec<char> = Vec::new();
    let mut i = from;
    while i < to
        invariant
            from <= i <= to <= s.len(),
            v@ == s@.subrange(from as int, i as int),
        decreases to - i,
    {
        v.push(s[i]);
        assert(s@.subrange(from as int, i as int + 1) == s@.subrange(from as int, i as int).push(
            s@[i as int],
        ));
        i += 1;
    }
    v
}

/// Whether two character sequences are equal.
pub fn chars_eq(a: &[char], b: &[char]) -> (r: bool)
    ensures
        r == (a@ == b@),
{
    if a.len() != b.len() {
        return false;
    }
    let mut i: usize = 0;
    while i < a.len()
        invariant
            a.len() == b.len(),
            i <= a.len(),
            a@.take(i as int) == b@.take(i as int),
        decreases a.len() - i,
    {
        if a[i] != b[i] {
            assert(a@[i as int] != b@[i as int]);
            return false;
        }
        assert(a@.take(i as int + 1) == a@.take(i as int).push(a@[i as int]));
        assert(b@.take(i as int + 1) == b@.take(i as int).push(b@[i as int]));
        i += 1;
    }
    assert(a@.take(a.len() as int) == a@);
    assert(b@.take(b.len() as int) == b@);
    true
}

// ---------------------------------------------------------------------
// Case folding
// ---------------------------------------------------------------------

/// ASCII lower-casing (`str::to_ascii_lowercase`).
pub fn to_ascii_lower(s: &[char]) -> (v: Vec<char>)
    ensures
        v@ == lower_text(s@),
{
    let mut v: Vec<char> = Vec::new();
    let mut i: usize = 0;
    while i < s.len()
        invariant
            i <= s.len(),
            v@ == lower_text(s@.take(i as int)),
        decreases s.len() - i,
    {
        let c = ascii_lower_char(s[i]);
        v.push(c);
        assert(lower_text(s@.take(i as int + 1)) == lower_text(s@.take(i as int)).push(
            lower_char(s@[i as int]),
        ));
        i += 1;
    }
    assert(s@.take(s.len() as int) == s@);
    v
}

// ---------------------------------------------------------------------
// Trimming
// ---------------------------------------------------------------------

/// Leading white space removed (`str::trim_start`).
pub open spec fn trim_start(s: Seq<char>) -> Seq<char>
    decreases s.len(),
{
    if s.len() > 0 && is_white(s[0]) {
        trim_start(s.drop_first())
    } else {
        s
    }
}

/// Trailing white space removed (`str::trim_end`).
pub open spec fn trim_end(s: Seq<char>) -> Seq<char>
    decreases s.len(),
{
    if s.len() > 0 && is_white(s.last()) {
        trim_end(s.drop_last())
    } else {
        s
    }
}

/// What `trim_end` leaves ends in a character that is not white space, so
/// trimming it again changes nothing.
pub proof fn lemma_trim_end_idempotent(s: Seq<char>)
    ensures
        trim_end(s).len() > 0 ==> !is_white(trim_end(s).last()),
        trim_end(trim_end(s)) == trim_end(s),
    decreases s.len(),
{
    if s.len() > 0 && is_white(s.last()) {
        lemma_trim_end_idempotent(s.drop_last());
    }
}

/// Leading and trailing white space removed (`str::trim`).
pub open spec fn trim(s: Seq<char>) -> Seq<char> {
    trim_end(trim_start(s))
}

/// Index one past the last character of `s[..to]` that is not white space
/// (0 when there is none): `trim_end(s[..to]) == s[..result]`.
fn trim_end_index(s: &[char], to: usize) -> (j: usize)
    requires
        to <= s.len(),
    ensures
        j <= to,
        trim_end(s@.take(to as int)) == s@.take(j as int),
{
    let mut j = to;
    while j > 0 && is_white_char(s[j - 1])
        invariant
            j <= to <= s.len(),
            trim_end(s@.take(to as int)) == trim_end(s@.take(j as int)),
        decreases j,
    {
        assert(s@.take(j as int).drop_last() == s@.take(j as int - 1));
        j -= 1;
    }
    j
}

/// Trailing white space removed.
pub fn trimmed_end(s: &[char]) -> (v: Vec<char>)
    ensures
        v@ == trim_end(s@),
{
    let j = trim_end_index(s, s.len());
    assert(s@.take(s.len() as int) == s@);
    assert(s@.take(j as int) == s@.subrange(0, j as int));
    copy_range(s, 0, j)
}

/// Leading and trailing white space removed.
pub fn trimmed(s: &[char]) -> (v: Vec<char>)
    ensures
        v@ == trim(s@),
{
    let n = s.len();
    let mut i: usize = 0;
    assert(s@.subrange(0, n as int) == s@);
    while i < n && is_white_char(s[i])
        invariant
            i <= n == s.len(),
            trim_start(s@) == trim_start(s@.subrange(i as int, n as int)),
        decreases n - i,
    {
        assert(s@.subrange(i as int, n as int).drop_first() == s@.subrange(i as int + 1, n as int));
        i += 1;
    }
    assert(s@.subrange(0, n as int) == s@);
    let rest = copy_range(s, i, n);
    assert(trim_start(s@) == rest@);
    let j = trim_end_index(rest.as_slice(), rest.len());
    assert(rest@.take(rest.len() as int) == rest@);
    assert(rest@.take(j as int) == rest@.subrange(0, j as int));
    copy_range(rest.as_slice(), 0, j)
}

// ---------------------------------------------------------------------
// Searching
// ---------------------------------------------------------------------

/// Whether `p` occurs in `s` starting at index `i`.
pub open spec fn occurs_at(s: Seq<char>, p: Seq<char>, i: int) -> bool {
    0 <= i && i + p.len() <= s.len() && s.subrange(i, i + p.len()) == p
}

/// The first index `>= k` at which `p` occurs in `s`.
pub open spec fn find_from(s: Seq<char>, p: Seq<char>, k: int) -> Option<int>
    decreases s.len() + 1 - k,
{
    if k < 0 || k + p.len() > s.len() {
        None
    } else if s.subrange(k, k + p.len()) == p {
        Some(k)
    } else {
        find_from(s, p, k + 1)
    }
}

/// The first index at which `p` occurs in `s` (`str::find`).
pub open spec fn find(s: Seq<char>, p: Seq<char>) -> Option<int> {
    find_from(s, p, 0)
}

/// Whether `p` occurs anywhere in `s` (`str::contains`).
pub open spec fn contains(s: Seq<char>, p: Seq<char>) -> bool {
    find(s, p) is Some
}

/// `find_from` gives the least occurrence at or after `k`, and `None`
/// exactly when there is none.
pub proof fn lemma_find_from(s: Seq<char>, p: Seq<char>, k: int)
    requires
        0 <= k,
    ensures
        find_from(s, p, k) matches Some(i) ==> k <= i && occurs_at(s, p, i) && forall|j: int|
            k <= j < i ==> !occurs_at(s, p, j),
        find_from(s, p, k) is None ==> forall|j: int| k <= j ==> !occurs_at(s, p, j),
    decreases s.len() + 1 - k,
{
    if k + p.len() > s.len() {
    } else if s.subrange(k, k + p.len()) == p {
    } else {
        lemma_find_from(s, p, k + 1);
    }
}

/// `find` gives the first occurrence of `p` in `s`, and `None` exactly when
/// `p` does not occur.
pub proof fn lemma_find(s: Seq<char>, p: Seq<char>)
    ensures
        find(s, p) matches Some(i) ==> occurs_at(s, p, i) && forall|j: int|
            0 <= j < i ==> !occurs_at(s, p, j),
        find(s, p) is None ==> forall|j: int| 0 <= j ==> !occurs_at(s, p, j),
{
    lemma_find_from(s, p, 0);
}

/// Whether `p` occurs in `s` at index `i`.
fn occurs_at_exec(s: &[char], p: &[char], i: usize) -> (b: bool)
    requires
        p.len() <= s.len(),
        i <= s.len() - p.len(),
    ensures
        b == (s@.subrange(i as int, i + p.len()) == p@),
{
    let mut k: usize = 0;
    while k < p.len()
        invariant
            p.len() <= s.len(),
            i <= s.len() - p.len(),
            k <= p.len(),
            s@.subrange(i as int, i + k) == p@.take(k as int),
        decreases p.len() - k,
    {
        if s[i + k] != p[k] {
            assert(s@.subrange(i as int, i + p.len())[k as int] != p@[k as int]);
            return false;
        }
        assert(s@.subrange(i as int, i + k + 1) == s@.subrange(i as int, i + k).push(
            s@[i + k],
        ));
        assert(p@.take(k as int + 1) == p@.take(k as int).push(p@[k as int]));
        k += 1;
    }
    assert(p@.take(p.len() as int) == p@);
    true
}

/// The first index at or after `from` at which `p` occurs in `s`.
pub fn find_chars_from(s: &[char], p: &[char], from: usize) -> (r: Option<usize>)
    ensures
        match r {
            Some(i) => find_from(s@, p@, from as int) == Some(i as int),
            None => find_from(s@, p@, from as int) is None,
        },
{
    if p.len() > s.len() {
        return None;
    }
    if p.len() == 0 {
        if from <= s.len() {
            assert(s@.subrange(from as int, from as int) == p@);
            return Some(from);
        }
        return None;
    }
    let mut i = from;
    while i <= s.len() - p.len()
        invariant
            0 < p.len() <= s.len(),
            from <= i,
            find_from(s@, p@, from as int) == find_from(s@, p@, i as int),
        decreases s.len() - i,
    {
        if occurs_at_exec(s, p, i) {
            return Some(i);
        }
        i += 1;
    }
    None
}

/// The first index at which `p` occurs in `s` (`str::find`).
pub fn find_chars(s: &[char], p: &[char]) -> (r: Option<usize>)
    ensures
        match r {
            Some(i) => find(s@, p@) == Some(i as int),
            None => find(s@, p@) is None,
        },
{
    find_chars_from(s, p, 0)
}

/// Whether a literal (or any `str`) occurs in `s`.
pub fn contains_str(s: &[char], p: &str) -> (b: bool)
    ensures
        b == contains(s@, p@),
{
    let pc = chars_of(p);
    find_chars(s, pc.as_slice()).is_some()
}

/// Whether the character `c` occurs in `s`.
pub fn has_char(s: &[char], c: char) -> (b: bool)
    ensures
        b == contains(s@, seq![c]),
{
    let mut pc: Vec<char> = Vec::new();
    pc.push(c);
    assert(pc@ == seq![c]);
    find_chars(s, pc.as_slice()).is_some()
}

// ---------------------------------------------------------------------
// Replacing
// ---------------------------------------------------------------------

/// Every non-overlapping occurrence of `p` in `s`, scanning from the left,
/// replaced by `r` (`str::replace`).
pub open spec fn replace_all(s: Seq<char>, p: Seq<char>, r: Seq<char>) -> Seq<char>
    decreases s.len(),
{
    if s.len() == 0 {
        s
    } else if p.len() > 0 && p.len() <= s.len() && s.take(p.len() as int) == p {
        r + replace_all(s.skip(p.len() as int), p, r)
    } else {
        seq![s[0]] + replace_all(s.skip(1), p, r)
    }
}

pub fn replace_chars(s: &[char], p: &[char], r: &[char]) -> (v: Vec<char>)
    requires
        p.len() > 0,
    ensures
        v@ == replace_all(s@, p@, r@),
{
    let mut v: Vec<char> = Vec::new();
    let mut i: usize = 0;
    assert(s@.skip(0) == s@);
    while i < s.len()
        invariant
            p.len() > 0,
            i <= s.len(),
            replace_all(s@, p@, r@) == v@ + replace_all(s@.skip(i as int), p@, r@),
        decreases s.len() - i,
    {
        let ghost rest = s@.skip(i as int);
        if p.len() <= s.len() - i && occurs_at_exec(s, p, i) {
            assert(rest.take(p.len() as int) == s@.subrange(i as int, i + p.len()));
            assert(rest.skip(p.len() as int) == s@.skip(i + p.len()));
            let ghost old_v = v@;
            append_chars(&mut v, r);
            assert(v@ + replace_all(s@.skip(i + p.len()), p@, r@) == old_v + (r@ + replace_all(
                s@.skip(i + p.len()),
                p@,
                r@,
            )));
            i += p.len();
        } else {
            assert(p.len() <= rest.len() ==> rest.take(p.len() as int) == s@.subrange(
                i as int,
                i + p.len(),
            ));
            assert(rest.skip(1) == s@.skip(i + 1));
            assert(rest[0] == s@[i as int]);
            let ghost old_v = v@;
            v.push(s[i]);
            assert(v@ + replace_all(s@.skip(i + 1), p@, r@) == old_v + (seq![s@[i as int]]
                + replace_all(s@.skip(i + 1), p@, r@)));
            i += 1;
        }
    }
    assert(s@.skip(s.len() as int).len() == 0);
    v
}

/// Replaces every occurrence of the literal `p` by the literal `r`.
pub fn replace_str(s: &[char], p: &str, r: &str) -> (v: Vec<char>)
    requires
        p@.len() > 0,
    ensures
        v@ == replace_all(s@, p@, r@),
{
    let pc = chars_of(p);
    let rc = chars_of(r);
    replace_chars(s, pc.as_slice(), rc.as_slice())
}

// ---------------------------------------------------------------------
// White-space separated words
// ---------------------------------------------------------------------

/// The word being read (`cur`) as a list: empty when nothing has been read.
pub open spec fn word_if_any(cur: Seq<char>) -> Seq<Seq<char>> {
    if cur.len() > 0 {
        seq![cur]
    } else {
        Seq::empty()
    }
}

/// The maximal runs of non-white characters of `s`, with `cur` read so far
/// in front of `s`.
pub open spec fn words_from(s: Seq<char>, cur: Seq<char>) -> Seq<Seq<char>>
    decreases s.len(),
{
    if s.len() == 0 {
        word_if_any(cur)
    } else if is_white(s[0]) {
        word_if_any(cur) + words_from(s.skip(1), Seq::empty())
    } else {
        words_from(s.skip(1), cur.push(s[0]))
    }
}

/// The white-space separated words of `s` (`str::split_whitespace`).
pub open spec fn words(s: Seq<char>) -> Seq<Seq<char>> {
    words_from(s, Seq::empty())
}

/// The words joined with one space between each two (`join(" ")`).
pub open spec fn join_words(ws: Seq<Seq<char>>) -> Seq<char>
    decreases ws.len(),
{
    if ws.len() == 0 {
        Seq::empty()
    } else if ws.len() == 1 {
        ws[0]
    } else {
        join_words(ws.drop_last()) + seq![' '] + ws.last()
    }
}

/// Runs of white space collapsed to one space, with none left at either end.
pub open spec fn collapse_white(s: Seq<char>) -> Seq<char> {
    join_words(words(s))
}

/// White space occurs only as single spaces between characters that are
/// not white space.
pub open spec fn single_spaced(s: Seq<char>) -> bool {
    forall|i: int|
        0 <= i < s.len() && is_white(#[trigger] s[i]) ==> s[i] == ' ' && 0 < i && i + 1 < s.len()
            && !is_white(s[i - 1]) && !is_white(s[i + 1])
}

/// A word: not empty, without white space.
pub open spec fn is_word(w: Seq<char>) -> bool {
    w.len() > 0 && forall|i: int| 0 <= i < w.len() ==> !is_white(#[trigger] w[i])
}

proof fn lemma_words_from_are_words(s: Seq<char>, cur: Seq<char>)
    requires
        forall|i: int| 0 <= i < cur.len() ==> !is_white(#[trigger] cur[i]),
    ensures
        forall|k: int| 0 <= k < words_from(s, cur).len() ==> is_word(#[trigger] words_from(s, cur)[k]),
    decreases s.len(),
{
    let r = words_from(s, cur);
    if s.len() == 0 {
        assert forall|k: int| 0 <= k < r.len() implies is_word(#[trigger] r[k]) by {
            assert(cur.len() > 0 && r[k] == cur);
        }
    } else if is_white(s[0]) {
        lemma_words_from_are_words(s.skip(1), Seq::empty());
        let a = word_if_any(cur);
        let b = words_from(s.skip(1), Seq::empty());
        assert(r == a + b);
        assert forall|k: int| 0 <= k < r.len() implies is_word(#[trigger] r[k]) by {
            if k < a.len() {
                assert(cur.len() > 0 && r[k] == cur);
            } else {
                assert(r[k] == b[k - a.len()]);
            }
        }
    } else {
        let c = cur.push(s[0]);
        assert forall|i: int| 0 <= i < c.len() implies !is_white(#[trigger] c[i]) by {
            if i < cur.len() {
                assert(c[i] == cur[i]);
            }
        }
        lemma_words_from_are_words(s.skip(1), c);
        assert(r == words_from(s.skip(1), c));
    }
}

proof fn lemma_join_single_spaced(ws: Seq<Seq<char>>)
    requires
        forall|k: int| 0 <= k < ws.len() ==> is_word(#[trigger] ws[k]),
    ensures
        single_spaced(join_words(ws)),
        ws.len() > 0 ==> join_words(ws).len() > 0,
    decreases ws.len(),
{
    if ws.len() == 1 {
        assert(is_word(ws[0]));
    } else if ws.len() > 1 {
        let t = ws.drop_last();
        assert forall|k: int| 0 <= k < t.len() implies is_word(#[trigger] t[k]) by {
            assert(t[k] == ws[k]);
        }
        lemma_join_single_spaced(t);
        let j = join_words(t);
        let w = ws.last();
        assert(is_word(w));
        let r = j + seq![' '] + w;
        assert(join_words(ws) == r);
        let n = j.len() as int;
        assert(!is_white(j[n - 1])) by {
            if is_white(j[n - 1]) {
                assert(n - 1 + 1 < j.len());
            }
        }
        assert forall|i: int| 0 <= i < r.len() && is_white(#[trigger] r[i]) implies r[i] == ' ' && 0
            < i && i + 1 < r.len() && !is_white(r[i - 1]) && !is_white(r[i + 1]) by {
            if i < n {
                assert(r[i] == j[i]);
                assert(is_white(j[i]));
                assert(r[i - 1] == j[i - 1]);
                assert(r[i + 1] == j[i + 1]);
            } else if i == n {
                assert(r[i - 1] == j[n - 1]);
                assert(r[i + 1] == w[0]);
            } else {
                assert(r[i] == w[i - n - 1]);
            }
        }
    }
}

/// Collapsing white space leaves only single spaces between characters
/// that are not white space.
pub proof fn lemma_collapse_white_single_spaced(s: Seq<char>)
    ensures
        single_spaced(collapse_white(s)),
{
    lemma_words_from_are_words(s, Seq::empty());
    lemma_join_single_spaced(words(s));
}

proof fn lemma_join_push(ws: Seq<Seq<char>>, w: Seq<char>)
    ensures
        join_words(ws.push(w)) == if ws.len() == 0 {
            w
        } else {
            join_words(ws) + seq![' '] + w
        },
{
    assert(ws.push(w).drop_last() == ws);
}

/// `words(s)` joined by single spaces (`split_whitespace().join(" ")`).
pub fn collapse_white_chars(s: &[char]) -> (v: Vec<char>)
    ensures
        v@ == collapse_white(s@),
{
    let mut out: Vec<char> = Vec::new();
    let mut cur: Vec<char> = Vec::new();
    let mut any = false;
    let ghost mut done: Seq<Seq<char>> = Seq::empty();
    let mut i: usize = 0;
    assert(s@.skip(0) == s@);
    while i < s.len()
        invariant
            i <= s.len(),
            any == (done.len() > 0),
            words(s@) == done + words_from(s@.skip(i as int), cur@),
            out@ == join_words(done),
        decreases s.len() - i,
    {
        let c = s[i];
        let ghost rest = s@.skip(i as int);
        assert(rest[0] == c);
        assert(rest.skip(1) == s@.skip(i + 1));
        if is_white_char(c) {
            if cur.len() > 0 {
                proof {
                    lemma_join_push(done, cur@);
                }
                if any {
                    out.push(' ');
                }
                append_chars(&mut out, cur.as_slice());
                proof {
                    assert(done + (seq![cur@] + words_from(s@.skip(i + 1), Seq::empty()))
                        == done.push(cur@) + words_from(s@.skip(i + 1), Seq::empty()));
                    done = done.push(cur@);
                }
                any = true;
                cur = Vec::new();
            } else {
                assert(cur@ == Seq::<char>::empty());
                assert(word_if_any(cur@) + words_from(s@.skip(i + 1), Seq::empty()) == words_from(
                    s@.skip(i + 1),
                    Seq::empty(),
                ));
            }
        } else {
            cur.push(c);
        }
        i += 1;
    }
    if cur.len() > 0 {
        proof {
            lemma_join_push(done, cur@);
        }
        if any {
            out.push(' ');
        }
        append_chars(&mut out, cur.as_slice());
        proof {
            done = done.push(cur@);
        }
    }
    assert(words(s@) == done);
    out
}


// ---------------------------------------------------------------------
// Splitting at separator characters
// ---------------------------------------------------------------------

/// The pieces of `s` between characters of `seps`, with `cur` read so far in
/// front of `s`; empty pieces are kept.
pub open spec fn pieces_from(s: Seq<char>, seps: Seq<char>, cur: Seq<char>) -> Seq<Seq<char>>
    decreases s.len(),
{
    if s.len() == 0 {
        seq![cur]
    } else if seps.contains(s[0]) {
        seq![cur] + pieces_from(s.skip(1), seps, Seq::empty())
    } else {
        pieces_from(s.skip(1), seps, cur.push(s[0]))
    }
}

/// `s` split at every character of `seps` (`str::split` with a set of
/// characters); there is always one piece more than there are separators.
pub open spec fn split_on(s: Seq<char>, seps: Seq<char>) -> Seq<Seq<char>> {
    pieces_from(s, seps, Seq::empty())
}

/// Characters that are not separators are carried over into the piece being
/// read.
pub proof fn lemma_pieces_prefix(a: Seq<char>, rest: Seq<char>, seps: Seq<char>, cur: Seq<char>)
    requires
        forall|i: int| 0 <= i < a.len() ==> !seps.contains(#[trigger] a[i]),
    ensures
        pieces_from(a + rest, seps, cur) == pieces_from(rest, seps, cur + a),
    decreases a.len(),
{
    if a.len() == 0 {
        assert(a + rest == rest);
        assert(cur + a == cur);
    } else {
        let s = a + rest;
        assert(s[0] == a[0]);
        assert(s.skip(1) == a.skip(1) + rest);
        assert forall|i: int| 0 <= i < a.skip(1).len() implies !seps.contains(
            #[trigger] a.skip(1)[i],
        ) by {
            assert(a.skip(1)[i] == a[i + 1]);
        }
        lemma_pieces_prefix(a.skip(1), rest, seps, cur.push(a[0]));
        assert(cur.push(a[0]) + a.skip(1) == cur + a);
    }
}

/// Whether `c` is one of `cs`.
pub fn char_in(cs: &[char], c: char) -> (b: bool)
    ensures
        b == cs@.contains(c),
{
    let mut i: usize = 0;
    while i < cs.len()
        invariant
            i <= cs.len(),
            forall|j: int| 0 <= j < i ==> cs@[j] != c,
        decreases cs.len() - i,
    {
        if cs[i] == c {
            assert(cs@[i as int] == c);
            return true;
        }
        i += 1;
    }
    false
}

/// `s` split at every character of `seps`.
pub fn split_on_chars(s: &[char], seps: &[char]) -> (v: Vec<Vec<char>>)
    ensures
        v.deep_view() == split_on(s@, seps@),
{
    let mut out: Vec<Vec<char>> = Vec::new();
    let mut cur: Vec<char> = Vec::new();
    let mut i: usize = 0;
    assert(s@.skip(0) == s@);
    while i < s.len()
        invariant
            i <= s.len(),
            split_on(s@, seps@) == out.deep_view() + pieces_from(s@.skip(i as int), seps@, cur@),
        decreases s.len() - i,
    {
        let c = s[i];
        let ghost rest = s@.skip(i as int);
        assert(rest[0] == c);
        assert(rest.skip(1) == s@.skip(i + 1));
        if char_in(seps, c) {
            let ghost old_out = out.deep_view();
            let piece = cur;
            let ghost pv = piece@;
            assert(piece.deep_view() =~= pv);
            out.push(piece);
            assert(out.deep_view() =~= old_out.push(pv));
            assert(old_out + (seq![pv] + pieces_from(s@.skip(i + 1), seps@, Seq::empty()))
                == old_out.push(pv) + pieces_from(s@.skip(i + 1), seps@, Seq::empty()));
            cur = Vec::new();
            assert(cur@ == Seq::<char>::empty());
        } else {
            cur.push(c);
        }
        i += 1;
    }
    let ghost old_out = out.deep_view();
    let ghost pv = cur@;
    assert(cur.deep_view() =~= pv);
    out.push(cur);
    assert(out.deep_view() =~= old_out.push(pv));
    assert(s@.skip(s.len() as int).len() == 0);
    out
}


// ---------------------------------------------------------------------
// Decoding bytes
// ---------------------------------------------------------------------

/// The text that `String::from_utf8_lossy` makes of `bytes`.
pub uninterp spec fn utf8_lossy_text(bytes: Seq<u8>) -> Seq<char>;

/// std `String::from_utf8_lossy`: decodes UTF-8, putting U+FFFD in place of
/// each invalid sequence. Claimed: the result is `utf8_lossy_text` of the
/// bytes, and bytes that are valid UTF-8 are decoded as they are. What comes
/// out for invalid bytes is not stated beyond the name.
#[verifier::external_body]
pub(crate) fn utf8_lossy(bytes: &[u8]) -> (s: String)
    ensures
        s@ == utf8_lossy_text(bytes@),
        vstd::utf8::valid_utf8(bytes@) ==> s@ == vstd::utf8::decode_utf8(bytes@),
{
    String::from_utf8_lossy(bytes).into_owned()
}

// ---------------------------------------------------------------------
// Numbers as text
// ---------------------------------------------------------------------

/// The ASCII digit for `d < 10`.
pub open spec fn digit_char(d: nat) -> char {
    ((d + 48) as u8) as char
}

/// Decimal rendering of `n`, without leading zeros.
pub open spec fn decimal(n: nat) -> Seq<char>
    decreases n,
{
    if n < 10 {
        seq![digit_char(n)]
    } else {
        decimal(n / 10).push(digit_char(n % 10))
    }
}

/// Appends the decimal rendering of `n`.
pub fn push_decimal(out: &mut Vec<char>, n: u32)
    ensures
        final(out)@ == old(out)@ + decimal(n as nat),
    decreases n,
{
    if n >= 10 {
        push_decimal(out, n / 10);
    }
    let d = ((n % 10) as u8 + 48u8) as char;
    out.push(d);
}

/// The lower-case hexadecimal digit for `d < 16`.
pub open spec fn hex_char(d: nat) -> char {
    if d < 10 {
        ((d + 48) as u8) as char
    } else {
        ((d + 87) as u8) as char
    }
}

/// Two lower-case hexadecimal digits for a byte (`{:02x}`).
pub open spec fn hex_byte(b: u8) -> Seq<char> {
    seq![hex_char((b / 16) as nat), hex_char((b % 16) as nat)]
}

fn hex_digit(d: u8) -> (c: char)
    requires
        d < 16,
    ensures
        c == hex_char(d as nat),
{
    if d < 10 {
        (d + 48u8) as char
    } else {
        (d + 87u8) as char
    }
}

/// Appends two lower-case hexadecimal digits for `b`.
pub fn push_hex_byte(out: &mut Vec<char>, b: u8)
    ensures
        final(out)@ == old(out)@ + hex_byte(b),
{
    out.push(hex_digit(b / 16));
    out.push(hex_digit(b % 16));
}

} // verus!
