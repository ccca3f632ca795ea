//! The scan target syntax: a list of single hosts (`10.0.0.1`), CIDR blocks
//! (`192.168.1.0/24`), short ranges over the last octet (`10.0.0.5-50`) and
//! explicit ranges (`10.0.0.254-10.0.1.5`), separated by commas, semicolons
//! or newlines, expanded into the sorted list of distinct addresses.

use vstd::prelude::*;
use crate::ports::sort_u32;
use crate::addr::{
    all_digits, digits_value, dotted, dotted_value, lemma_dotted_chars, lemma_dotted_round_trip,
    parse_dotted, parse_u8_text, quad, u8_value,
};
use crate::text::{
    append_chars, append_str, chars_of, contains, copy_range, find, find_chars, has_char, is_digit,
    is_white, lemma_find, lemma_pieces_prefix, occurs_at, pieces_from, split_on, split_on_chars, string_of, trim,
    trim_end, trim_start, trimmed,
};

verus! {

broadcast use vstd::seq_lib::group_to_multiset_ensures;

// ---------------------------------------------------------------------
// ipnet
// ---------------------------------------------------------------------

#[verifier::external_type_specification]
#[verifier::external_body]
pub struct ExAddrParseError(ipnet::AddrParseError);

/// One field of the text that ipnet's `Ipv4Net` parser reads: one to
/// `max_len` ASCII digits (leading zeros allowed) worth less than `bound`.
pub open spec fn net_field_ok(g: Seq<char>, max_len: nat, bound: nat) -> bool {
    1 <= g.len() <= max_len && all_digits(g) && digits_value(g) < bound
}

/// The network that ipnet reads from `s`: four address fields of at most
/// three digits, each below 256, separated by `.`, then `/` and a prefix
/// length of at most two digits, at most 32, and nothing else. The address
/// is kept as written (host bits are not cleared).
pub open spec fn cidr_value(s: Seq<char>) -> Option<(u32, u8)> {
    let halves = split_on(s, seq!['/']);
    let f = split_on(halves[0], seq!['.']);
    if halves.len() == 2 && f.len() == 4 && net_field_ok(f[0], 3, 256) && net_field_ok(f[1], 3, 256)
        && net_field_ok(f[2], 3, 256) && net_field_ok(f[3], 3, 256) && net_field_ok(
        halves[1],
        2,
        33,
    ) {
        Some(
            (
                quad(
                    digits_value(f[0]),
                    digits_value(f[1]),
                    digits_value(f[2]),
                    digits_value(f[3]),
                ) as u32,
                digits_value(halves[1]) as u8,
            ),
        )
    } else {
        None
    }
}

/// ipnet's `Ipv4Net::from_str`, with the network taken apart into its
/// address (`Ipv4Net::addr`) and prefix length (`Ipv4Net::prefix_len`).
/// Claimed from ipnet's parser source: it succeeds exactly on the texts that
/// `cidr_value` describes, with the value given there.
#[verifier::external_body]
fn parse_ipv4_net(s: &str) -> (r: Result<(u32, u8), ipnet::AddrParseError>)
    ensures
        match r {
            Ok(v) => cidr_value(s@) == Some(v),
            Err(_) => cidr_value(s@) is None,
        },
{
    match s.parse::<ipnet::Ipv4Net>() {
        Ok(net) => Ok((u32::from(net.addr()), net.prefix_len())),
        Err(e) => Err(e),
    }
}

/// The `Display` text of ipnet's `AddrParseError`, which ipnet's source
/// writes as the fixed text "invalid IP address syntax".
#[verifier::external_body]
fn addr_parse_error_text(e: &ipnet::AddrParseError) -> (t: String)
    ensures
        t@ == "invalid IP address syntax"@,
{
    e.to_string()
}

// ---------------------------------------------------------------------
// Specification
// ---------------------------------------------------------------------

/// The characters that separate targets.
pub open spec fn target_separators() -> Seq<char> {
    seq![',', '\n', ';']
}

/// The trimmed pieces that are not blank, in order.
pub open spec fn nonblank(ps: Seq<Seq<char>>) -> Seq<Seq<char>>
    decreases ps.len(),
{
    if ps.len() == 0 {
        Seq::empty()
    } else if trim(ps.last()).len() > 0 {
        nonblank(ps.drop_last()).push(trim(ps.last()))
    } else {
        nonblank(ps.drop_last())
    }
}

/// The targets written in `s`.
pub open spec fn target_tokens(s: Seq<char>) -> Seq<Seq<char>> {
    nonblank(split_on(s, target_separators()))
}

/// The addresses `s ..= e`, in order.
pub open spec fn addr_span(s: u32, e: u32) -> Seq<u32> {
    Seq::new((e - s + 1) as nat, |i: int| (s + i) as u32)
}

/// The host bits of a network with prefix length `p`.
pub open spec fn host_mask(p: u8) -> u32 {
    if p >= 32 {
        0
    } else {
        0xffff_ffffu32 >> p
    }
}

/// The first host of a network (ipnet's `Ipv4Net::hosts`): the network
/// address, or the one after it when the prefix is shorter than 31.
pub open spec fn first_host(a: u32, p: u8) -> u32 {
    let n = a & !host_mask(p);
    if p < 31 {
        (n + 1) as u32
    } else {
        n
    }
}

/// The last host of a network: the broadcast address, or the one before it
/// when the prefix is shorter than 31.
pub open spec fn last_host(a: u32, p: u8) -> u32 {
    let b = a | host_mask(p);
    if p < 31 {
        (b - 1) as u32
    } else {
        b
    }
}

/// A start and an end: a full address, or a last octet that replaces the
/// start's.
pub open spec fn range_end(start: u32, end_text: Seq<char>) -> Option<u32> {
    if contains(end_text, seq!['.']) {
        dotted_value(end_text)
    } else {
        match u8_value(end_text) {
            Some(last) => Some((start - start % 256 + last) as u32),
            None => None,
        }
    }
}

/// The addresses of a range target `token`, split at its first `-` into
/// `start` and `end`.
pub open spec fn range_addrs(token: Seq<char>, start: Seq<char>, end: Seq<char>) -> Result<
    Seq<u32>,
    Seq<char>,
> {
    match dotted_value(trim(start)) {
        None => Err("invalid range start: "@ + start),
        Some(s) => match range_end(s, trim(end)) {
            None => Err("invalid range end: "@ + trim(end)),
            Some(e) => if e < s {
                Err("range end before start: "@ + token)
            } else if e - s > 1_000_000 {
                Err("range too large (>1M hosts): "@ + token)
            } else {
                Ok(addr_span(s, e))
            },
        },
    }
}

/// The addresses of a CIDR target, given what the network parser made of it
/// (the network, or the text of its error).
pub open spec fn cidr_addrs(token: Seq<char>, parsed: Result<(u32, u8), Seq<char>>) -> Result<
    Seq<u32>,
    Seq<char>,
> {
    match parsed {
        Err(msg) => Err("invalid CIDR "@ + token + ": "@ + msg),
        Ok((a, p)) => if p < 8 {
            Err("CIDR too large (prefix must be >= 8): "@ + token)
        } else {
            Ok(addr_span(first_host(a, p), last_host(a, p)))
        },
    }
}

/// What the network parser makes of a CIDR target.
pub open spec fn cidr_parse_outcome(token: Seq<char>) -> Result<(u32, u8), Seq<char>> {
    match cidr_value(token) {
        Some(v) => Ok(v),
        None => Err("invalid IP address syntax"@),
    }
}

/// The addresses of one target, or the error message for it.
pub open spec fn token_addrs(token: Seq<char>) -> Result<Seq<u32>, Seq<char>> {
    match find(token, seq!['-']) {
        Some(k) => range_addrs(token, token.take(k), token.skip(k + 1)),
        None => if contains(token, seq!['/']) {
            cidr_addrs(token, cidr_parse_outcome(token))
        } else {
            match dotted_value(token) {
                Some(a) => Ok(seq![a]),
                None => Err("invalid IP: "@ + token),
            }
        },
    }
}

/// The addresses of all targets in order, or the message of the first
/// target that fails.
pub open spec fn collect_addrs(tokens: Seq<Seq<char>>) -> Result<Seq<u32>, Seq<char>>
    decreases tokens.len(),
{
    if tokens.len() == 0 {
        Ok(Seq::empty())
    } else {
        match collect_addrs(tokens.drop_last()) {
            Err(e) => Err(e),
            Ok(a) => match token_addrs(tokens.last()) {
                Err(e) => Err(e),
                Ok(b) => Ok(a + b),
            },
        }
    }
}

/// Strictly ascending, hence without repetitions.
pub open spec fn strictly_ascending(v: Seq<u32>) -> bool {
    forall|i: int, j: int| 0 <= i < j < v.len() ==> v[i] < v[j]
}

/// A network with a prefix from /8 to /30 yields the addresses strictly
/// between its network address and its broadcast address: two fewer than
/// the addresses of its block (254 for a /24).
pub proof fn lemma_cidr_hosts(a: u32, p: u8)
    requires
        8 <= p <= 30,
    ensures
        first_host(a, p) == (a & !host_mask(p)) + 1,
        last_host(a, p) == (a | host_mask(p)) - 1,
        last_host(a, p) - first_host(a, p) + 1 == host_mask(p) - 1,
        p == 24 ==> last_host(a, p) - first_host(a, p) + 1 == 254,
{
    let h = host_mask(p);
    assert(h == 0xffff_ffffu32 >> p);
    assert(p <= 30 ==> (0xffff_ffffu32 >> p) >= 3) by (bit_vector);
    assert(h >= 3 ==> (a | h) - (a & !h) == h && (a & !h) <= 0xffff_fffc) by (bit_vector);
    assert((0xffff_ffffu32 >> 24u8) == 255) by (bit_vector);
}

/// A CIDR target is refused as too large only when its prefix is shorter
/// than /8; with a prefix from /8 to /32 it names exactly the hosts of its
/// network, in order.
pub proof fn lemma_cidr_prefix_limit(t: Seq<char>, a: u32, p: u8)
    ensures
        8 <= p <= 32 ==> cidr_addrs(t, Ok((a, p))) == Ok::<Seq<u32>, Seq<char>>(
            addr_span(first_host(a, p), last_host(a, p)),
        ),
        p < 8 ==> cidr_addrs(t, Ok((a, p))) == Err::<Seq<u32>, Seq<char>>(
            "CIDR too large (prefix must be >= 8): "@ + t,
        ),
        find(t, seq!['-']) is None && contains(t, seq!['/']) && cidr_value(t) == Some((a, p)) && 8
            <= p ==> token_addrs(t) == Ok::<Seq<u32>, Seq<char>>(
            addr_span(first_host(a, p), last_host(a, p)),
        ),
{
}

/// A range target names every address from its start to its end, in
/// order; it is refused when the end comes before the start, or when the
/// end is more than 1 000 000 addresses past the start.
pub proof fn lemma_range_limits(t: Seq<char>, k: int, s: u32, e: u32)
    requires
        find(t, seq!['-']) == Some(k),
        dotted_value(trim(t.take(k))) == Some(s),
        range_end(s, trim(t.skip(k + 1))) == Some(e),
    ensures
        e < s ==> token_addrs(t) == Err::<Seq<u32>, Seq<char>>("range end before start: "@ + t),
        s <= e && e - s > 1_000_000 ==> token_addrs(t) == Err::<Seq<u32>, Seq<char>>(
            "range too large (>1M hosts): "@ + t,
        ),
        s <= e && e - s <= 1_000_000 ==> (token_addrs(t) matches Ok(v) && v.len() == e - s + 1
            && forall|i: int| 0 <= i < v.len() ==> #[trigger] v[i] == s + i),
{
}

/// A short range keeps the first three octets of its start and takes the
/// given last octet.
pub proof fn lemma_short_range_end(start: u32, end_text: Seq<char>)
    requires
        !contains(end_text, seq!['.']),
        u8_value(end_text) is Some,
    ensures
        range_end(start, end_text) matches Some(e) && e / 256 == start / 256 && e % 256
            == u8_value(end_text)->0,
{
}

/// A list of addresses without repetitions, in ascending order, is fixed by
/// the addresses in it: the result of a target list depends only on the
/// addresses that it names, not on their order or on repetitions.
pub proof fn lemma_ascending_list_unique(v: Seq<u32>, w: Seq<u32>)
    requires
        strictly_ascending(v),
        strictly_ascending(w),
        forall|x: u32| v.contains(x) <==> w.contains(x),
    ensures
        v == w,
    decreases v.len(),
{
    if v.len() == 0 {
        if w.len() > 0 {
            assert(w.contains(w[0]));
        }
        assert(v =~= w);
    } else {
        assert(v.contains(v[0]));
        let j = choose|j: int| 0 <= j < w.len() && w[j] == v[0];
        assert(w.contains(w[0]));
        let i = choose|i: int| 0 <= i < v.len() && v[i] == w[0];
        assert(v[0] <= v[i]);
        assert(w[0] <= w[j]);
        let v1 = v.skip(1);
        let w1 = w.skip(1);
        assert forall|x: u32| v1.contains(x) implies w1.contains(x) by {
            let k = choose|k: int| 0 <= k < v1.len() && v1[k] == x;
            assert(v[k + 1] == x);
            assert(v.contains(x));
            let m = choose|m: int| 0 <= m < w.len() && w[m] == x;
            assert(m != 0);
            assert(w1[m - 1] == x);
        }
        assert forall|x: u32| w1.contains(x) implies v1.contains(x) by {
            let k = choose|k: int| 0 <= k < w1.len() && w1[k] == x;
            assert(w[k + 1] == x);
            assert(w.contains(x));
            let m = choose|m: int| 0 <= m < v.len() && v[m] == x;
            assert(m != 0);
            assert(v1[m - 1] == x);
        }
        lemma_ascending_list_unique(v1, w1);
        assert(v =~= seq![v[0]] + v1);
        assert(w =~= seq![w[0]] + w1);
    }
}

/// A text in which the character `c` does not occur.
proof fn lemma_char_absent(s: Seq<char>, c: char)
    requires
        forall|i: int| 0 <= i < s.len() ==> s[i] != c,
    ensures
        find(s, seq![c]) is None,
        !contains(s, seq![c]),
{
    lemma_find(s, seq![c]);
    if find(s, seq![c]) is Some {
        let i = find(s, seq![c])->0;
        assert(s.subrange(i, i + 1)[0] == s[i]);
    }
}

/// A dotted-decimal address is one target.
proof fn lemma_dotted_token(a: u32)
    ensures
        target_tokens(dotted(a)) == seq![dotted(a)],
{
    let s = dotted(a);
    let e = Seq::<char>::empty();
    lemma_dotted_chars(a);
    assert forall|i: int| 0 <= i < s.len() implies !target_separators().contains(#[trigger] s[i]) by {
        if target_separators().contains(s[i]) {
            let k = choose|k: int| 0 <= k < 3 && target_separators()[k] == s[i];
            assert(k == 0 || k == 1 || k == 2);
        }
    }
    lemma_pieces_prefix(s, e, target_separators(), e);
    assert(s + e == s);
    assert(e + s == s);
    assert(split_on(s, target_separators()) == seq![s]);
    assert(!is_white(s[0]));
    assert(trim_start(s) == s);
    assert(!is_white(s.last()));
    assert(trim_end(s) == s);
    assert(trim(s) == s);
    let t = seq![s];
    assert(t.drop_last() == Seq::<Seq<char>>::empty());
    assert(nonblank(t.drop_last()) == Seq::<Seq<char>>::empty());
    assert(t.last() == s);
    assert(nonblank(t) == Seq::<Seq<char>>::empty().push(s));
    assert(Seq::<Seq<char>>::empty().push(s) == t);
}

/// A dotted-decimal address names itself.
proof fn lemma_dotted_token_addrs(a: u32)
    ensures
        token_addrs(dotted(a)) == Ok::<Seq<u32>, Seq<char>>(seq![a]),
{
    let s = dotted(a);
    lemma_dotted_chars(a);
    lemma_dotted_round_trip(a);
    assert forall|i: int| 0 <= i < s.len() implies s[i] != '-' && s[i] != '/' by {
        assert(is_digit(s[i]) || s[i] == '.');
    }
    lemma_char_absent(s, '-');
    lemma_char_absent(s, '/');
}

/// A single address written in dotted-decimal notation is a target list
/// that names that address and no other.
pub proof fn lemma_single_address_target(a: u32)
    ensures
        collect_addrs(target_tokens(dotted(a))) == Ok::<Seq<u32>, Seq<char>>(seq![a]),
{
    let s = dotted(a);
    lemma_dotted_token(a);
    lemma_dotted_token_addrs(a);
    let t = seq![s];
    assert(t.drop_last() == Seq::<Seq<char>>::empty());
    assert(collect_addrs(t.drop_last()) == Ok::<Seq<u32>, Seq<char>>(Seq::empty()));
    assert(t.last() == s);
    assert(Seq::<u32>::empty() + seq![a] == seq![a]);
}

/// A target list that names at least one address, every target valid.
pub open spec fn targets_named(s: Seq<char>) -> bool {
    collect_addrs(target_tokens(s)) matches Ok(a) && a.len() > 0
}

/// `v` is the list that a target list gives: its addresses without
/// repetitions, in ascending order.
pub open spec fn targets_listed(s: Seq<char>, v: Seq<u32>) -> bool {
    &&& collect_addrs(target_tokens(s)) matches Ok(a)
    &&& a.len() > 0
    &&& strictly_ascending(v)
    &&& forall|x: u32| v.contains(x) <==> a.contains(x)
}

proof fn lemma_pieces_at_separator(
    a: Seq<char>,
    c: char,
    b: Seq<char>,
    seps: Seq<char>,
    cur: Seq<char>,
)
    requires
        seps.contains(c),
    ensures
        pieces_from(a + seq![c] + b, seps, cur) == pieces_from(a, seps, cur) + pieces_from(
            b,
            seps,
            Seq::empty(),
        ),
    decreases a.len(),
{
    let s = a + seq![c] + b;
    if a.len() == 0 {
        assert(s == seq![c] + b);
        assert(s[0] == c);
        assert(s.skip(1) == b);
    } else {
        assert(s[0] == a[0]);
        assert(s.skip(1) == a.skip(1) + seq![c] + b);
        if seps.contains(a[0]) {
            lemma_pieces_at_separator(a.skip(1), c, b, seps, Seq::empty());
            assert(seq![cur] + (pieces_from(a.skip(1), seps, Seq::empty()) + pieces_from(
                b,
                seps,
                Seq::empty(),
            )) == (seq![cur] + pieces_from(a.skip(1), seps, Seq::empty())) + pieces_from(
                b,
                seps,
                Seq::empty(),
            ));
        } else {
            lemma_pieces_at_separator(a.skip(1), c, b, seps, cur.push(a[0]));
        }
    }
}

proof fn lemma_nonblank_concat(x: Seq<Seq<char>>, y: Seq<Seq<char>>)
    ensures
        nonblank(x + y) == nonblank(x) + nonblank(y),
    decreases y.len(),
{
    if y.len() == 0 {
        assert(x + y == x);
        assert(nonblank(x) + nonblank(y) == nonblank(x));
    } else {
        assert((x + y).last() == y.last());
        assert((x + y).drop_last() == x + y.drop_last());
        lemma_nonblank_concat(x, y.drop_last());
        if trim(y.last()).len() > 0 {
            assert(nonblank(x) + nonblank(y.drop_last()).push(trim(y.last())) == (nonblank(x)
                + nonblank(y.drop_last())).push(trim(y.last())));
        }
    }
}

/// Targets joined at a separator are the targets of each part, in order.
proof fn lemma_target_tokens_join(a: Seq<char>, c: char, b: Seq<char>)
    requires
        target_separators().contains(c),
    ensures
        target_tokens(a + seq![c] + b) == target_tokens(a) + target_tokens(b),
{
    lemma_pieces_at_separator(a, c, b, target_separators(), Seq::empty());
    lemma_nonblank_concat(split_on(a, target_separators()), split_on(b, target_separators()));
}

/// The addresses of two lists of targets one after the other: both must be
/// valid, and the addresses come one list after the other.
proof fn lemma_collect_concat(t1: Seq<Seq<char>>, t2: Seq<Seq<char>>)
    ensures
        collect_addrs(t1 + t2) is Ok <==> (collect_addrs(t1) is Ok && collect_addrs(t2) is Ok),
        collect_addrs(t1) matches Ok(x) ==> (collect_addrs(t2) matches Ok(y) ==> collect_addrs(
            t1 + t2,
        ) == Ok::<Seq<u32>, Seq<char>>(x + y)),
    decreases t2.len(),
{
    if t2.len() == 0 {
        assert(t1 + t2 == t1);
    } else {
        assert((t1 + t2).last() == t2.last());
        assert((t1 + t2).drop_last() == t1 + t2.drop_last());
        lemma_collect_concat(t1, t2.drop_last());
        if let (Ok(x), Ok(y)) = (collect_addrs(t1), collect_addrs(t2.drop_last())) {
            if let Ok(z) = token_addrs(t2.last()) {
                assert(x + y + z == x + (y + z));
            }
        }
    }
}

/// The order of the targets and the choice of separator do not matter: a
/// list `a` then `b` names addresses exactly when `b` then `a` does, with
/// any separators between them, and then the two give the same list.
pub proof fn lemma_order_and_separator_irrelevant(
    a: Seq<char>,
    b: Seq<char>,
    c1: char,
    c2: char,
    v: Seq<u32>,
    w: Seq<u32>,
)
    requires
        target_separators().contains(c1),
        target_separators().contains(c2),
    ensures
        targets_named(a + seq![c1] + b) == targets_named(b + seq![c2] + a),
        targets_listed(a + seq![c1] + b, v) && targets_listed(b + seq![c2] + a, w) ==> v == w,
{
    let ta = target_tokens(a);
    let tb = target_tokens(b);
    lemma_target_tokens_join(a, c1, b);
    lemma_target_tokens_join(b, c2, a);
    lemma_collect_concat(ta, tb);
    lemma_collect_concat(tb, ta);
    if let (Ok(x), Ok(y)) = (collect_addrs(ta), collect_addrs(tb)) {
        assert forall|u: u32| (x + y).contains(u) <==> (y + x).contains(u) by {
            if (x + y).contains(u) {
                let k = choose|k: int| 0 <= k < (x + y).len() && (x + y)[k] == u;
                if k < x.len() {
                    assert((y + x)[y.len() + k] == u);
                } else {
                    assert((y + x)[k - x.len()] == u);
                }
            }
            if (y + x).contains(u) {
                let k = choose|k: int| 0 <= k < (y + x).len() && (y + x)[k] == u;
                if k < y.len() {
                    assert((x + y)[x.len() + k] == u);
                } else {
                    assert((x + y)[k - y.len()] == u);
                }
            }
        }
        if targets_listed(a + seq![c1] + b, v) && targets_listed(b + seq![c2] + a, w) {
            lemma_ascending_list_unique(v, w);
        }
    }
}

/// The spec view of a computed list of addresses or error message.
pub open spec fn outcome(r: Result<Vec<u32>, String>) -> Result<Seq<u32>, Seq<char>> {
    match r {
        Ok(v) => Ok(v@),
        Err(m) => Err(m@),
    }
}

// ---------------------------------------------------------------------
// Implementation
// ---------------------------------------------------------------------

/// `prefix` followed by `tail`, as a string.
fn message(prefix: &str, tail: &[char]) -> (s: String)
    ensures
        s@ == prefix@ + tail@,
{
    let mut v: Vec<char> = Vec::new();
    append_str(&mut v, prefix);
    append_chars(&mut v, tail);
    string_of(v.as_slice())
}

/// The targets written in `input`: split at `,`, `;` and newlines, trimmed,
/// blank ones dropped.
pub fn target_tokens_of(input: &str) -> (v: Vec<Vec<char>>)
    ensures
        v.deep_view() == target_tokens(input@),
{
    let s = chars_of(input);
    let mut seps: Vec<char> = Vec::new();
    seps.push(',');
    seps.push('\n');
    seps.push(';');
    assert(seps@ == target_separators());
    let pieces = split_on_chars(s.as_slice(), seps.as_slice());
    let ghost pv = pieces.deep_view();
    let mut out: Vec<Vec<char>> = Vec::new();
    let mut i: usize = 0;
    while i < pieces.len()
        invariant
            i <= pieces.len(),
            pv == pieces.deep_view(),
            out.deep_view() == nonblank(pv.take(i as int)),
        decreases pieces.len() - i,
    {
        assert(pv.take(i as int + 1).drop_last() == pv.take(i as int));
        assert(pieces@[i as int]@ == pv[i as int]);
        let t = trimmed(pieces[i].as_slice());
        if t.len() > 0 {
            let ghost old_out = out.deep_view();
            let ghost tv = t@;
            assert(t.deep_view() =~= tv);
            out.push(t);
            assert(out.deep_view() =~= old_out.push(tv));
        }
        i += 1;
    }
    assert(pv.take(pieces.len() as int) == pv);
    out
}

/// The addresses `s ..= e`.
pub fn addr_span_vec(s: u32, e: u32) -> (v: Vec<u32>)
    requires
        s <= e,
    ensures
        v@ == addr_span(s, e),
{
    let mut v: Vec<u32> = Vec::new();
    let mut x: u64 = s as u64;
    while x <= e as u64
        invariant
            s <= x <= e as u64 + 1,
            v@.len() == x - s,
            forall|i: int| 0 <= i < v@.len() ==> v@[i] == s + i,
        decreases e as u64 + 1 - x,
    {
        v.push(x as u32);
        x += 1;
    }
    assert(v@ =~= addr_span(s, e));
    v
}

/// The addresses of a range target `token` split at its first `-` into
/// `start` and `end`.
pub fn range_hosts(token: &[char], start: &[char], end: &[char]) -> (r: Result<Vec<u32>, String>)
    ensures
        outcome(r) == range_addrs(token@, start@, end@),
{
    let st = trimmed(start);
    let s = match parse_dotted(st.as_slice()) {
        Some(a) => a,
        None => return Err(message("invalid range start: ", start)),
    };
    let et = trimmed(end);
    let e = if has_char(et.as_slice(), '.') {
        match parse_dotted(et.as_slice()) {
            Some(a) => a,
            None => return Err(message("invalid range end: ", et.as_slice())),
        }
    } else {
        match parse_u8_text(et.as_slice()) {
            Some(last) => s - s % 256 + last as u32,
            None => return Err(message("invalid range end: ", et.as_slice())),
        }
    };
    assert(range_end(s, et@) == Some(e));
    if e < s {
        Err(message("range end before start: ", token))
    } else if e - s > 1_000_000 {
        Err(message("range too large (>1M hosts): ", token))
    } else {
        Ok(addr_span_vec(s, e))
    }
}

/// The spec view of a network parse outcome.
pub open spec fn parsed_view(p: Result<(u32, u8), String>) -> Result<(u32, u8), Seq<char>> {
    match p {
        Ok(v) => Ok(v),
        Err(m) => Err(m@),
    }
}

/// The hosts of a CIDR target, given what the network parser made of it.
pub fn cidr_hosts(token: &[char], parsed: Result<(u32, u8), String>) -> (r: Result<Vec<u32>, String>)
    ensures
        outcome(r) == cidr_addrs(token@, parsed_view(parsed)),
{
    match parsed {
        Err(msg) => {
            let mut v: Vec<char> = Vec::new();
            append_str(&mut v, "invalid CIDR ");
            append_chars(&mut v, token);
            append_str(&mut v, ": ");
            let mc = chars_of(msg.as_str());
            append_chars(&mut v, mc.as_slice());
            Err(string_of(v.as_slice()))
        },
        Ok((a, p)) => {
            if p < 8 {
                return Err(message("CIDR too large (prefix must be >= 8): ", token));
            }
            let h: u32 = if p >= 32 {
                0
            } else {
                0xffff_ffffu32 >> p
            };
            assert(h == host_mask(p));
            let n = a & !h;
            let b = a | h;
            let (first, last) = if p < 31 {
                assert(p < 31 ==> (0xffff_ffffu32 >> p) >= 3) by (bit_vector);
                assert(h >= 3 ==> (a | h) - (a & !h) == h && (a & !h) <= 0xffff_fffc) by (bit_vector);
                (n + 1, b - 1)
            } else {
                assert((a | h) >= (a & !h)) by (bit_vector);
                (n, b)
            };
            Ok(addr_span_vec(first, last))
        },
    }
}

/// What the network parser makes of a CIDR target: the network, or the
/// text of its error.
pub fn parse_cidr_target(token: &[char]) -> (r: Result<(u32, u8), String>)
    ensures
        parsed_view(r) == cidr_parse_outcome(token@),
{
    let t = string_of(token);
    match parse_ipv4_net(t.as_str()) {
        Ok(v) => Ok(v),
        Err(e) => Err(addr_parse_error_text(&e)),
    }
}

/// The addresses of one target, or the error message for it.
pub fn token_hosts(token: &[char]) -> (r: Result<Vec<u32>, String>)
    ensures
        outcome(r) == token_addrs(token@),
{
    let mut dash: Vec<char> = Vec::new();
    dash.push('-');
    assert(dash@ == seq!['-']);
    match find_chars(token, dash.as_slice()) {
        Some(k) => {
            proof {
                crate::text::lemma_find(token@, dash@);
                assert(crate::text::occurs_at(token@, dash@, k as int));
                assert(dash@.len() == 1);
                assert(k + 1 <= token@.len());
                assert(token@.len() == token.len());
            }
            let start = copy_range(token, 0, k);
            let end = copy_range(token, k + 1, token.len());
            assert(start@ == token@.take(k as int));
            assert(end@ == token@.skip(k + 1));
            range_hosts(token, start.as_slice(), end.as_slice())
        },
        None => {
            if has_char(token, '/') {
                let parsed = parse_cidr_target(token);
                cidr_hosts(token, parsed)
            } else {
                match parse_dotted(token) {
                    Some(a) => {
                        let mut v: Vec<u32> = Vec::new();
                        v.push(a);
                        assert(v@ == seq![a]);
                        Ok(v)
                    },
                    None => Err(message("invalid IP: ", token)),
                }
            }
        },
    }
}

/// The distinct addresses of `v`, in ascending order.
pub fn sorted_unique(v: Vec<u32>) -> (r: Vec<u32>)
    ensures
        strictly_ascending(r@),
        forall|x: u32| r@.contains(x) <==> v@.contains(x),
{
    let ghost orig = v@;
    let mut v = v;
    sort_u32(&mut v);
    assert forall|x: u32| v@.contains(x) <==> orig.contains(x) by {
        assert(v@.to_multiset().count(x) == orig.to_multiset().count(x));
    }
    let mut out: Vec<u32> = Vec::new();
    let mut i: usize = 0;
    while i < v.len()
        invariant
            i <= v.len(),
            forall|a: int, b: int| 0 <= a <= b < v@.len() ==> v@[a] <= v@[b],
            strictly_ascending(out@),
            forall|x: u32| out@.contains(x) <==> exists|j: int| 0 <= j < i && v@[j] == x,
            i > 0 ==> out@.len() > 0 && out@.last() == v@[i - 1],
            i == 0 ==> out@.len() == 0,
        decreases v.len() - i,
    {
        let x = v[i];
        if i == 0 || out[out.len() - 1] != x {
            let ghost old_out = out@;
            out.push(x);
            assert forall|y: u32| out@.contains(y) <==> exists|j: int| 0 <= j < i + 1 && v@[j] == y by {
                if out@.contains(y) {
                    let k = choose|k: int| 0 <= k < out@.len() && out@[k] == y;
                    if k < old_out.len() {
                        assert(old_out[k] == y);
                        assert(old_out.contains(y));
                    } else {
                        assert(v@[i as int] == y);
                    }
                }
                if exists|j: int| 0 <= j < i + 1 && v@[j] == y {
                    let j = choose|j: int| 0 <= j < i + 1 && v@[j] == y;
                    if j < i {
                        assert(old_out.contains(y));
                        let k = choose|k: int| 0 <= k < old_out.len() && old_out[k] == y;
                        assert(out@[k] == y);
                    } else {
                        assert(out@[out@.len() - 1] == y);
                    }
                }
            }
        } else {
            assert forall|y: u32| out@.contains(y) <==> exists|j: int| 0 <= j < i + 1 && v@[j] == y by {
                if exists|j: int| 0 <= j < i + 1 && v@[j] == y {
                    let j = choose|j: int| 0 <= j < i + 1 && v@[j] == y;
                    if j == i {
                        assert(v@[i - 1] == y);
                    }
                }
            }
        }
        i += 1;
    }
    assert forall|x: u32| out@.contains(x) <==> v@.contains(x) by {
        if v@.contains(x) {
            let j = choose|j: int| 0 <= j < v@.len() && v@[j] == x;
            assert(exists|j: int| 0 <= j < i && v@[j] == x);
        }
    }
    out
}

/// A failing prefix of the targets decides the outcome.
proof fn lemma_collect_err_prefix(tokens: Seq<Seq<char>>, k: int)
    requires
        0 <= k <= tokens.len(),
        collect_addrs(tokens.take(k)) is Err,
    ensures
        collect_addrs(tokens) == collect_addrs(tokens.take(k)),
    decreases tokens.len(),
{
    if k == tokens.len() {
        assert(tokens.take(k) == tokens);
    } else {
        assert(tokens.drop_last().take(k) == tokens.take(k));
        lemma_collect_err_prefix(tokens.drop_last(), k);
    }
}

/// Parses a target list into the sorted list of distinct addresses it names.
///
/// Fails with the message of the first target that is not valid, or with
/// "no targets provided" when the list names none.
pub fn parse_targets(input: &str) -> (r: Result<Vec<u32>, String>)
    ensures
        match collect_addrs(target_tokens(input@)) {
            Err(e) => r matches Err(m) && m@ == e,
            Ok(a) => if a.len() == 0 {
                r matches Err(m) && m@ == "no targets provided"@
            } else {
                r matches Ok(v) && strictly_ascending(v@) && forall|x: u32|
                    v@.contains(x) <==> a.contains(x)
            },
        },
        r matches Ok(v) ==> v@.len() > 0,
        r is Ok <==> targets_named(input@),
        r matches Ok(v) ==> targets_listed(input@, v@),
{
    let toks = target_tokens_of(input);
    let ghost tv = toks.deep_view();
    let mut out: Vec<u32> = Vec::new();
    let mut i: usize = 0;
    while i < toks.len()
        invariant
            i <= toks.len(),
            tv == toks.deep_view(),
            tv == target_tokens(input@),
            collect_addrs(tv.take(i as int)) == Ok::<Seq<u32>, Seq<char>>(out@),
        decreases toks.len() - i,
    {
        assert(tv.take(i as int + 1).drop_last() == tv.take(i as int));
        assert(toks@[i as int]@ == tv[i as int]);
        match token_hosts(toks[i].as_slice()) {
            Err(e) => {
                proof {
                    lemma_collect_err_prefix(tv, i as int + 1);
                }
                return Err(e);
            },
            Ok(h) => {
                let mut h = h;
                out.append(&mut h);
            },
        }
        i += 1;
    }
    assert(tv.take(toks.len() as int) == tv);
    if out.len() == 0 {
        return Err(string_of(chars_of("no targets provided").as_slice()));
    }
    let v = sorted_unique(out);
    assert(v@.contains(out@[0]));
    Ok(v)
}

} // verus!
