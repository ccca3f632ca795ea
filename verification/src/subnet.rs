//! Choosing the local subnet to offer as the default scan target, from the
//! IPv4 addresses of the machine's network interfaces.

use vstd::prelude::*;
use crate::addr::{dotted, octet, push_dotted};
use crate::text::{decimal, push_decimal, string_of};

verus! {

/// An IPv4 address of a network interface, with its netmask.
#[derive(Debug)]
pub struct InterfaceV4 {
    pub name: String,
    pub ip: u32,
    pub netmask: u32,
}

impl View for InterfaceV4 {
    type V = (Seq<char>, u32, u32);

    open spec fn view(&self) -> (Seq<char>, u32, u32) {
        (self.name@, self.ip, self.netmask)
    }
}

/// The number of one bits (`u32::count_ones`).
pub open spec fn ones(x: u32) -> nat
    decreases x,
{
    if x == 0 {
        0
    } else {
        (x % 2) as nat + ones(x / 2)
    }
}

/// 127.0.0.0/8 (`Ipv4Addr::is_loopback`).
pub open spec fn is_loopback(ip: u32) -> bool {
    octet(ip, 0) == 127
}

/// An interface worth offering: an address that is not loopback, with a
/// prefix length (the netmask's one bits) from 8 to 30.
pub open spec fn is_candidate(i: (Seq<char>, u32, u32)) -> bool {
    !is_loopback(i.1) && 8 <= ones(i.2) <= 30
}

/// The index of the first candidate among `s`, at or after `k`.
pub open spec fn first_candidate_from(s: Seq<(Seq<char>, u32, u32)>, k: int) -> Option<int>
    decreases s.len() - k,
{
    if k < 0 || k >= s.len() {
        None
    } else if is_candidate(s[k]) {
        Some(k)
    } else {
        first_candidate_from(s, k + 1)
    }
}

/// The index of the interface chosen among `s`: the first candidate.
pub open spec fn best_index(s: Seq<(Seq<char>, u32, u32)>) -> Option<int> {
    first_candidate_from(s, 0)
}

/// The network of an interface in CIDR notation (`a.b.c.d/p`).
pub open spec fn cidr_text(i: (Seq<char>, u32, u32)) -> Seq<char> {
    dotted(i.1 & i.2) + seq!['/'] + decimal(ones(i.2))
}

/// The subnet offered, if any.
pub open spec fn chosen_subnet(s: Seq<(Seq<char>, u32, u32)>) -> Option<Seq<char>> {
    match best_index(s) {
        Some(i) => Some(cidr_text(s[i])),
        None => None,
    }
}

proof fn lemma_first_candidate_from(s: Seq<(Seq<char>, u32, u32)>, k: int)
    requires
        0 <= k,
    ensures
        first_candidate_from(s, k) is None <==> forall|j: int|
            k <= j < s.len() ==> !is_candidate(#[trigger] s[j]),
        first_candidate_from(s, k) matches Some(i) ==> k <= i < s.len() && is_candidate(s[i])
            && forall|j: int| k <= j < i ==> !is_candidate(#[trigger] s[j]),
    decreases s.len() - k,
{
    if k < s.len() && !is_candidate(s[k]) {
        lemma_first_candidate_from(s, k + 1);
    }
}

/// The interface chosen is the first one that is not loopback and has a
/// prefix from /8 to /30; none is chosen exactly when there is no such
/// interface.
pub proof fn lemma_best_index(s: Seq<(Seq<char>, u32, u32)>)
    ensures
        best_index(s) is None <==> forall|j: int| 0 <= j < s.len() ==> !is_candidate(#[trigger] s[j]),
        best_index(s) matches Some(i) ==> {
            &&& 0 <= i < s.len()
            &&& is_candidate(s[i])
            &&& forall|j: int| 0 <= j < i ==> !is_candidate(#[trigger] s[j])
        },
{
    lemma_first_candidate_from(s, 0);
}

/// The subnet offered is that of the first interface whose address is not
/// in 127.0.0.0/8 and whose netmask has from 8 to 30 one bits, written
/// `a.b.c.d/p` with the address masked by the netmask and `p` the number of
/// one bits; none is offered exactly when no interface is like that.
pub proof fn lemma_first_usable_interface(s: Seq<(Seq<char>, u32, u32)>, i: int)
    ensures
        chosen_subnet(s) is None <==> forall|j: int|
            0 <= j < s.len() ==> !((#[trigger] s[j]).1 / 16777216 != 127 && 8 <= ones(s[j].2) <= 30),
        0 <= i < s.len() && s[i].1 / 16777216 != 127 && 8 <= ones(s[i].2) <= 30 && (forall|j: int|
            0 <= j < i ==> !((#[trigger] s[j]).1 / 16777216 != 127 && 8 <= ones(s[j].2) <= 30))
            ==> chosen_subnet(s) == Some(dotted(s[i].1 & s[i].2) + seq!['/'] + decimal(ones(s[i].2))),
{
    lemma_best_index(s);
    assert forall|j: int| 0 <= j < s.len() implies is_candidate(#[trigger] s[j]) == (s[j].1
        / 16777216 != 127 && 8 <= ones(s[j].2) <= 30) by {}
    if 0 <= i < s.len() && is_candidate(s[i]) && forall|j: int|
        0 <= j < i ==> !is_candidate(#[trigger] s[j]) {
        if let Some(k) = best_index(s) {
            if k < i {
                assert(!is_candidate(s[k]));
            }
            if i < k {
                assert(!is_candidate(s[i]));
            }
        }
    }
}

proof fn lemma_ones_at_most(x: u32)
    ensures
        ones(x) <= x,
    decreases x,
{
    if x > 0 {
        lemma_ones_at_most(x / 2);
    }
}

fn count_ones(x: u32) -> (c: u32)
    ensures
        c == ones(x),
{
    proof {
        lemma_ones_at_most(x);
    }
    let mut y = x;
    let mut c: u32 = 0;
    while y > 0
        invariant
            ones(x) == c + ones(y),
            ones(x) <= x,
        decreases y,
    {
        c = c + y % 2;
        y = y / 2;
    }
    c
}

fn is_candidate_exec(i: &InterfaceV4) -> (b: bool)
    ensures
        b == is_candidate(i@),
{
    let loopback = i.ip / 16777216 == 127;
    let p = count_ones(i.netmask);
    !loopback && 8 <= p && p <= 30
}

/// Picks the local subnet to offer: the network, in CIDR notation, of the
/// first interface whose address is not loopback and whose prefix length is
/// from /8 to /30.
pub fn choose_subnet(ifaces: &[InterfaceV4]) -> (r: Option<String>)
    ensures
        r.deep_view() == chosen_subnet(ifaces@.map_values(|i: InterfaceV4| i@)),
{
    let ghost s = ifaces@.map_values(|i: InterfaceV4| i@);
    let mut k: usize = 0;
    while k < ifaces.len()
        invariant
            k <= ifaces.len(),
            s == ifaces@.map_values(|i: InterfaceV4| i@),
            best_index(s) == first_candidate_from(s, k as int),
        decreases ifaces.len() - k,
    {
        let i = &ifaces[k];
        assert(s[k as int] == i@);
        if is_candidate_exec(i) {
            let mut v: Vec<char> = Vec::new();
            push_dotted(&mut v, i.ip & i.netmask);
            v.push('/');
            push_decimal(&mut v, count_ones(i.netmask));
            return Some(string_of(v.as_slice()));
        }
        k += 1;
    }
    None
}

} // verus!
