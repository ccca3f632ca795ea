//! Port lists: membership, and the ascending list of the ports that a probe
//! found open.

use vstd::prelude::*;

verus! {

broadcast use vstd::seq_lib::group_to_multiset_ensures;

/// Whether `p` is one of `ports`.
pub fn has_port(ports: &[u16], p: u16) -> (b: bool)
    ensures
        b == ports@.contains(p),
{
    let mut i: usize = 0;
    while i < ports.len()
        invariant
            i <= ports.len(),
            forall|j: int| 0 <= j < i ==> ports@[j] != p,
        decreases ports.len() - i,
    {
        if ports[i] == p {
            assert(ports@[i as int] == p);
            return true;
        }
        i += 1;
    }
    false
}

/// Ascending order, repetitions allowed.
pub open spec fn ascending(v: Seq<u32>) -> bool {
    forall|i: int, j: int| 0 <= i <= j < v.len() ==> v[i] <= v[j]
}

/// Sorts numbers (std `slice::sort_unstable`): the result is in ascending
/// order and holds the same numbers, each as often as before.
#[verifier::external_body]
pub(crate) fn sort_u32(v: &mut Vec<u32>)
    ensures
        ascending(final(v)@),
        final(v)@.to_multiset() == old(v)@.to_multiset(),
{
    v.sort_unstable();
}

/// The ports whose probe succeeded, in probe order.
pub open spec fn open_ports_in(probes: Seq<(u16, bool)>) -> Seq<u16>
    decreases probes.len(),
{
    if probes.len() == 0 {
        Seq::empty()
    } else if probes.last().1 {
        open_ports_in(probes.drop_last()).push(probes.last().0)
    } else {
        open_ports_in(probes.drop_last())
    }
}

/// Port numbers widened to `u32`.
pub open spec fn widen(v: Seq<u16>) -> Seq<u32> {
    v.map_values(|p: u16| p as u32)
}

/// The ports that a probe found open, in ascending order: each probe
/// result `(port, open)` contributes its port when `open` holds.
pub fn open_ports_sorted(probes: &[(u16, bool)]) -> (r: Vec<u16>)
    ensures
        ascending(widen(r@)),
        widen(r@).to_multiset() == widen(open_ports_in(probes@)).to_multiset(),
{
    let mut wide: Vec<u32> = Vec::new();
    let mut i: usize = 0;
    while i < probes.len()
        invariant
            i <= probes.len(),
            wide@ == widen(open_ports_in(probes@.take(i as int))),
        decreases probes.len() - i,
    {
        assert(probes@.take(i as int + 1).drop_last() == probes@.take(i as int));
        let (p, open) = probes[i];
        if open {
            wide.push(p as u32);
            assert(wide@ == widen(open_ports_in(probes@.take(i as int + 1))));
        }
        i += 1;
    }
    assert(probes@.take(probes.len() as int) == probes@);
    let ghost before = wide@;
    sort_u32(&mut wide);
    assert forall|j: int| 0 <= j < wide@.len() implies wide@[j] < 65536 by {
        let x = wide@[j];
        assert(wide@.contains(x));
        assert(wide@.to_multiset().count(x) == before.to_multiset().count(x));
        assert(before.contains(x));
        let k = choose|k: int| 0 <= k < before.len() && before[k] == x;
    }
    let mut out: Vec<u16> = Vec::new();
    let mut k: usize = 0;
    while k < wide.len()
        invariant
            k <= wide.len(),
            forall|j: int| 0 <= j < wide@.len() ==> wide@[j] < 65536,
            widen(out@) == wide@.take(k as int),
        decreases wide.len() - k,
    {
        assert(wide@.take(k as int + 1) == wide@.take(k as int).push(wide@[k as int]));
        out.push(wide[k] as u16);
        k += 1;
    }
    assert(wide@.take(wide.len() as int) == wide@);
    out
}

} // verus!
