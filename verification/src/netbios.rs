//! NetBIOS node status (NBSTAT): the query packet sent to UDP port 137 and
//! the parser of the reply, which yields the computer name and workgroup.

use vstd::prelude::*;
use crate::text::{
    chars_of, is_white, lemma_trim_end_idempotent, string_of, trim_end, trimmed_end, utf8_lossy,
    utf8_lossy_text,
};

verus! {

/// The NBSTAT query: a fixed 50-byte packet. The queried name is the
/// wildcard `*` in NetBIOS first-level encoding (`CKAA..AA`, 32 characters
/// after the length byte 0x20, then the terminating 0x00), question type
/// 0x0021 (NBSTAT), class 0x0001.
pub const NBSTAT_QUERY: [u8; 50] = [
    0x12, 0x34, 0x00, 0x10, 0x00, 0x01, 0x00, 0x00, 0x00, 0x00, 0x00, 0x00, 0x20, 0x43, 0x4b,
    0x41, 0x41, 0x41, 0x41, 0x41, 0x41, 0x41, 0x41, 0x41, 0x41, 0x41, 0x41, 0x41, 0x41, 0x41,
    0x41, 0x41, 0x41, 0x41, 0x41, 0x41, 0x41, 0x41, 0x41, 0x41, 0x41, 0x41, 0x41, 0x41, 0x41,
    0x00, 0x00, 0x21, 0x00, 0x01,
];

/// The names a host reports: its computer name and, when it reports one,
/// its workgroup.
#[derive(Debug)]
pub struct NetbiosInfo {
    pub name: String,
    pub workgroup: Option<String>,
}

/// The abstract value of a [`NetbiosInfo`].
pub struct NetbiosInfoView {
    pub name: Seq<char>,
    pub workgroup: Option<Seq<char>>,
}

impl View for NetbiosInfo {
    type V = NetbiosInfoView;

    open spec fn view(&self) -> NetbiosInfoView {
        NetbiosInfoView { name: self.name@, workgroup: self.workgroup.deep_view() }
    }
}

/// The abstract value of an optional [`NetbiosInfo`].
pub open spec fn info_view(r: Option<NetbiosInfo>) -> Option<NetbiosInfoView> {
    match r {
        Some(i) => Some(i@),
        None => None,
    }
}

/// One name record of a reply, as bytes: the 15 name bytes, the suffix
/// byte and the high byte of the flags.
pub struct NameRecord {
    pub raw: Vec<u8>,
    pub suffix: u8,
    pub flags: u8,
}

impl View for NameRecord {
    type V = (Seq<u8>, u8, u8);

    open spec fn view(&self) -> (Seq<u8>, u8, u8) {
        (self.raw@, self.suffix, self.flags)
    }
}

/// One name record with its name decoded as text (not yet trimmed) and its
/// group flag.
pub struct NameEntry {
    pub name: String,
    pub suffix: u8,
    pub group: bool,
}

impl View for NameEntry {
    type V = (Seq<char>, u8, bool);

    open spec fn view(&self) -> (Seq<char>, u8, bool) {
        (self.name@, self.suffix, self.group)
    }
}

// ---------------------------------------------------------------------
// Reply layout
// ---------------------------------------------------------------------

/// Skips the labels of a literal DNS name starting at `pos`: the index of
/// its terminating zero byte (or the first index past the data).
pub open spec fn label_end(data: Seq<u8>, pos: int) -> int
    decreases data.len() + 256 - pos,
{
    if 0 <= pos < data.len() && data[pos] != 0 {
        label_end(data, pos + 1 + data[pos])
    } else {
        pos
    }
}

/// The index just past the answer record's NAME field, which starts after
/// the 12-byte header: a compression pointer (two bytes whose first has the
/// top two bits set) or a literal name.
pub open spec fn name_field_end(data: Seq<u8>) -> int {
    if data[12] & 0xC0 == 0xC0 {
        14
    } else {
        label_end(data, 12) + 1
    }
}

/// The index of the name count byte: after NAME come type (2), class (2),
/// TTL (4) and RDLENGTH (2).
pub open spec fn name_count_index(data: Seq<u8>) -> int {
    name_field_end(data) + 10
}

/// How many 18-byte records are read: at most `wanted`, and only while a
/// whole record fits in the `avail` bytes left.
pub open spec fn record_count(avail: int, wanted: int) -> int
    decreases wanted,
{
    if wanted <= 0 || avail < 18 {
        0
    } else {
        1 + record_count(avail - 18, wanted - 1)
    }
}

/// The record that starts at `q`.
pub open spec fn record_at(data: Seq<u8>, q: int) -> (Seq<u8>, u8, u8) {
    (data.subrange(q, q + 15), data[q + 15], data[q + 16])
}

/// The name records of an NBSTAT reply: none when the reply is shorter than
/// 13 bytes or ends before the name count; otherwise as many of the counted
/// records as fit, in order.
pub open spec fn name_records(data: Seq<u8>) -> Option<Seq<(Seq<u8>, u8, u8)>> {
    if data.len() < 13 {
        None
    } else {
        let c = name_count_index(data);
        if c >= data.len() {
            None
        } else {
            let n = record_count(data.len() - (c + 1), data[c] as int);
            Some(Seq::new(n as nat, |k: int| record_at(data, c + 1 + 18 * k)))
        }
    }
}

// ---------------------------------------------------------------------
// Choosing the names
// ---------------------------------------------------------------------

/// A computer name: a unique name with suffix 0x00.
pub open spec fn is_computer_entry(e: (Seq<char>, u8, bool)) -> bool {
    trim_end(e.0).len() > 0 && e.1 == 0 && !e.2
}

/// A workgroup name: a group name with suffix 0x00, or suffix 0x1E.
pub open spec fn is_workgroup_entry(e: (Seq<char>, u8, bool)) -> bool {
    trim_end(e.0).len() > 0 && ((e.1 == 0 && e.2) || e.1 == 0x1E)
}

/// The trimmed name of the first computer entry.
pub open spec fn computer_name(es: Seq<(Seq<char>, u8, bool)>) -> Option<Seq<char>>
    decreases es.len(),
{
    if es.len() == 0 {
        None
    } else if is_computer_entry(es[0]) {
        Some(trim_end(es[0].0))
    } else {
        computer_name(es.skip(1))
    }
}

/// The trimmed name of the first workgroup entry.
pub open spec fn workgroup_name(es: Seq<(Seq<char>, u8, bool)>) -> Option<Seq<char>>
    decreases es.len(),
{
    if es.len() == 0 {
        None
    } else if is_workgroup_entry(es[0]) {
        Some(trim_end(es[0].0))
    } else {
        workgroup_name(es.skip(1))
    }
}

/// A name in the form it is reported: not empty, and not ending in white
/// space.
pub open spec fn reported_name(n: Seq<char>) -> bool {
    n.len() > 0 && !is_white(n.last())
}

proof fn lemma_names_reported(es: Seq<(Seq<char>, u8, bool)>)
    ensures
        computer_name(es) matches Some(n) ==> reported_name(n),
        workgroup_name(es) matches Some(w) ==> reported_name(w),
    decreases es.len(),
{
    if es.len() > 0 {
        lemma_trim_end_idempotent(es[0].0);
        lemma_names_reported(es.skip(1));
    }
}

proof fn lemma_computer_name_from(es: Seq<(Seq<char>, u8, bool)>)
    ensures
        computer_name(es) matches Some(n) ==> exists|i: int|
            0 <= i < es.len() && (#[trigger] es[i]).1 == 0 && !es[i].2 && trim_end(es[i].0) == n
                && n.len() > 0 && forall|j: int|
                0 <= j < i ==> !((#[trigger] es[j]).1 == 0 && !es[j].2 && trim_end(es[j].0).len()
                    > 0),
        computer_name(es) is None <==> forall|j: int|
            0 <= j < es.len() ==> !((#[trigger] es[j]).1 == 0 && !es[j].2 && trim_end(es[j].0).len()
                > 0),
    decreases es.len(),
{
    if es.len() > 0 {
        let t = es.skip(1);
        lemma_computer_name_from(t);
        assert forall|j: int| 0 <= j < t.len() implies #[trigger] t[j] == es[j + 1] by {}
        if !is_computer_entry(es[0]) {
            if let Some(n) = computer_name(t) {
                let i = choose|i: int|
                    0 <= i < t.len() && (#[trigger] t[i]).1 == 0 && !t[i].2 && trim_end(t[i].0)
                        == n && n.len() > 0 && forall|j: int|
                        0 <= j < i ==> !((#[trigger] t[j]).1 == 0 && !t[j].2 && trim_end(
                            t[j].0,
                        ).len() > 0);
                assert(es[i + 1] == t[i]);
                assert forall|j: int| 0 <= j < i + 1 implies !((#[trigger] es[j]).1 == 0
                    && !es[j].2 && trim_end(es[j].0).len() > 0) by {
                    if j > 0 {
                        assert(es[j] == t[j - 1]);
                    }
                }
            } else {
                assert forall|j: int| 0 <= j < es.len() implies !((#[trigger] es[j]).1 == 0
                    && !es[j].2 && trim_end(es[j].0).len() > 0) by {
                    if j > 0 {
                        assert(es[j] == t[j - 1]);
                    }
                }
            }
        }
    }
}

proof fn lemma_workgroup_name_from(es: Seq<(Seq<char>, u8, bool)>)
    ensures
        workgroup_name(es) matches Some(n) ==> exists|i: int|
            0 <= i < es.len() && ((#[trigger] es[i]).1 == 0 && es[i].2 || es[i].1 == 0x1E)
                && trim_end(es[i].0) == n && n.len() > 0 && forall|j: int|
                0 <= j < i ==> !(((#[trigger] es[j]).1 == 0 && es[j].2 || es[j].1 == 0x1E)
                    && trim_end(es[j].0).len() > 0),
        workgroup_name(es) is None <==> forall|j: int|
            0 <= j < es.len() ==> !(((#[trigger] es[j]).1 == 0 && es[j].2 || es[j].1 == 0x1E)
                && trim_end(es[j].0).len() > 0),
    decreases es.len(),
{
    if es.len() > 0 {
        let t = es.skip(1);
        lemma_workgroup_name_from(t);
        assert forall|j: int| 0 <= j < t.len() implies #[trigger] t[j] == es[j + 1] by {}
        if !is_workgroup_entry(es[0]) {
            if let Some(n) = workgroup_name(t) {
                let i = choose|i: int|
                    0 <= i < t.len() && ((#[trigger] t[i]).1 == 0 && t[i].2 || t[i].1 == 0x1E)
                        && trim_end(t[i].0) == n && n.len() > 0 && forall|j: int|
                        0 <= j < i ==> !(((#[trigger] t[j]).1 == 0 && t[j].2 || t[j].1 == 0x1E)
                            && trim_end(t[j].0).len() > 0);
                assert(es[i + 1] == t[i]);
                assert forall|j: int| 0 <= j < i + 1 implies !(((#[trigger] es[j]).1 == 0
                    && es[j].2 || es[j].1 == 0x1E) && trim_end(es[j].0).len() > 0) by {
                    if j > 0 {
                        assert(es[j] == t[j - 1]);
                    }
                }
            } else {
                assert forall|j: int| 0 <= j < es.len() implies !(((#[trigger] es[j]).1 == 0
                    && es[j].2 || es[j].1 == 0x1E) && trim_end(es[j].0).len() > 0) by {
                    if j > 0 {
                        assert(es[j] == t[j - 1]);
                    }
                }
            }
        }
    }
}

/// The computer name is the first name, trimmed of trailing white space
/// and not blank, registered as unique (group flag clear) with suffix 0x00;
/// the workgroup is the first such name registered as a group with suffix
/// 0x00, or with suffix 0x1E. No names are reported without a computer
/// name.
pub proof fn lemma_name_choice_rules(es: Seq<(Seq<char>, u8, bool)>)
    ensures
        chosen_names(es) is None <==> forall|j: int|
            0 <= j < es.len() ==> !((#[trigger] es[j]).1 == 0 && !es[j].2 && trim_end(es[j].0).len()
                > 0),
        chosen_names(es) matches Some(info) ==> exists|i: int|
            0 <= i < es.len() && (#[trigger] es[i]).1 == 0 && !es[i].2 && trim_end(es[i].0)
                == info.name && info.name.len() > 0 && forall|j: int|
                0 <= j < i ==> !((#[trigger] es[j]).1 == 0 && !es[j].2 && trim_end(es[j].0).len()
                    > 0),
        chosen_names(es) matches Some(info) ==> (info.workgroup matches Some(w) ==> exists|i: int|
            0 <= i < es.len() && ((#[trigger] es[i]).1 == 0 && es[i].2 || es[i].1 == 0x1E)
                && trim_end(es[i].0) == w && forall|j: int|
                0 <= j < i ==> !(((#[trigger] es[j]).1 == 0 && es[j].2 || es[j].1 == 0x1E)
                    && trim_end(es[j].0).len() > 0)),
        chosen_names(es) matches Some(info) ==> (info.workgroup is None <==> forall|j: int|
            0 <= j < es.len() ==> !(((#[trigger] es[j]).1 == 0 && es[j].2 || es[j].1 == 0x1E)
                && trim_end(es[j].0).len() > 0)),
{
    lemma_computer_name_from(es);
    lemma_workgroup_name_from(es);
}

/// A name record is a group name exactly when the flags' high byte is
/// 0x80 or more (its top bit is set).
pub proof fn lemma_group_flag(flags: u8)
    ensures
        group_flag(flags) <==> flags >= 0x80,
{
    assert(flags & 0x80 != 0 <==> flags >= 0x80) by (bit_vector);
}

/// The names a host reports: none without a computer name.
pub open spec fn chosen_names(es: Seq<(Seq<char>, u8, bool)>) -> Option<NetbiosInfoView> {
    match computer_name(es) {
        Some(n) => Some(NetbiosInfoView { name: n, workgroup: workgroup_name(es) }),
        None => None,
    }
}

/// Whether the group bit (the top bit of the flags' high byte) is set.
pub open spec fn group_flag(flags: u8) -> bool {
    flags & 0x80 != 0
}

/// The records with their names decoded as `String::from_utf8_lossy` does.
pub open spec fn decoded_entries(rs: Seq<(Seq<u8>, u8, u8)>) -> Seq<(Seq<char>, u8, bool)> {
    rs.map_values(|r: (Seq<u8>, u8, u8)| (utf8_lossy_text(r.0), r.1, group_flag(r.2)))
}

/// What a reply tells: no answer when it has no records to read, else the
/// names chosen from its decoded records.
pub open spec fn nbstat_reply_info(data: Seq<u8>) -> Option<NetbiosInfoView> {
    match name_records(data) {
        None => None,
        Some(rs) => chosen_names(decoded_entries(rs)),
    }
}

/// A reply shorter than the 12-byte header and one byte of the answer tells
/// nothing.
pub proof fn lemma_short_reply_tells_nothing(data: Seq<u8>)
    requires
        data.len() < 13,
    ensures
        nbstat_reply_info(data) is None,
{
}

/// The computer name and the workgroup that a reply yields are never empty
/// and never end in white space: padding is trimmed, and records whose name
/// is blank are passed over.
pub proof fn lemma_reply_names_trimmed(data: Seq<u8>)
    ensures
        nbstat_reply_info(data) matches Some(info) ==> reported_name(info.name) && (
        info.workgroup matches Some(w) ==> reported_name(w)),
{
    if name_records(data) is Some {
        lemma_names_reported(decoded_entries(name_records(data)->0));
    }
}

// ---------------------------------------------------------------------
// Implementation
// ---------------------------------------------------------------------

/// The name records of an NBSTAT reply.
pub fn nbstat_records(data: &[u8]) -> (r: Option<Vec<NameRecord>>)
    ensures
        match r {
            None => name_records(data@) is None,
            Some(v) => name_records(data@) == Some(v@.map_values(|x: NameRecord| x@)),
        },
{
    if data.len() < 13 {
        return None;
    }
    let mut pos: usize = 12;
    if data[pos] & 0xC0 == 0xC0 {
        pos += 2;
    } else {
        while data[pos] != 0
            invariant
                12 <= pos < data.len(),
                data@[12] & 0xC0 != 0xC0,
                label_end(data@, 12) == label_end(data@, pos as int),
            decreases data.len() - pos,
        {
            if data[pos] as usize >= data.len() - pos - 1 {
                // the name runs past the end of the reply
                assert(label_end(data@, pos + 1 + data@[pos as int]) == pos + 1 + data@[pos as int]);
                assert(label_end(data@, pos as int) == pos + 1 + data@[pos as int]);
                return None;
            }
            pos += 1 + data[pos] as usize;
        }
        pos += 1;
    }
    assert(pos == name_field_end(data@));
    if pos >= data.len() || data.len() - pos <= 10 {
        return None;
    }
    pos += 10;
    let c = pos;
    let wanted = data[pos] as usize;
    pos += 1;
    let ghost total = record_count(data.len() - (c + 1), wanted as int);
    let mut out: Vec<NameRecord> = Vec::new();
    let mut k: usize = 0;
    while k < wanted
        invariant
            c < data.len(),
            wanted == data@[c as int],
            c == name_count_index(data@),
            pos == c + 1 + 18 * k,
            pos <= data.len(),
            k <= wanted,
            total == record_count(data.len() - (c + 1), wanted as int),
            total == k + record_count(data.len() - pos, wanted - k),
            out@.len() == k,
            forall|j: int| 0 <= j < k ==> (#[trigger] out@[j])@ == record_at(data@, c + 1 + 18 * j),
        ensures
            k == wanted || data.len() - pos < 18,
            total == k + record_count(data.len() - pos, wanted - k),
            pos == c + 1 + 18 * k,
            out@.len() == k,
            forall|j: int| 0 <= j < k ==> (#[trigger] out@[j])@ == record_at(data@, c + 1 + 18 * j),
        decreases wanted - k,
    {
        if data.len() - pos < 18 {
            break;
        }
        let raw = {
            let mut raw: Vec<u8> = Vec::new();
            let mut t: usize = 0;
            while t < 15
                invariant
                    pos + 18 <= data.len(),
                    t <= 15,
                    raw@ == data@.subrange(pos as int, pos + t),
                decreases 15 - t,
            {
                raw.push(data[pos + t]);
                assert(data@.subrange(pos as int, pos + t + 1) == data@.subrange(
                    pos as int,
                    pos + t,
                ).push(data@[pos + t]));
                t += 1;
            }
            raw
        };
        let rec = NameRecord { raw, suffix: data[pos + 15], flags: data[pos + 16] };
        assert(rec@ == record_at(data@, c + 1 + 18 * k));
        out.push(rec);
        pos += 18;
        k += 1;
    }
    assert(record_count(data.len() - pos, wanted - k) == 0);
    assert(out@.map_values(|x: NameRecord| x@) =~= Seq::new(
        total as nat,
        |j: int| record_at(data@, c + 1 + 18 * j),
    ));
    Some(out)
}

/// Chooses the computer name and workgroup among decoded name records.
pub fn select_netbios_names(entries: &[NameEntry]) -> (r: Option<NetbiosInfo>)
    ensures
        info_view(r) == chosen_names(entries@.map_values(|e: NameEntry| e@)),
{
    let ghost es = entries@.map_values(|e: NameEntry| e@);
    let mut computer: Option<String> = None;
    let mut workgroup: Option<String> = None;
    let mut i: usize = 0;
    assert(es.skip(0) == es);
    while i < entries.len()
        invariant
            i <= entries.len(),
            es == entries@.map_values(|e: NameEntry| e@),
            computer.deep_view() == (if computer is None {
                None::<Seq<char>>
            } else {
                computer_name(es)
            }),
            computer is None ==> computer_name(es) == computer_name(es.skip(i as int)),
            workgroup is None ==> workgroup_name(es) == workgroup_name(es.skip(i as int)),
            workgroup is Some ==> workgroup.deep_view() == workgroup_name(es),
        decreases entries.len() - i,
    {
        let e = &entries[i];
        assert(es.skip(i as int)[0] == e@);
        assert(es.skip(i as int).skip(1) == es.skip(i + 1));
        let ec = chars_of(e.name.as_str());
        let t = trimmed_end(ec.as_slice());
        if t.len() > 0 {
            if e.suffix == 0 && !e.group && computer.is_none() {
                computer = Some(string_of(t.as_slice()));
            } else if ((e.suffix == 0 && e.group) || e.suffix == 0x1E) && workgroup.is_none() {
                workgroup = Some(string_of(t.as_slice()));
            }
        }
        i += 1;
    }
    assert(es.skip(entries.len() as int).len() == 0);
    match computer {
        Some(name) => Some(NetbiosInfo { name, workgroup }),
        None => None,
    }
}

/// Parses an NBSTAT reply into the computer name and workgroup it reports.
pub fn parse_nbstat_reply(data: &[u8]) -> (r: Option<NetbiosInfo>)
    ensures
        info_view(r) == nbstat_reply_info(data@),
{
    let recs = match nbstat_records(data) {
        Some(v) => v,
        None => return None,
    };
    let ghost rs = recs@.map_values(|x: NameRecord| x@);
    let mut entries: Vec<NameEntry> = Vec::new();
    let mut i: usize = 0;
    while i < recs.len()
        invariant
            i <= recs.len(),
            rs == recs@.map_values(|x: NameRecord| x@),
            entries@.map_values(|e: NameEntry| e@) == decoded_entries(rs).take(i as int),
        decreases recs.len() - i,
    {
        let rec = &recs[i];
        let name = utf8_lossy(rec.raw.as_slice());
        let entry = NameEntry { name, suffix: rec.suffix, group: rec.flags & 0x80 != 0 };
        let ghost before = entries@.map_values(|e: NameEntry| e@);
        entries.push(entry);
        assert(entries@.map_values(|e: NameEntry| e@) == before.push(entry@));
        assert(decoded_entries(rs).take(i as int + 1) == decoded_entries(rs).take(i as int).push(
            decoded_entries(rs)[i as int],
        ));
        i += 1;
    }
    assert(decoded_entries(rs).take(recs.len() as int) == decoded_entries(rs));
    select_netbios_names(entries.as_slice())
}

} // verus!
