//! Manufacturer lookup by the OUI (the first three bytes) of a MAC address.
//!
//! The table is a hand-picked subset of the IEEE OUI registry, focused on
//! vendors common in IT and help-desk environments: enterprise network gear,
//! hypervisors, common workstation, printer and camera brands, popular IoT.
//! Where a prefix is listed twice the first entry decides.

use vstd::prelude::*;
use crate::text::{
    ascii_lower_char, chars_eq, chars_of, copy_range, is_hex_digit, is_hex_digit_char, lower_char,
    lower_text,
};

verus! {

/// Known OUI prefixes (lower-case hexadecimal) and their vendors, in lookup
/// order.
pub const OUI_TABLE: [(&'static str, &'static str); 215] = [
    // Hypervisors / virtualization
    ("000c29", "VMware"), ("005056", "VMware"), ("001c14", "VMware"),
    ("000569", "VMware"), ("000e0c", "VMware"),
    ("080027", "VirtualBox"),
    ("00155d", "Microsoft Hyper-V"), ("000d3a", "Microsoft"),
    ("001dd8", "Microsoft"),
    ("001c42", "Parallels"),
    // Apple
    ("0017f2", "Apple"), ("0021e9", "Apple"), ("002241", "Apple"),
    ("002332", "Apple"), ("002500", "Apple"), ("002608", "Apple"),
    ("00264a", "Apple"), ("0c74c2", "Apple"), ("3c0754", "Apple"),
    ("3c15c2", "Apple"), ("5c95ae", "Apple"), ("70cd60", "Apple"),
    ("78a3e4", "Apple"), ("88c663", "Apple"), ("a4b197", "Apple"),
    ("ace4b5", "Apple"), ("b8c75d", "Apple"), ("d49a20", "Apple"),
    ("dc2b61", "Apple"), ("e0acf1", "Apple"), ("f0dbe2", "Apple"),
    // Cisco (incl. Linksys/Meraki)
    ("0001c7", "Cisco"), ("0007ec", "Cisco"), ("000bbe", "Cisco"),
    ("000c30", "Cisco"), ("000e08", "Cisco"), ("000ed7", "Cisco"),
    ("0011bb", "Cisco"), ("00146a", "Cisco"), ("0017df", "Cisco"),
    ("001a2f", "Cisco"), ("001bd4", "Cisco"), ("001ef7", "Cisco"),
    ("0021a0", "Cisco"), ("0022bd", "Cisco"), ("0023ac", "Cisco"),
    ("0024c4", "Cisco"), ("002608", "Cisco"), ("0026cb", "Cisco"),
    ("00583b", "Cisco"), ("64a0e7", "Cisco"), ("6c41f7", "Cisco"),
    ("e0acf1", "Cisco"), ("3417eb", "Cisco-Meraki"), ("e0cb1d", "Cisco-Meraki"),
    ("002584", "Cisco-Linksys"), ("000fcb", "Cisco-Linksys"),
    // HPE / Aruba
    ("001f29", "HPE"), ("002264", "HPE"), ("0030c1", "HPE"),
    ("0080a1", "HPE"), ("3c4a92", "HPE"), ("78acc0", "HPE"),
    ("9c8e99", "HPE"), ("a45d36", "HPE"), ("ec9a74", "HPE"),
    ("0024a8", "HPE-Aruba"), ("6c0b84", "HPE-Aruba"),
    ("80e828", "HPE-Aruba"), ("84d47e", "HPE-Aruba"),
    // Dell
    ("00065b", "Dell"), ("00086b", "Dell"), ("000874", "Dell"),
    ("000bdb", "Dell"), ("000d56", "Dell"), ("000f1f", "Dell"),
    ("00115b", "Dell"), ("00188b", "Dell"), ("0019b9", "Dell"),
    ("001ec9", "Dell"), ("001fa0", "Dell"), ("002219", "Dell"),
    ("00248c", "Dell"), ("0026b9", "Dell"), ("18a99b", "Dell"),
    ("a41f72", "Dell"), ("b083fe", "Dell"), ("d067e5", "Dell"),
    ("d4ae52", "Dell"), ("ec2280", "Dell"), ("f48e38", "Dell"),
    // Ubiquiti
    ("0418d6", "Ubiquiti"), ("245a4c", "Ubiquiti"), ("245afc", "Ubiquiti"),
    ("44d9e7", "Ubiquiti"), ("687251", "Ubiquiti"), ("802aa8", "Ubiquiti"),
    ("80f5ac", "Ubiquiti"), ("9c0571", "Ubiquiti"), ("ac8bf9", "Ubiquiti"),
    ("acf7f3", "Ubiquiti"), ("b4fbe4", "Ubiquiti"), ("dc9fdb", "Ubiquiti"),
    ("f09fc2", "Ubiquiti"), ("fcec4d", "Ubiquiti"),
    // Lenovo
    ("002590", "Lenovo"), ("002564", "Lenovo"), ("0050ba", "Lenovo"),
    ("3c970e", "Lenovo"), ("385a98", "Lenovo"), ("6c0b84", "Lenovo"),
    ("aceff5", "Lenovo"), ("e0db55", "Lenovo"), ("e8b1fc", "Lenovo"),
    // Intel
    ("000423", "Intel"), ("001b21", "Intel"), ("0028f8", "Intel"),
    ("28d244", "Intel"), ("44850e", "Intel"), ("acfdce", "Intel"),
    // Printers
    ("000d4b", "HP-Printer"), ("0017a4", "HP-Printer"),
    ("001b78", "HP-Printer"), ("002655", "HP-Printer"),
    ("002721", "HP-Printer"), ("3c4a92", "HP-Printer"),
    ("9c8e99", "HP-Printer"), ("dca5d4", "HP-Printer"),
    ("000aa3", "Brother"), ("00cd4f", "Brother"), ("a4ce62", "Brother"),
    ("000bbd", "Toshiba"), ("002608", "Toshiba"),
    ("000048", "Seiko-Epson"), ("0014e5", "Seiko-Epson"),
    ("0026ab", "Seiko-Epson"), ("a4ee57", "Seiko-Epson"),
    ("000067", "Ricoh"), ("000acd", "Ricoh"), ("002673", "Ricoh"),
    ("000085", "Canon"), ("00bb3a", "Canon"), ("9c93e4", "Canon"),
    ("00065b", "Xerox"), ("0014c2", "Xerox"),
    // Cameras / NVRs
    ("000408", "Axis-Communications"), ("00408c", "Axis-Communications"),
    ("acea5a", "Axis-Communications"), ("b8a44f", "Axis-Communications"),
    ("8c69e0", "Axis-Communications"),
    ("8c00fc", "Hikvision"), ("28572b", "Hikvision"), ("4ce670", "Hikvision"),
    ("4c11bf", "Hikvision"), ("c0561d", "Hikvision"), ("f4b7e2", "Hikvision"),
    ("c0817", "Dahua"), ("3c8112", "Dahua"), ("9c14638", "Dahua"),
    ("4c8b3", "Dahua"),
    // Storage / NAS
    ("00113217", "Synology"), ("00113272", "Synology"),
    ("0011d8", "Synology"), ("180373", "Synology"),
    ("245ebe", "Synology"), ("00084d", "QNAP"), ("245ebe", "QNAP"),
    // Network gear (other)
    ("00146c", "Netgear"), ("a040a0", "Netgear"), ("c40415", "Netgear"),
    ("4c60de", "Netgear"), ("9c3dcf", "Netgear"),
    ("000fea", "GIGABYTE"),
    ("00185e", "TP-Link"), ("8c1645", "TP-Link"), ("60e327", "TP-Link"),
    ("ec086b", "TP-Link"), ("48ba4e", "TP-Link"), ("9c5322", "TP-Link"),
    ("0050ba", "D-Link"), ("002195", "D-Link"), ("e406e2", "D-Link"),
    ("002418", "D-Link"),
    // Samsung
    ("00120e", "Samsung"), ("00161b", "Samsung"), ("0023ab", "Samsung"),
    ("100c24", "Samsung"), ("8c1ab9", "Samsung"), ("a4f4c2", "Samsung"),
    ("dc7144", "Samsung"),
    // Sony
    ("000f4b", "Sony"), ("38e0fb", "Sony"), ("78f878", "Sony"),
    // Google / Nest / Amazon / IoT
    ("3c5ab4", "Google"), ("a4773b", "Google"), ("e4f4c6", "Google"),
    ("18b430", "Nest"),
    ("44650d", "Amazon"), ("4c5e0c", "Amazon"), ("84d6d0", "Amazon"),
    ("e8b6c8", "Amazon"), ("d4f7d2", "Amazon-Ring"), ("ac63be", "Amazon"),
    ("1865f1", "Philips-Hue"), ("00179a", "Philips-Hue"),
    // ASUS / ASRock / motherboards
    ("00b362", "ASUS"), ("60a44c", "ASUS"), ("ac220b", "ASUS"),
    ("002618", "ASUS"), ("d850e6", "ASUS"), ("e0cb4e", "ASRock"),
    // Raspberry Pi
    ("b827eb", "Raspberry-Pi"), ("dca632", "Raspberry-Pi"),
    ("e45f01", "Raspberry-Pi"), ("28cdc1", "Raspberry-Pi"),
];

/// The hexadecimal digits of a MAC address text, lower-cased, in order:
/// every separator and any other character dropped.
pub open spec fn mac_hex_digits(mac: Seq<char>) -> Seq<char>
    decreases mac.len(),
{
    if mac.len() == 0 {
        Seq::empty()
    } else if is_hex_digit(mac.last()) {
        mac_hex_digits(mac.drop_last()).push(lower_char(mac.last()))
    } else {
        mac_hex_digits(mac.drop_last())
    }
}

/// The first table entry at or after `i` whose prefix is `key`.
pub open spec fn oui_entry_from(key: Seq<char>, i: int) -> Option<int>
    decreases OUI_TABLE@.len() - i,
{
    if i < 0 || i >= OUI_TABLE@.len() {
        None
    } else if OUI_TABLE@[i].0@ == key {
        Some(i)
    } else {
        oui_entry_from(key, i + 1)
    }
}

/// The vendor of a MAC address written in any common form (`aa:bb:cc:..`,
/// `aa-bb-cc-..`, `aabbcc..`, either case): the vendor of the first table
/// entry whose prefix is the first six hexadecimal digits, if there are six.
pub open spec fn vendor_of(mac: Seq<char>) -> Option<&'static str> {
    let key = mac_hex_digits(mac);
    if key.len() < 6 {
        None
    } else {
        oui_vendor(key.take(6))
    }
}

/// The vendor of the table entry for a six-digit prefix.
pub open spec fn oui_vendor(key: Seq<char>) -> Option<&'static str> {
    match oui_entry_from(key, 0) {
        Some(i) => Some(OUI_TABLE@[i].1),
        None => None,
    }
}

proof fn lemma_lower_char_hex(c: char)
    ensures
        is_hex_digit(lower_char(c)) == is_hex_digit(c),
        lower_char(lower_char(c)) == lower_char(c),
{
    if 'A' <= c && c <= 'Z' {
        assert((c as u8) as u32 == c as u32);
    }
}

/// Lower-casing a MAC address text first does not change its digits.
pub proof fn lemma_mac_hex_digits_lower(s: Seq<char>)
    ensures
        mac_hex_digits(lower_text(s)) == mac_hex_digits(s),
    decreases s.len(),
{
    if s.len() > 0 {
        assert(lower_text(s).drop_last() == lower_text(s.drop_last()));
        lemma_lower_char_hex(s.last());
        lemma_mac_hex_digits_lower(s.drop_last());
    }
}

/// The digits of a concatenation are the digits of its parts.
pub proof fn lemma_mac_hex_digits_concat(a: Seq<char>, b: Seq<char>)
    ensures
        mac_hex_digits(a + b) == mac_hex_digits(a) + mac_hex_digits(b),
    decreases b.len(),
{
    if b.len() > 0 {
        assert((a + b).drop_last() == a + b.drop_last());
        lemma_mac_hex_digits_concat(a, b.drop_last());
    } else {
        assert(a + b == a);
    }
}

/// The vendor of a MAC address text depends only on its hexadecimal digits,
/// whatever their case and whatever separates them: `aa:bb:cc..`,
/// `AA-BB-CC..` and `aabbcc..` name the same vendor.
pub proof fn lemma_vendor_ignores_case_and_separators(s1: Seq<char>, s2: Seq<char>)
    requires
        mac_hex_digits(lower_text(s1)) == mac_hex_digits(lower_text(s2)),
    ensures
        vendor_of(s1) == vendor_of(s2),
{
    lemma_mac_hex_digits_lower(s1);
    lemma_mac_hex_digits_lower(s2);
}

proof fn lemma_oui_entry_from(key: Seq<char>, k: int)
    requires
        0 <= k,
    ensures
        oui_entry_from(key, k) matches Some(i) ==> k <= i < OUI_TABLE@.len() && OUI_TABLE@[i].0@
            == key && forall|j: int| k <= j < i ==> (#[trigger] OUI_TABLE@[j]).0@ != key,
        oui_entry_from(key, k) is None ==> forall|j: int|
            k <= j < OUI_TABLE@.len() ==> (#[trigger] OUI_TABLE@[j]).0@ != key,
    decreases OUI_TABLE@.len() - k,
{
    if k < OUI_TABLE@.len() && OUI_TABLE@[k].0@ != key {
        lemma_oui_entry_from(key, k + 1);
    }
}

/// A vendor is found only through a table entry whose whole prefix is the
/// address's first six hexadecimal digits (lower-cased), and it is the
/// vendor of the first such entry; none is found when the address has
/// fewer than six digits or no entry has exactly that prefix.
pub proof fn lemma_vendor_is_exact_prefix_match(mac: Seq<char>)
    ensures
        vendor_of(mac) matches Some(v) ==> exists|i: int|
            0 <= i < OUI_TABLE@.len() && (#[trigger] OUI_TABLE@[i]).0@ == mac_hex_digits(mac).take(6)
                && OUI_TABLE@[i].1 == v && forall|j: int|
                0 <= j < i ==> (#[trigger] OUI_TABLE@[j]).0@ != mac_hex_digits(mac).take(6),
        vendor_of(mac) is None <==> (mac_hex_digits(mac).len() < 6 || forall|j: int|
            0 <= j < OUI_TABLE@.len() ==> (#[trigger] OUI_TABLE@[j]).0@ != mac_hex_digits(mac).take(
                6,
            )),
{
    let key = mac_hex_digits(mac).take(6);
    lemma_oui_entry_from(key, 0);
    if let Some(i) = oui_entry_from(key, 0) {
        if mac_hex_digits(mac).len() >= 6 {
            assert(OUI_TABLE@[i].0@ == key);
        }
    }
}

/// The hexadecimal digits of a MAC address text, lower-cased.
pub fn mac_hex_digits_of(mac: &str) -> (v: Vec<char>)
    ensures
        v@ == mac_hex_digits(mac@),
{
    let s = chars_of(mac);
    let mut v: Vec<char> = Vec::new();
    let mut i: usize = 0;
    while i < s.len()
        invariant
            i <= s.len(),
            s@ == mac@,
            v@ == mac_hex_digits(s@.take(i as int)),
        decreases s.len() - i,
    {
        assert(s@.take(i as int + 1).drop_last() == s@.take(i as int));
        if is_hex_digit_char(s[i]) {
            v.push(ascii_lower_char(s[i]));
        }
        i += 1;
    }
    assert(s@.take(s.len() as int) == s@);
    v
}

/// Looks up the manufacturer of a MAC address.
pub fn vendor_for(mac: &str) -> (r: Option<&'static str>)
    ensures
        r == vendor_of(mac@),
{
    let key = mac_hex_digits_of(mac);
    if key.len() < 6 {
        return None;
    }
    let prefix = copy_range(key.as_slice(), 0, 6);
    assert(prefix@ == key@.take(6));
    let table = OUI_TABLE;
    let mut i: usize = 0;
    while i < table.len()
        invariant
            table@ == OUI_TABLE@,
            i <= table@.len(),
            key@ == mac_hex_digits(mac@),
            key@.len() >= 6,
            prefix@ == key@.take(6),
            oui_entry_from(prefix@, 0) == oui_entry_from(prefix@, i as int),
        decreases table.len() - i,
    {
        let entry = table[i];
        assert(entry == OUI_TABLE@[i as int]);
        let pc = chars_of(entry.0);
        if chars_eq(pc.as_slice(), prefix.as_slice()) {
            assert(oui_entry_from(prefix@, i as int) == Some(i as int));
            return Some(entry.1);
        }
        i += 1;
    }
    None
}

} // verus!
