//! MAC addresses: their text form and the vendor found for them.

use vstd::prelude::*;
use crate::oui::{lemma_mac_hex_digits_concat, mac_hex_digits, oui_vendor, vendor_for, vendor_of};
use crate::text::{chars_of, hex_byte, hex_char, is_hex_digit, lower_char, push_hex_byte, string_of};

verus! {

/// A host's MAC address and, when its OUI is known, the vendor.
#[derive(Debug)]
pub struct MacInfo {
    pub mac: String,
    pub vendor: Option<String>,
}

/// The abstract value of a [`MacInfo`].
pub struct MacInfoView {
    pub mac: Seq<char>,
    pub vendor: Option<Seq<char>>,
}

impl View for MacInfo {
    type V = MacInfoView;

    open spec fn view(&self) -> MacInfoView {
        MacInfoView { mac: self.mac@, vendor: self.vendor.deep_view() }
    }
}

/// The abstract value of an optional [`MacInfo`].
pub open spec fn mac_view(r: Option<MacInfo>) -> Option<MacInfoView> {
    match r {
        Some(m) => Some(m@),
        None => None,
    }
}

/// Six bytes as lower-case hexadecimal pairs joined by `:`
/// (`aa:bb:cc:dd:ee:ff`).
pub open spec fn mac_text(b: Seq<u8>) -> Seq<char> {
    hex_byte(b[0]) + seq![':'] + hex_byte(b[1]) + seq![':'] + hex_byte(b[2]) + seq![':']
        + hex_byte(b[3]) + seq![':'] + hex_byte(b[4]) + seq![':'] + hex_byte(b[5])
}

/// The text of an optional vendor name.
pub open spec fn vendor_text(v: Option<&'static str>) -> Option<Seq<char>> {
    match v {
        Some(s) => Some(s@),
        None => None,
    }
}

proof fn lemma_hex_char(d: nat)
    requires
        d < 16,
    ensures
        is_hex_digit(hex_char(d)),
        lower_char(hex_char(d)) == hex_char(d),
{
    let c = hex_char(d);
    if d < 10 {
        assert(c as u32 == d + 48);
    } else {
        assert(c as u32 == d + 87);
    }
}

proof fn lemma_hex_byte_digits(b: u8)
    ensures
        mac_hex_digits(hex_byte(b)) == hex_byte(b),
{
    let h = hex_byte(b);
    lemma_hex_char((b / 16) as nat);
    lemma_hex_char((b % 16) as nat);
    reveal_with_fuel(mac_hex_digits, 3);
    assert(h.drop_last() == seq![h[0]]);
    assert(seq![h[0]].drop_last() == Seq::<char>::empty());
}

/// The vendor of a MAC address is the vendor of its first three bytes.
pub proof fn lemma_vendor_of_mac_text(b: Seq<u8>)
    requires
        b.len() >= 6,
    ensures
        vendor_of(mac_text(b)) == oui_vendor(hex_byte(b[0]) + hex_byte(b[1]) + hex_byte(b[2])),
{
    let colon = seq![':'];
    assert(mac_hex_digits(colon) == Seq::<char>::empty()) by {
        reveal_with_fuel(mac_hex_digits, 2);
        assert(colon.drop_last() == Seq::<char>::empty());
        assert(!is_hex_digit(':'));
    }
    lemma_hex_byte_digits(b[0]);
    lemma_hex_byte_digits(b[1]);
    lemma_hex_byte_digits(b[2]);
    lemma_hex_byte_digits(b[3]);
    lemma_hex_byte_digits(b[4]);
    lemma_hex_byte_digits(b[5]);
    let p0 = hex_byte(b[0]);
    let p1 = p0 + colon;
    let p2 = p1 + hex_byte(b[1]);
    let p3 = p2 + colon;
    let p4 = p3 + hex_byte(b[2]);
    let p5 = p4 + colon;
    let p6 = p5 + hex_byte(b[3]);
    let p7 = p6 + colon;
    let p8 = p7 + hex_byte(b[4]);
    let p9 = p8 + colon;
    let p10 = p9 + hex_byte(b[5]);
    assert(mac_text(b) == p10);
    lemma_mac_hex_digits_concat(p0, colon);
    lemma_mac_hex_digits_concat(p1, hex_byte(b[1]));
    lemma_mac_hex_digits_concat(p2, colon);
    lemma_mac_hex_digits_concat(p3, hex_byte(b[2]));
    lemma_mac_hex_digits_concat(p4, colon);
    lemma_mac_hex_digits_concat(p5, hex_byte(b[3]));
    lemma_mac_hex_digits_concat(p6, colon);
    lemma_mac_hex_digits_concat(p7, hex_byte(b[4]));
    lemma_mac_hex_digits_concat(p8, colon);
    lemma_mac_hex_digits_concat(p9, hex_byte(b[5]));
    let d = mac_hex_digits(p10);
    assert(d == hex_byte(b[0]) + hex_byte(b[1]) + hex_byte(b[2]) + hex_byte(b[3]) + hex_byte(b[4])
        + hex_byte(b[5]));
    assert(d.take(6) == hex_byte(b[0]) + hex_byte(b[1]) + hex_byte(b[2]));
}

/// The text form of the first six bytes of `b`.
pub fn mac_string(b: &[u8]) -> (s: String)
    requires
        b.len() >= 6,
    ensures
        s@ == mac_text(b@),
{
    let mut v: Vec<char> = Vec::new();
    push_hex_byte(&mut v, b[0]);
    v.push(':');
    push_hex_byte(&mut v, b[1]);
    v.push(':');
    push_hex_byte(&mut v, b[2]);
    v.push(':');
    push_hex_byte(&mut v, b[3]);
    v.push(':');
    push_hex_byte(&mut v, b[4]);
    v.push(':');
    push_hex_byte(&mut v, b[5]);
    string_of(v.as_slice())
}

/// What an address resolution reply tells: nothing unless it succeeded
/// (`status` 0) with a 6-byte hardware address; then that address as text
/// and its vendor.
pub fn mac_info_from_reply(status: u32, mac: &[u8], mac_len: u32) -> (r: Option<MacInfo>)
    requires
        mac.len() >= 6,
    ensures
        mac_view(r) == (if status != 0 || mac_len != 6 {
            None
        } else {
            Some(
                MacInfoView {
                    mac: mac_text(mac@),
                    vendor: vendor_text(vendor_of(mac_text(mac@))),
                },
            )
        }),
{
    if status != 0 || mac_len != 6 {
        return None;
    }
    let text = mac_string(mac);
    let vendor = match vendor_for(text.as_str()) {
        Some(v) => Some(string_of(chars_of(v).as_slice())),
        None => None,
    };
    Some(MacInfo { mac: text, vendor })
}

} // verus!
