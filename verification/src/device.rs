//! A heuristic guess of what kind of device a host is, from its HTTP
//! banner, the vendor of its MAC address, its open ports and whether it
//! answers NetBIOS. Banner matches win, then vendor matches, then the port
//! and NetBIOS heuristics.

use vstd::prelude::*;
use crate::http::{HttpBanner, HttpBannerView};
use crate::netbios::NetbiosInfo;
use crate::ports::has_port;
use crate::text::{append_chars, chars_of, contains, contains_str, lower_text, to_ascii_lower};

verus! {

/// The kinds of device that are told apart.
#[derive(Debug, Clone, Copy, PartialEq, Eq, Structural)]
pub enum DeviceType {
    Router,
    Switch,
    AccessPoint,
    Server,
    Workstation,
    Printer,
    Camera,
    Iot,
    Vm,
    Mobile,
    Unknown,
}

// ---------------------------------------------------------------------
// Word lists
// ---------------------------------------------------------------------

/// Banner words of cameras and video recorders.
pub const CAMERA_BANNER_WORDS: [&'static str; 7] = [
    "camera",
    "axis",
    "hikvision",
    "dahua",
    "ip-cam",
    "nvr",
    "dvr",
];

/// Banner words of printers.
pub const PRINTER_BANNER_WORDS: [&'static str; 13] = [
    "printer",
    "laserjet",
    "officejet",
    "deskjet",
    "color laserjet",
    "imagerunner",
    "workcentre",
    "phaser",
    "brother",
    "epson stylus",
    "ricoh aficio",
    "kyocera",
    "lexmark",
];

/// Banner words of wireless access points.
pub const ACCESS_POINT_BANNER_WORDS: [&'static str; 6] = [
    "unifi",
    "ruckus",
    "aerohive",
    "extreme wireless",
    "access point",
    "wireless ap",
];

/// Banner words of switches.
pub const SWITCH_BANNER_WORDS: [&'static str; 6] = [
    "catalyst",
    "procurve",
    "aruba",
    "comware",
    "switch login",
    "switch management",
];

/// Banner words of routers, firewalls and gateways.
pub const ROUTER_BANNER_WORDS: [&'static str; 8] = [
    "sonicwall",
    "fortigate",
    "pfsense",
    "opnsense",
    "mikrotik",
    "edgerouter",
    "router",
    "gateway",
];

/// Banner words of storage appliances and server management interfaces.
pub const SERVER_BANNER_WORDS: [&'static str; 8] = [
    "synology",
    "qnap",
    "truenas",
    "freenas",
    "ilo",
    "idrac",
    "imm",
    "openmediavault",
];

/// Vendor words of hypervisors.
pub const VM_VENDOR_WORDS: [&'static str; 4] = ["vmware", "hyper-v", "virtualbox", "parallels"];

/// Vendor words of camera makers.
pub const CAMERA_VENDOR_WORDS: [&'static str; 3] = ["axis", "hikvision", "dahua"];

/// Vendor words of printer makers.
pub const PRINTER_VENDOR_WORDS: [&'static str; 7] = [
    "hp-printer",
    "brother",
    "epson",
    "ricoh",
    "canon",
    "xerox",
    "toshiba",
];

/// Vendor words of access point makers.
pub const ACCESS_POINT_VENDOR_WORDS: [&'static str; 4] = ["ubiquiti", "aruba", "meraki", "ruckus"];

/// Vendor words of switch makers.
pub const SWITCH_VENDOR_WORDS: [&'static str; 3] = ["cisco", "juniper", "netgear"];

/// Vendor words of storage appliance makers.
pub const NAS_VENDOR_WORDS: [&'static str; 2] = ["synology", "qnap"];

/// Vendor words of smart-home device makers.
pub const IOT_VENDOR_WORDS: [&'static str; 3] = ["nest", "ring", "philips-hue"];

/// Vendor words of single-board computers.
pub const SBC_VENDOR_WORDS: [&'static str; 1] = ["raspberry-pi"];

// ---------------------------------------------------------------------
// Specification
// ---------------------------------------------------------------------

/// Whether any of the words occurs in `hay`.
pub open spec fn mentions_any(hay: Seq<char>, words: Seq<&'static str>) -> bool {
    exists|i: int| 0 <= i < words.len() && contains(hay, #[trigger] words[i]@)
}

/// The text searched in a banner: the `Server` header and the title (each
/// empty when absent) joined by a space, ASCII lower-cased.
pub open spec fn banner_hay(b: HttpBannerView) -> Seq<char> {
    let server = match b.server {
        Some(s) => s,
        None => Seq::empty(),
    };
    let title = match b.title {
        Some(t) => t,
        None => Seq::empty(),
    };
    lower_text(server + seq![' '] + title)
}

/// What a banner tells, if anything.
pub open spec fn banner_kind(hay: Seq<char>) -> Option<DeviceType> {
    if mentions_any(hay, CAMERA_BANNER_WORDS@) {
        Some(DeviceType::Camera)
    } else if mentions_any(hay, PRINTER_BANNER_WORDS@) {
        Some(DeviceType::Printer)
    } else if mentions_any(hay, ACCESS_POINT_BANNER_WORDS@) {
        Some(DeviceType::AccessPoint)
    } else if mentions_any(hay, SWITCH_BANNER_WORDS@) {
        Some(DeviceType::Switch)
    } else if mentions_any(hay, ROUTER_BANNER_WORDS@) {
        Some(DeviceType::Router)
    } else if mentions_any(hay, SERVER_BANNER_WORDS@) {
        Some(DeviceType::Server)
    } else {
        None
    }
}

/// What the (lower-cased) vendor name tells, if anything.
pub open spec fn vendor_kind(vl: Seq<char>) -> Option<DeviceType> {
    if mentions_any(vl, VM_VENDOR_WORDS@) {
        Some(DeviceType::Vm)
    } else if mentions_any(vl, CAMERA_VENDOR_WORDS@) {
        Some(DeviceType::Camera)
    } else if mentions_any(vl, PRINTER_VENDOR_WORDS@) {
        Some(DeviceType::Printer)
    } else if mentions_any(vl, ACCESS_POINT_VENDOR_WORDS@) {
        Some(DeviceType::AccessPoint)
    } else if mentions_any(vl, SWITCH_VENDOR_WORDS@) {
        Some(DeviceType::Switch)
    } else if mentions_any(vl, NAS_VENDOR_WORDS@) {
        Some(DeviceType::Server)
    } else if mentions_any(vl, IOT_VENDOR_WORDS@) {
        Some(DeviceType::Iot)
    } else if mentions_any(vl, SBC_VENDOR_WORDS@) {
        Some(DeviceType::Server)
    } else {
        None
    }
}

/// What the open ports and NetBIOS tell: print ports (9100, 631) mean a
/// printer, RDP (3389) or a NetBIOS answer a workstation, SSH (22) or a web
/// port (80, 443) a server.
pub open spec fn port_kind(ports: Seq<u16>, has_netbios: bool) -> DeviceType {
    if ports.contains(9100) || ports.contains(631) {
        DeviceType::Printer
    } else if ports.contains(3389) {
        DeviceType::Workstation
    } else if has_netbios {
        DeviceType::Workstation
    } else if ports.contains(22) {
        DeviceType::Server
    } else if ports.contains(80) || ports.contains(443) {
        DeviceType::Server
    } else {
        DeviceType::Unknown
    }
}

/// The guess: the banner's kind, else the vendor's, else the ports'.
pub open spec fn device_guess(
    vendor: Option<Seq<char>>,
    ports: Seq<u16>,
    banner: Option<HttpBannerView>,
    has_netbios: bool,
) -> DeviceType {
    let from_banner = match banner {
        Some(b) => banner_kind(banner_hay(b)),
        None => None,
    };
    let from_vendor = match vendor {
        Some(v) => vendor_kind(lower_text(v)),
        None => None,
    };
    match from_banner {
        Some(t) => t,
        None => match from_vendor {
            Some(t) => t,
            None => port_kind(ports, has_netbios),
        },
    }
}

/// Banner matches win over vendor matches, which win over the port and
/// NetBIOS heuristics: a banner that names a kind decides the guess whatever
/// the vendor, ports and NetBIOS answer; without one, a vendor that names a
/// kind decides it whatever the ports and NetBIOS answer.
pub proof fn lemma_guess_priority(
    v1: Option<Seq<char>>,
    v2: Option<Seq<char>>,
    p1: Seq<u16>,
    p2: Seq<u16>,
    b: Option<HttpBannerView>,
    n1: bool,
    n2: bool,
)
    ensures
        (b matches Some(x) && banner_kind(banner_hay(x)) is Some) ==> device_guess(v1, p1, b, n1)
            == device_guess(v2, p2, b, n2),
        (match b {
            Some(x) => banner_kind(banner_hay(x)) is None,
            None => true,
        }) && (v1 matches Some(v) && vendor_kind(lower_text(v)) is Some) ==> device_guess(
            v1,
            p1,
            b,
            n1,
        ) == device_guess(v1, p2, b, n2),
{
}

/// The port and NetBIOS rules, when neither a banner nor the vendor names a
/// kind: a print port (9100 or 631) makes a printer; otherwise RDP (3389) or
/// a NetBIOS answer makes a workstation; otherwise SSH (22) or a web port
/// (80 or 443) makes a server; otherwise the kind is unknown.
pub proof fn lemma_port_rules(
    vendor: Option<Seq<char>>,
    ps: Seq<u16>,
    banner: Option<HttpBannerView>,
    nb: bool,
)
    requires
        match banner {
            Some(b) => banner_kind(banner_hay(b)) is None,
            None => true,
        },
        match vendor {
            Some(v) => vendor_kind(lower_text(v)) is None,
            None => true,
        },
    ensures
        ps.contains(9100) || ps.contains(631) ==> device_guess(vendor, ps, banner, nb)
            == DeviceType::Printer,
        !ps.contains(9100) && !ps.contains(631) && (ps.contains(3389) || nb) ==> device_guess(
            vendor,
            ps,
            banner,
            nb,
        ) == DeviceType::Workstation,
        !ps.contains(9100) && !ps.contains(631) && !ps.contains(3389) && !nb && (ps.contains(22)
            || ps.contains(80) || ps.contains(443)) ==> device_guess(vendor, ps, banner, nb)
            == DeviceType::Server,
        !ps.contains(9100) && !ps.contains(631) && !ps.contains(3389) && !nb && !ps.contains(22)
            && !ps.contains(80) && !ps.contains(443) ==> device_guess(vendor, ps, banner, nb)
            == DeviceType::Unknown,
{
}

/// The text of an optional `str`.
pub open spec fn opt_text(v: Option<&str>) -> Option<Seq<char>> {
    match v {
        Some(s) => Some(s@),
        None => None,
    }
}

/// The abstract value of an optional banner.
pub open spec fn opt_banner(b: Option<&HttpBanner>) -> Option<HttpBannerView> {
    match b {
        Some(x) => Some(x@),
        None => None,
    }
}

// ---------------------------------------------------------------------
// Implementation
// ---------------------------------------------------------------------

/// Whether any of the words occurs in `hay`.
pub fn mentions_any_of(hay: &[char], words: &[&'static str]) -> (b: bool)
    ensures
        b == mentions_any(hay@, words@),
{
    let mut i: usize = 0;
    while i < words.len()
        invariant
            i <= words.len(),
            forall|j: int| 0 <= j < i ==> !contains(hay@, #[trigger] words@[j]@),
        decreases words.len() - i,
    {
        if contains_str(hay, words[i]) {
            return true;
        }
        i += 1;
    }
    false
}

fn banner_kind_of(hay: &[char]) -> (r: Option<DeviceType>)
    ensures
        r == banner_kind(hay@),
{
    if mentions_any_of(hay, CAMERA_BANNER_WORDS.as_slice()) {
        Some(DeviceType::Camera)
    } else if mentions_any_of(hay, PRINTER_BANNER_WORDS.as_slice()) {
        Some(DeviceType::Printer)
    } else if mentions_any_of(hay, ACCESS_POINT_BANNER_WORDS.as_slice()) {
        Some(DeviceType::AccessPoint)
    } else if mentions_any_of(hay, SWITCH_BANNER_WORDS.as_slice()) {
        Some(DeviceType::Switch)
    } else if mentions_any_of(hay, ROUTER_BANNER_WORDS.as_slice()) {
        Some(DeviceType::Router)
    } else if mentions_any_of(hay, SERVER_BANNER_WORDS.as_slice()) {
        Some(DeviceType::Server)
    } else {
        None
    }
}

fn vendor_kind_of(vl: &[char]) -> (r: Option<DeviceType>)
    ensures
        r == vendor_kind(vl@),
{
    if mentions_any_of(vl, VM_VENDOR_WORDS.as_slice()) {
        Some(DeviceType::Vm)
    } else if mentions_any_of(vl, CAMERA_VENDOR_WORDS.as_slice()) {
        Some(DeviceType::Camera)
    } else if mentions_any_of(vl, PRINTER_VENDOR_WORDS.as_slice()) {
        Some(DeviceType::Printer)
    } else if mentions_any_of(vl, ACCESS_POINT_VENDOR_WORDS.as_slice()) {
        Some(DeviceType::AccessPoint)
    } else if mentions_any_of(vl, SWITCH_VENDOR_WORDS.as_slice()) {
        Some(DeviceType::Switch)
    } else if mentions_any_of(vl, NAS_VENDOR_WORDS.as_slice()) {
        Some(DeviceType::Server)
    } else if mentions_any_of(vl, IOT_VENDOR_WORDS.as_slice()) {
        Some(DeviceType::Iot)
    } else if mentions_any_of(vl, SBC_VENDOR_WORDS.as_slice()) {
        Some(DeviceType::Server)
    } else {
        None
    }
}

fn port_kind_of(ports: &[u16], has_netbios: bool) -> (r: DeviceType)
    ensures
        r == port_kind(ports@, has_netbios),
{
    if has_port(ports, 9100) || has_port(ports, 631) {
        DeviceType::Printer
    } else if has_port(ports, 3389) {
        DeviceType::Workstation
    } else if has_netbios {
        DeviceType::Workstation
    } else if has_port(ports, 22) {
        DeviceType::Server
    } else if has_port(ports, 80) || has_port(ports, 443) {
        DeviceType::Server
    } else {
        DeviceType::Unknown
    }
}

/// The searched text of a banner.
fn banner_hay_of(b: &HttpBanner) -> (v: Vec<char>)
    ensures
        v@ == banner_hay(b@),
{
    let mut raw: Vec<char> = Vec::new();
    match &b.server {
        Some(s) => {
            let sc = chars_of(s.as_str());
            append_chars(&mut raw, sc.as_slice());
        },
        None => {},
    }
    raw.push(' ');
    match &b.title {
        Some(t) => {
            let tc = chars_of(t.as_str());
            append_chars(&mut raw, tc.as_slice());
        },
        None => {},
    }
    to_ascii_lower(raw.as_slice())
}

/// Guesses the kind of a device.
pub fn guess(
    vendor: Option<&str>,
    open_ports: &[u16],
    banner: Option<&HttpBanner>,
    netbios: Option<&NetbiosInfo>,
) -> (r: DeviceType)
    ensures
        r == device_guess(opt_text(vendor), open_ports@, opt_banner(banner), netbios is Some),
{
    if let Some(b) = banner {
        let hay = banner_hay_of(b);
        if let Some(t) = banner_kind_of(hay.as_slice()) {
            return t;
        }
    }
    if let Some(v) = vendor {
        let vc = chars_of(v);
        let vl = to_ascii_lower(vc.as_slice());
        if let Some(t) = vendor_kind_of(vl.as_slice()) {
            return t;
        }
    }
    port_kind_of(open_ports, netbios.is_some())
}

} // verus!
