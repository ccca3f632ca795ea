//! The values a scan is configured with and the values it reports.
//!
//! Addresses are 32-bit numbers (see `addr`); scan identifiers are the
//! 128-bit values of the scan's UUID.

use vstd::prelude::*;
use crate::device::DeviceType;
use crate::http::{HttpBanner, HttpBannerView};
use crate::mac::{MacInfo, MacInfoView};
use crate::netbios::{NetbiosInfo, NetbiosInfoView};

verus! {

/// How a scan is run.
#[derive(Debug, Clone)]
pub struct ScanOptions {
    /// Send an ICMP echo to decide whether a host is alive.
    pub ping: bool,
    /// Look up the host name by reverse DNS.
    pub resolve_hostname: bool,
    /// Ask for the NetBIOS computer name and workgroup. On by default: the
    /// scan reads this setting, and this library chose the default.
    pub netbios: bool,
    /// TCP ports to probe.
    pub ports: Vec<u16>,
    pub ping_timeout_ms: u32,
    pub port_timeout_ms: u32,
    /// How long to wait for a NetBIOS reply; 500 ms by default, the same as
    /// the port timeout (a default this library chose).
    pub netbios_timeout_ms: u32,
    /// How many hosts are scanned at the same time.
    pub concurrency: usize,
    /// Report hosts that did not answer the ping too.
    pub include_dead: bool,
}

impl Default for ScanOptions {
    fn default() -> (r: ScanOptions)
        ensures
            r.ping,
            r.resolve_hostname,
            r.netbios,
            r.ports@ == Seq::<u16>::empty(),
            r.ping_timeout_ms == 1000,
            r.port_timeout_ms == 500,
            r.netbios_timeout_ms == 500,
            r.concurrency == 100,
            !r.include_dead,
    {
        ScanOptions {
            ping: true,
            resolve_hostname: true,
            netbios: true,
            ports: Vec::new(),
            ping_timeout_ms: 1000,
            port_timeout_ms: 500,
            netbios_timeout_ms: 500,
            concurrency: 100,
            include_dead: false,
        }
    }
}

/// A scan to start: the target list and the options.
#[derive(Debug, Clone)]
pub struct ScanRequest {
    pub targets: String,
    pub options: ScanOptions,
}

/// Whether a host answered the ping.
#[derive(Debug, Clone, Copy, PartialEq, Eq, Structural)]
pub enum Liveness {
    Alive,
    Dead,
    /// Not pinged.
    Unknown,
}

/// What was found out about one host.
#[derive(Debug)]
pub struct ScanResult {
    pub scan_id: u128,
    pub ip: u32,
    pub liveness: Liveness,
    pub rtt_ms: Option<u32>,
    pub hostname: Option<String>,
    pub netbios: Option<NetbiosInfo>,
    pub mac: Option<MacInfo>,
    pub http_banner: Option<HttpBanner>,
    pub device_type: Option<DeviceType>,
    pub open_ports: Vec<u16>,
}

/// The abstract value of a [`ScanResult`].
pub struct ScanResultView {
    pub scan_id: u128,
    pub ip: u32,
    pub liveness: Liveness,
    pub rtt_ms: Option<u32>,
    pub hostname: Option<Seq<char>>,
    pub netbios: Option<NetbiosInfoView>,
    pub mac: Option<MacInfoView>,
    pub http_banner: Option<HttpBannerView>,
    pub device_type: Option<DeviceType>,
    pub open_ports: Seq<u16>,
}

impl View for ScanResult {
    type V = ScanResultView;

    open spec fn view(&self) -> ScanResultView {
        ScanResultView {
            scan_id: self.scan_id,
            ip: self.ip,
            liveness: self.liveness,
            rtt_ms: self.rtt_ms,
            hostname: self.hostname.deep_view(),
            netbios: match &self.netbios {
                Some(n) => Some(n@),
                None => None,
            },
            mac: match &self.mac {
                Some(m) => Some(m@),
                None => None,
            },
            http_banner: match &self.http_banner {
                Some(b) => Some(b@),
                None => None,
            },
            device_type: self.device_type,
            open_ports: self.open_ports@,
        }
    }
}

/// How far a scan has got.
#[derive(Debug, Clone, Copy)]
pub struct ScanProgress {
    pub scan_id: u128,
    pub completed: usize,
    pub total: usize,
}

/// A scan has started over `total` hosts.
#[derive(Debug, Clone, Copy)]
pub struct ScanStarted {
    pub scan_id: u128,
    pub total: usize,
}

/// A scan has ended, on its own or because it was cancelled.
#[derive(Debug, Clone, Copy)]
pub struct ScanComplete {
    pub scan_id: u128,
    pub cancelled: bool,
}

} // verus!
