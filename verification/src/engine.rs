//! The decisions of a scan: how a request is completed with defaults, what
//! a ping result means, which follow-up lookups run for a host, which hosts
//! are reported, how progress is reported, and which reverse-DNS answers
//! are kept. The lookups themselves are the caller's.

use vstd::prelude::*;
use crate::addr::{dotted, ipv4_text};
use crate::netbios::NetbiosInfo;
use crate::types::{Liveness, ScanOptions, ScanRequest, ScanResult};

verus! {

/// The options that `ScanOptions::default` gives.
pub open spec fn is_default_options(o: ScanOptions) -> bool {
    default_settings(o) && !o.include_dead
}

/// The settings of `ScanOptions::default`, whatever `include_dead` is.
pub open spec fn default_settings(o: ScanOptions) -> bool {
    &&& o.ping
    &&& o.resolve_hostname
    &&& o.netbios
    &&& o.ports@ == Seq::<u16>::empty()
    &&& o.ping_timeout_ms == 1000
    &&& o.port_timeout_ms == 500
    &&& o.netbios_timeout_ms == 500
    &&& o.concurrency == 100
}

/// Two option values agree on everything but `include_dead`.
pub open spec fn same_but_include_dead(a: ScanOptions, b: ScanOptions) -> bool {
    &&& a.ping == b.ping
    &&& a.resolve_hostname == b.resolve_hostname
    &&& a.netbios == b.netbios
    &&& a.ports@ == b.ports@
    &&& a.ping_timeout_ms == b.ping_timeout_ms
    &&& a.port_timeout_ms == b.port_timeout_ms
    &&& a.netbios_timeout_ms == b.netbios_timeout_ms
    &&& a.concurrency == b.concurrency
}

/// A scan request for `targets`, with the default options when none are
/// given.
pub fn scan_request(targets: String, options: Option<ScanOptions>) -> (r: ScanRequest)
    ensures
        r.targets@ == targets@,
        match options {
            Some(o) => r.options == o,
            None => is_default_options(r.options),
        },
{
    let options = match options {
        Some(o) => o,
        None => ScanOptions::default(),
    };
    ScanRequest { targets, options }
}

/// The options of a single-host rescan: those given (or the defaults) with
/// dead hosts included, so that the rescan always yields a row.
pub fn rescan_options(options: Option<ScanOptions>) -> (r: ScanOptions)
    ensures
        r.include_dead,
        match options {
            Some(o) => same_but_include_dead(r, o),
            None => default_settings(r),
        },
{
    let mut o = match options {
        Some(o) => o,
        None => ScanOptions::default(),
    };
    o.include_dead = true;
    o
}

/// What a ping outcome means: unknown when no ping was sent, alive when it
/// was answered, dead otherwise.
pub open spec fn liveness_of(ping: bool, rtt: Option<u32>) -> Liveness {
    if !ping {
        Liveness::Unknown
    } else if rtt is Some {
        Liveness::Alive
    } else {
        Liveness::Dead
    }
}

pub fn liveness_from_ping(ping: bool, rtt: Option<u32>) -> (r: Liveness)
    ensures
        r == liveness_of(ping, rtt),
{
    if ping {
        if rtt.is_some() {
            Liveness::Alive
        } else {
            Liveness::Dead
        }
    } else {
        Liveness::Unknown
    }
}

/// Whether the follow-up lookups run for a host: not when the ping said it
/// is dead, unless dead hosts are wanted.
pub open spec fn follows_up(opts: ScanOptions, liveness: Liveness) -> bool {
    liveness != Liveness::Dead || opts.include_dead || !opts.ping
}

/// Which follow-up lookups run for a host.
#[derive(Debug, Clone, Copy, PartialEq, Eq, Structural)]
pub struct FollowUp {
    pub hostname: bool,
    pub netbios: bool,
    pub ports: bool,
}

/// The follow-up lookups for a host: each one that the options ask for,
/// when the host is followed up at all.
pub fn follow_up_plan(opts: &ScanOptions, liveness: Liveness) -> (r: FollowUp)
    ensures
        r.hostname == (opts.resolve_hostname && follows_up(*opts, liveness)),
        r.netbios == (opts.netbios && follows_up(*opts, liveness)),
        r.ports == (opts.ports@.len() > 0 && follows_up(*opts, liveness)),
{
    let go = liveness != Liveness::Dead || opts.include_dead || !opts.ping;
    FollowUp {
        hostname: opts.resolve_hostname && go,
        netbios: opts.netbios && go,
        ports: opts.ports.len() > 0 && go,
    }
}

/// Whether a host's result is reported: dead hosts only when they are
/// wanted.
pub open spec fn reported(opts: ScanOptions, liveness: Liveness) -> bool {
    opts.include_dead || liveness != Liveness::Dead
}

pub fn is_reported(opts: &ScanOptions, liveness: Liveness) -> (b: bool)
    ensures
        b == reported(*opts, liveness),
{
    !(!opts.include_dead && liveness == Liveness::Dead)
}

/// How many hosts are scanned at the same time: the configured number, but
/// at least one.
pub fn worker_count(concurrency: usize) -> (r: usize)
    ensures
        r == if concurrency == 0 {
            1
        } else {
            concurrency
        },
{
    if concurrency == 0 {
        1
    } else {
        concurrency
    }
}

/// The result for one host, from what its lookups found.
pub fn scan_result(
    scan_id: u128,
    ip: u32,
    liveness: Liveness,
    rtt_ms: Option<u32>,
    hostname: Option<String>,
    netbios: Option<NetbiosInfo>,
    open_ports: Vec<u16>,
) -> (r: ScanResult)
    ensures
        r.scan_id == scan_id,
        r.ip == ip,
        r.liveness == liveness,
        r.rtt_ms == rtt_ms,
        r.hostname == hostname,
        r.netbios == netbios,
        r.mac is None,
        r.http_banner is None,
        r.device_type is None,
        r.open_ports == open_ports,
{
    ScanResult {
        scan_id,
        ip,
        liveness,
        rtt_ms,
        hostname,
        netbios,
        mac: None,
        http_banner: None,
        device_type: None,
        open_ports,
    }
}

/// A reverse-DNS answer is kept unless it is empty or just the address
/// itself in dotted-decimal form.
pub open spec fn kept_host_name(name: Option<Seq<char>>, addr: u32) -> Option<Seq<char>> {
    match name {
        Some(n) => if n.len() > 0 && n != dotted(addr) {
            Some(n)
        } else {
            None
        },
        None => None,
    }
}

pub fn reverse_name(name: Option<String>, addr: u32) -> (r: Option<String>)
    ensures
        r.deep_view() == kept_host_name(name.deep_view(), addr),
{
    match name {
        Some(n) => {
            let text = ipv4_text(addr);
            if n.as_str().is_empty() || n == text {
                None
            } else {
                Some(n)
            }
        },
        None => None,
    }
}

/// With dead hosts included, every host is followed up and reported
/// whatever its ping said; so a single-host rescan always yields a row.
pub proof fn lemma_rescan_always_reports(opts: ScanOptions, liveness: Liveness)
    requires
        opts.include_dead,
    ensures
        follows_up(opts, liveness),
        reported(opts, liveness),
{
}

/// Without dead hosts included, a host whose ping went unanswered is
/// neither followed up nor reported; every other host is both.
pub proof fn lemma_dead_hosts_skipped(opts: ScanOptions, rtt: Option<u32>)
    requires
        !opts.include_dead,
        opts.ping,
    ensures
        follows_up(opts, liveness_of(opts.ping, rtt)) <==> rtt is Some,
        reported(opts, liveness_of(opts.ping, rtt)) <==> rtt is Some,
{
}

/// What a ping outcome means, and what follows from it: without a ping the
/// host's liveness is unknown and it is followed up and reported; with a
/// ping an answered host is alive, and followed up and reported, and an
/// unanswered one is dead, followed up and reported only when dead hosts
/// are wanted.
pub proof fn lemma_ping_outcome(opts: ScanOptions, rtt: Option<u32>)
    ensures
        !opts.ping ==> liveness_of(opts.ping, rtt) == Liveness::Unknown && follows_up(
            opts,
            liveness_of(opts.ping, rtt),
        ) && reported(opts, liveness_of(opts.ping, rtt)),
        opts.ping && rtt is Some ==> liveness_of(opts.ping, rtt) == Liveness::Alive && follows_up(
            opts,
            liveness_of(opts.ping, rtt),
        ) && reported(opts, liveness_of(opts.ping, rtt)),
        opts.ping && rtt is None ==> liveness_of(opts.ping, rtt) == Liveness::Dead && (follows_up(
            opts,
            liveness_of(opts.ping, rtt),
        ) == opts.include_dead) && (reported(opts, liveness_of(opts.ping, rtt))
            == opts.include_dead),
{
}

/// A reverse-DNS answer is kept exactly when it is a non-empty name other
/// than the address's own dotted-decimal text.
pub proof fn lemma_kept_host_name(name: Option<Seq<char>>, addr: u32)
    ensures
        kept_host_name(name, addr) matches Some(n) ==> name == Some(n) && n.len() > 0 && n
            != dotted(addr),
        name matches Some(n) ==> (n.len() > 0 && n != dotted(addr) <==> kept_host_name(name, addr)
            == Some(n)),
{
}

/// Progress reporting of a running scan: how many of the hosts are done.
pub struct ProgressTracker {
    completed: usize,
    total: usize,
}

/// Progress is reported once more than 100 ms (in nanoseconds) have passed
/// since the last report, and always when the last host is done.
pub open spec fn progress_due(ns_since_report: u64, completed: nat, total: nat) -> bool {
    ns_since_report > 100_000_000 || completed == total
}

/// The completion of the last host is always reported, however recently
/// progress was reported before.
pub proof fn lemma_last_completion_reported(ns_since_report: u64, total: nat)
    ensures
        progress_due(ns_since_report, total, total),
{
}

/// Progress is due once more than 100 ms (100 000 000 ns) have passed since
/// the last report, or when the last host is done, and not otherwise.
pub proof fn lemma_progress_threshold(ns_since_report: u64, completed: nat, total: nat)
    ensures
        ns_since_report > 100_000_000 ==> progress_due(ns_since_report, completed, total),
        ns_since_report <= 100_000_000 && completed != total ==> !progress_due(
            ns_since_report,
            completed,
            total,
        ),
{
}

impl ProgressTracker {
    pub closed spec fn completed_spec(&self) -> nat {
        self.completed as nat
    }

    pub closed spec fn total_spec(&self) -> nat {
        self.total as nat
    }

    /// A tracker for `total` hosts, none done.
    pub fn new(total: usize) -> (r: ProgressTracker)
        ensures
            r.completed_spec() == 0,
            r.total_spec() == total,
    {
        ProgressTracker { completed: 0, total }
    }

    pub fn completed(&self) -> (r: usize)
        ensures
            r == self.completed_spec(),
    {
        self.completed
    }

    pub fn total(&self) -> (r: usize)
        ensures
            r == self.total_spec(),
    {
        self.total
    }

    /// One more host is done; returns whether progress is to be reported
    /// now, given the time since the last report in nanoseconds.
    pub fn record_completion(&mut self, ns_since_report: u64) -> (report: bool)
        requires
            old(self).completed_spec() < old(self).total_spec(),
        ensures
            final(self).completed_spec() == old(self).completed_spec() + 1,
            final(self).total_spec() == old(self).total_spec(),
            report == progress_due(
                ns_since_report,
                final(self).completed_spec(),
                final(self).total_spec(),
            ),
    {
        self.completed = self.completed + 1;
        ns_since_report > 100_000_000 || self.completed == self.total
    }
}

} // verus!
