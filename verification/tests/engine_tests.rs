use ipscanner::addr::ipv4;
use ipscanner::engine::{
    follow_up_plan, is_reported, liveness_from_ping, rescan_options, reverse_name, scan_request,
    scan_result, worker_count, ProgressTracker,
};
use ipscanner::registry::ScannerState;
use ipscanner::types::{Liveness, ScanOptions};
use tokio_util::sync::CancellationToken;

#[test]
fn default_options() {
    let o = ScanOptions::default();
    assert!(o.ping && o.resolve_hostname && o.netbios && !o.include_dead);
    assert!(o.ports.is_empty());
    assert_eq!((o.ping_timeout_ms, o.port_timeout_ms, o.concurrency), (1000, 500, 100));
}

#[test]
fn request_uses_given_or_default_options() {
    let r = scan_request("10.0.0.1".to_string(), None);
    assert_eq!(r.targets, "10.0.0.1");
    assert_eq!(r.options.concurrency, 100);
    let mut o = ScanOptions::default();
    o.concurrency = 7;
    let r = scan_request("x".to_string(), Some(o));
    assert_eq!(r.options.concurrency, 7);
}

#[test]
fn rescan_always_includes_dead_hosts() {
    let o = rescan_options(None);
    assert!(o.include_dead);
    let dead = liveness_from_ping(o.ping, None);
    assert_eq!(dead, Liveness::Dead);
    assert!(is_reported(&o, dead));
    let plan = follow_up_plan(&o, dead);
    assert!(plan.hostname && plan.netbios && !plan.ports);
}

#[test]
fn liveness_from_ping_outcome() {
    assert_eq!(liveness_from_ping(true, Some(3)), Liveness::Alive);
    assert_eq!(liveness_from_ping(true, None), Liveness::Dead);
    assert_eq!(liveness_from_ping(false, None), Liveness::Unknown);
}

#[test]
fn dead_hosts_are_skipped_by_default() {
    let mut o = ScanOptions::default();
    o.ports = vec![80];
    let plan = follow_up_plan(&o, Liveness::Dead);
    assert!(!plan.hostname && !plan.netbios && !plan.ports);
    assert!(!is_reported(&o, Liveness::Dead));
    let plan = follow_up_plan(&o, Liveness::Alive);
    assert!(plan.hostname && plan.netbios && plan.ports);
    o.ping = false;
    let plan = follow_up_plan(&o, Liveness::Unknown);
    assert!(plan.ports);
    assert!(is_reported(&o, Liveness::Unknown));
}

#[test]
fn at_least_one_worker() {
    assert_eq!(worker_count(0), 1);
    assert_eq!(worker_count(25), 25);
}

#[test]
fn reverse_names_that_say_nothing_are_dropped() {
    let a = ipv4(10, 0, 0, 9);
    assert_eq!(reverse_name(Some("nas.lan".to_string()), a), Some("nas.lan".to_string()));
    assert_eq!(reverse_name(Some("10.0.0.9".to_string()), a), None);
    assert_eq!(reverse_name(Some(String::new()), a), None);
    assert_eq!(reverse_name(None, a), None);
}

#[test]
fn result_holds_what_was_found() {
    let r = scan_result(7, ipv4(10, 0, 0, 1), Liveness::Alive, Some(2), None, None, vec![22]);
    assert_eq!(r.scan_id, 7);
    assert_eq!(r.liveness, Liveness::Alive);
    assert_eq!(r.open_ports, vec![22]);
    assert!(r.mac.is_none() && r.http_banner.is_none() && r.device_type.is_none());
}

#[test]
fn progress_is_reported_at_the_end_and_when_due() {
    let mut p = ProgressTracker::new(4);
    assert!(!p.record_completion(5_000_000));
    assert!(!p.record_completion(100_000_000));
    assert!(p.record_completion(100_000_001));
    assert!(p.record_completion(0));
    assert_eq!(p.completed(), 4);
    assert_eq!(p.total(), 4);
}

#[test]
fn cancel_only_running_scans() {
    let mut s = ScannerState::new();
    let token = CancellationToken::new();
    assert!(!s.cancel(1));
    s.register(1, token.clone());
    assert!(s.is_active(1));
    assert!(s.cancel(1));
    assert!(token.is_cancelled());
    s.finish(1);
    assert!(!s.is_active(1));
    assert!(!s.cancel(1));
}

#[test]
fn each_scan_keeps_its_own_token() {
    let mut s = ScannerState::new();
    let (t1, t2) = (CancellationToken::new(), CancellationToken::new());
    s.register(1, t1.clone());
    s.register(2, t2.clone());
    assert!(s.cancel(2));
    assert!(t2.is_cancelled());
    assert!(!t1.is_cancelled());
    s.finish(2);
    assert!(s.is_active(1) && !s.is_active(2));
}
