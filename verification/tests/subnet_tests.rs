use ipscanner::addr::ipv4;
use ipscanner::ports::open_ports_sorted;
use ipscanner::subnet::{choose_subnet, InterfaceV4};

fn iface(name: &str, ip: u32, mask: u32) -> InterfaceV4 {
    InterfaceV4 { name: name.to_string(), ip, netmask: mask }
}

#[test]
fn picks_the_first_non_loopback_interface_with_a_usable_prefix() {
    let ifs = vec![
        iface("lo", ipv4(127, 0, 0, 1), ipv4(255, 0, 0, 0)),
        iface("p2p", ipv4(10, 0, 0, 1), ipv4(255, 255, 255, 254)),
        iface("VMware Network Adapter", ipv4(192, 168, 56, 1), ipv4(255, 255, 255, 0)),
        iface("Ethernet", ipv4(10, 1, 2, 3), ipv4(255, 255, 0, 0)),
        iface("Wi-Fi", ipv4(192, 168, 1, 20), ipv4(255, 255, 255, 0)),
    ];
    assert_eq!(choose_subnet(&ifs), Some("192.168.56.0/24".to_string()));
}

#[test]
fn link_local_interfaces_are_offered_too() {
    let ifs = vec![iface("Ethernet", ipv4(169, 254, 1, 1), ipv4(255, 255, 0, 0))];
    assert_eq!(choose_subnet(&ifs), Some("169.254.0.0/16".to_string()));
}

#[test]
fn excluded_interfaces() {
    let ifs = vec![
        iface("lo", ipv4(127, 0, 0, 1), ipv4(255, 255, 255, 0)),
        iface("p2p", ipv4(10, 0, 0, 1), ipv4(255, 255, 255, 254)),
        iface("huge", ipv4(10, 0, 0, 1), ipv4(254, 0, 0, 0)),
    ];
    assert_eq!(choose_subnet(&ifs), None);
    assert_eq!(choose_subnet(&[]), None);
}

#[test]
fn open_ports_are_sorted() {
    assert_eq!(open_ports_sorted(&[(443, true), (22, true), (80, false), (8080, true)]), vec![22, 443, 8080]);
    assert_eq!(open_ports_sorted(&[(1, false)]), Vec::<u16>::new());
}
