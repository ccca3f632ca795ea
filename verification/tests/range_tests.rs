use ipscanner::addr::{ipv4, ipv4_text};
use ipscanner::range::{cidr_hosts, parse_targets, range_hosts, sorted_unique};

#[test]
fn parses_single_ip() {
    let r = parse_targets("10.0.0.1").unwrap();
    assert_eq!(r, vec![ipv4(10, 0, 0, 1)]);
}

#[test]
fn parses_cidr_24() {
    let r = parse_targets("192.168.1.0/24").unwrap();
    assert_eq!(r.len(), 254); // /24 excludes network + broadcast
}

#[test]
fn parses_short_range() {
    let r = parse_targets("192.168.1.5-7").unwrap();
    assert_eq!(
        r,
        vec![ipv4(192, 168, 1, 5), ipv4(192, 168, 1, 6), ipv4(192, 168, 1, 7),]
    );
}

#[test]
fn parses_explicit_range() {
    let r = parse_targets("10.0.0.254-10.0.1.2").unwrap();
    assert_eq!(r.len(), 5);
}

#[test]
fn dedups_and_sorts() {
    let r = parse_targets("10.0.0.2, 10.0.0.1, 10.0.0.2").unwrap();
    assert_eq!(r, vec![ipv4(10, 0, 0, 1), ipv4(10, 0, 0, 2)]);
}

#[test]
fn rejects_huge_range() {
    assert!(parse_targets("10.0.0.0/4").is_err());
}

#[test]
fn rejects_empty() {
    assert!(parse_targets("   ").is_err());
}

fn err(s: &str) -> String {
    parse_targets(s).unwrap_err()
}

#[test]
fn error_messages() {
    assert_eq!(err("   "), "no targets provided");
    assert_eq!(err(",;\n"), "no targets provided");
    assert_eq!(err("10.0.0.256"), "invalid IP: 10.0.0.256");
    assert_eq!(err("10.0.0.01"), "invalid IP: 10.0.0.01");
    assert_eq!(err("host.example"), "invalid IP: host.example");
    assert_eq!(err("10.0.0 -5"), "invalid range start: 10.0.0 ");
    assert_eq!(err("10.0.0.5- x"), "invalid range end: x");
    assert_eq!(err("10.0.0.5-256"), "invalid range end: 256");
    assert_eq!(err("10.0.0.5-3"), "range end before start: 10.0.0.5-3");
    assert_eq!(err("10.0.0.0-10.16.0.0"), "range too large (>1M hosts): 10.0.0.0-10.16.0.0");
    assert_eq!(err("10.0.0.0/33"), "invalid CIDR 10.0.0.0/33: invalid IP address syntax");
    assert_eq!(err("10.0.0.0/7"), "CIDR too large (prefix must be >= 8): 10.0.0.0/7");
    // the first failing target decides
    assert_eq!(err("10.0.0.1, bad, 10.0.0.0/4"), "invalid IP: bad");
}

#[test]
fn separators_and_blank_pieces() {
    let r = parse_targets(" 10.0.0.3 ;\n\n10.0.0.1,,10.0.0.2 ").unwrap();
    assert_eq!(r, vec![ipv4(10, 0, 0, 1), ipv4(10, 0, 0, 2), ipv4(10, 0, 0, 3)]);
}

#[test]
fn short_range_end_forms() {
    // an explicit `+` and leading zeros are read as u8 text
    let r = parse_targets("10.0.0.5-+007").unwrap();
    assert_eq!(r, vec![ipv4(10, 0, 0, 5), ipv4(10, 0, 0, 6), ipv4(10, 0, 0, 7)]);
    let r = parse_targets("10.0.0.5 - 5").unwrap();
    assert_eq!(r, vec![ipv4(10, 0, 0, 5)]);
}

#[test]
fn ranges_overlapping_a_cidr_are_merged() {
    let r = parse_targets("10.0.0.0/30, 10.0.0.2-4").unwrap();
    assert_eq!(r, vec![ipv4(10, 0, 0, 1), ipv4(10, 0, 0, 2), ipv4(10, 0, 0, 3), ipv4(10, 0, 0, 4)]);
}

#[test]
fn small_prefixes_keep_every_address() {
    assert_eq!(parse_targets("10.0.0.7/32").unwrap(), vec![ipv4(10, 0, 0, 7)]);
    assert_eq!(
        parse_targets("10.0.0.7/31").unwrap(),
        vec![ipv4(10, 0, 0, 6), ipv4(10, 0, 0, 7)]
    );
    // host bits in the written address do not matter
    let a = parse_targets("192.168.1.77/24").unwrap();
    assert_eq!(a.first(), Some(&ipv4(192, 168, 1, 1)));
    assert_eq!(a.last(), Some(&ipv4(192, 168, 1, 254)));
}

#[test]
fn cidr_with_leading_zeros_is_read_by_the_network_parser() {
    // the network parser accepts leading zeros, unlike the single-address form
    let r = parse_targets("010.0.0.0/30").unwrap();
    assert_eq!(r, vec![ipv4(10, 0, 0, 1), ipv4(10, 0, 0, 2)]);
}

#[test]
fn largest_allowed_range_is_accepted() {
    let r = parse_targets("10.0.0.0-10.15.66.64").unwrap();
    assert_eq!(r.len(), 1_000_001);
}

#[test]
fn range_and_cidr_pieces() {
    let tok: Vec<char> = "1.2.3.4-9".chars().collect();
    let start: Vec<char> = "1.2.3.4".chars().collect();
    let end: Vec<char> = "9".chars().collect();
    assert_eq!(range_hosts(&tok, &start, &end).unwrap().len(), 6);
    let tok: Vec<char> = "x".chars().collect();
    assert_eq!(
        cidr_hosts(&tok, Err("oops".to_string())).unwrap_err(),
        "invalid CIDR x: oops"
    );
    assert_eq!(cidr_hosts(&tok, Ok((ipv4(10, 1, 2, 3), 30))).unwrap(), vec![ipv4(10, 1, 2, 1), ipv4(10, 1, 2, 2)]);
}

#[test]
fn sorted_unique_orders_and_drops_repeats() {
    assert_eq!(sorted_unique(vec![5, 1, 5, 3, 1]), vec![1, 3, 5]);
    assert_eq!(sorted_unique(vec![]), Vec::<u32>::new());
}

#[test]
fn dotted_text() {
    assert_eq!(ipv4_text(ipv4(192, 168, 0, 1)), "192.168.0.1");
    assert_eq!(ipv4_text(0), "0.0.0.0");
    assert_eq!(ipv4_text(u32::MAX), "255.255.255.255");
}

#[test]
fn dotted_text_reads_back_as_one_target() {
    for a in [ipv4(0, 0, 0, 0), ipv4(255, 255, 255, 255), ipv4(10, 0, 0, 1), ipv4(192, 168, 100, 9)] {
        assert_eq!(parse_targets(&ipv4_text(a)).unwrap(), vec![a]);
    }
}

#[test]
fn order_and_repetition_do_not_matter() {
    let a = parse_targets("10.0.0.3, 10.0.0.1-2, 10.0.0.2").unwrap();
    let b = parse_targets("10.0.0.1\n10.0.0.2;10.0.0.3;10.0.0.1").unwrap();
    assert_eq!(a, b);
    assert_eq!(a, vec![ipv4(10, 0, 0, 1), ipv4(10, 0, 0, 2), ipv4(10, 0, 0, 3)]);
}

#[test]
fn swapping_targets_and_separators_gives_the_same_result() {
    let (a, b) = ("192.168.1.5-7, 10.0.0.0/30", "10.0.0.9\n192.168.1.6");
    let one = parse_targets(&format!("{a},{b}"));
    assert_eq!(one.clone().ok(), parse_targets(&format!("{b}\n{a}")).ok());
    assert_eq!(one.clone().ok(), parse_targets(&format!("{a};{b}")).ok());
    assert_eq!(one.unwrap().len(), 6);
    // an invalid target fails whichever side it is on
    assert!(parse_targets("bad;10.0.0.1").is_err());
    assert!(parse_targets("10.0.0.1,bad").is_err());
}
