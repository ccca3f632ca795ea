use ipscanner::netbios::{nbstat_records, parse_nbstat_reply, select_netbios_names, NameEntry, NBSTAT_QUERY};

#[test]
fn parses_a_typical_reply() {
    // Hand-built minimal NBSTAT response: header + compressed name pointer
    // + type/class/ttl/rdlength + 2 names (PC-NAME unique 0x00, WORKGROUP group 0x00)
    let mut data = vec![
        0x12, 0x34, // ID
        0x84, 0x00, // flags (response, authoritative)
        0x00, 0x00, 0x00, 0x01, 0x00, 0x00, 0x00, 0x00, // counts
        0xC0, 0x0C, // name pointer
        0x00, 0x21, 0x00, 0x01, // type, class
        0x00, 0x00, 0x00, 0x00, // ttl
        0x00, 0x00, // rdlength (we won't validate)
        0x02, // 2 names
    ];
    // Name 1: "PC-NAME        " (15 bytes), suffix 0x00, flags 0x0400 (unique)
    let mut name1 = b"PC-NAME        ".to_vec();
    data.append(&mut name1);
    data.extend_from_slice(&[0x00, 0x04, 0x00]);
    // Name 2: "WORKGROUP      " (15 bytes), suffix 0x00, flags 0x8400 (group)
    let mut name2 = b"WORKGROUP      ".to_vec();
    data.append(&mut name2);
    data.extend_from_slice(&[0x00, 0x84, 0x00]);

    let info = parse_nbstat_reply(&data).expect("should parse");
    assert_eq!(info.name, "PC-NAME");
    assert_eq!(info.workgroup.as_deref(), Some("WORKGROUP"));
}

#[test]
fn returns_none_for_garbage() {
    assert!(parse_nbstat_reply(&[]).is_none());
    assert!(parse_nbstat_reply(&[0u8; 5]).is_none());
}

fn header_with_pointer(count: u8) -> Vec<u8> {
    let mut data = vec![0u8; 12];
    data.extend_from_slice(&[0xC0, 0x0C]);
    data.extend_from_slice(&[0x00, 0x21, 0x00, 0x01, 0, 0, 0, 0, 0, 0]);
    data.push(count);
    data
}

fn record(name: &[u8; 15], suffix: u8, flags: u8) -> Vec<u8> {
    let mut r = name.to_vec();
    r.push(suffix);
    r.push(flags);
    r.push(0);
    r
}

#[test]
fn literal_name_field_is_skipped() {
    let mut data = vec![0u8; 12];
    // NAME as labels: 3 "abc", 1 "d", 0
    data.extend_from_slice(&[3, b'a', b'b', b'c', 1, b'd', 0]);
    data.extend_from_slice(&[0x00, 0x21, 0x00, 0x01, 0, 0, 0, 0, 0, 0]);
    data.push(1);
    data.extend(record(b"HOST           ", 0x00, 0x04));
    let info = parse_nbstat_reply(&data).unwrap();
    assert_eq!(info.name, "HOST");
    assert_eq!(info.workgroup, None);
}

#[test]
fn name_running_past_the_end_is_rejected() {
    let mut data = vec![0u8; 12];
    data.extend_from_slice(&[40, b'a', b'b']);
    assert!(parse_nbstat_reply(&data).is_none());
}

#[test]
fn reply_ending_at_the_count_is_rejected() {
    let mut data = header_with_pointer(1);
    data.pop();
    assert!(parse_nbstat_reply(&data).is_none());
    // the count byte is present but no record fits: no computer name
    let data = header_with_pointer(3);
    assert!(nbstat_records(&data).unwrap().is_empty());
    assert!(parse_nbstat_reply(&data).is_none());
}

#[test]
fn records_that_do_not_fit_are_ignored() {
    let mut data = header_with_pointer(2);
    data.extend(record(b"FIRST          ", 0x00, 0x04));
    data.extend_from_slice(b"SECOND-PARTIAL");
    let recs = nbstat_records(&data).unwrap();
    assert_eq!(recs.len(), 1);
    assert_eq!(recs[0].raw, b"FIRST          ".to_vec());
    assert_eq!(recs[0].suffix, 0);
    assert_eq!(recs[0].flags, 0x04);
}

#[test]
fn workgroup_from_suffix_1e_and_first_computer_wins() {
    let mut data = header_with_pointer(4);
    data.extend(record(b"               ", 0x00, 0x04)); // blank: skipped
    data.extend(record(b"OFFICE         ", 0x1E, 0x84));
    data.extend(record(b"ALPHA          ", 0x00, 0x04));
    data.extend(record(b"BETA           ", 0x00, 0x04));
    let info = parse_nbstat_reply(&data).unwrap();
    assert_eq!(info.name, "ALPHA");
    assert_eq!(info.workgroup.as_deref(), Some("OFFICE"));
}

#[test]
fn only_group_names_give_no_answer() {
    let mut data = header_with_pointer(1);
    data.extend(record(b"WORKGROUP      ", 0x00, 0x84));
    assert!(parse_nbstat_reply(&data).is_none());
}

#[test]
fn selection_works_on_decoded_names() {
    let entries = vec![
        NameEntry { name: "GRP  ".to_string(), suffix: 0, group: true },
        NameEntry { name: "PC\t".to_string(), suffix: 0, group: false },
        NameEntry { name: "OTHER".to_string(), suffix: 0x1E, group: false },
    ];
    let info = select_netbios_names(&entries).unwrap();
    assert_eq!(info.name, "PC");
    assert_eq!(info.workgroup.as_deref(), Some("GRP"));
    assert!(select_netbios_names(&[]).is_none());
}

#[test]
fn query_packet_is_the_wildcard_node_status_query() {
    assert_eq!(NBSTAT_QUERY.len(), 50);
    assert_eq!(&NBSTAT_QUERY[12..15], &[0x20, b'C', b'K']);
    assert!(NBSTAT_QUERY[15..45].iter().all(|&b| b == b'A'));
    assert_eq!(&NBSTAT_QUERY[45..], &[0x00, 0x00, 0x21, 0x00, 0x01]);
}

#[test]
fn only_trailing_white_space_is_trimmed_from_names() {
    let entries = vec![
        NameEntry { name: " \t ".to_string(), suffix: 0, group: false },
        NameEntry { name: "  PC 1  ".to_string(), suffix: 0, group: false },
    ];
    let info = select_netbios_names(&entries).unwrap();
    assert_eq!(info.name, "  PC 1");
    assert_eq!(info.workgroup, None);
}
