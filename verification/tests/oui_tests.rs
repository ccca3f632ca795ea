use ipscanner::mac::{mac_info_from_reply, mac_string};
use ipscanner::oui::vendor_for;

#[test]
fn finds_vmware() {
    assert_eq!(vendor_for("00:50:56:12:34:56"), Some("VMware"));
    assert_eq!(vendor_for("00-50-56-12-34-56"), Some("VMware"));
    assert_eq!(vendor_for("005056123456"), Some("VMware"));
}

#[test]
fn finds_ubiquiti() {
    assert_eq!(vendor_for("ac:8b:f9:de:ad:be"), Some("Ubiquiti"));
}

#[test]
fn unknown_oui() {
    assert_eq!(vendor_for("ff:ff:ff:00:00:00"), None);
}

#[test]
fn malformed_input() {
    assert_eq!(vendor_for("xyz"), None);
    assert_eq!(vendor_for(""), None);
}

#[test]
fn upper_case_and_short_prefixes() {
    assert_eq!(vendor_for("AC:8B:F9"), Some("Ubiquiti"));
    assert_eq!(vendor_for("ac:8b:f"), None);
}

#[test]
fn first_listed_vendor_wins_for_a_shared_prefix() {
    assert_eq!(vendor_for("00:26:08:00:00:01"), Some("Apple"));
    assert_eq!(vendor_for("6c:0b:84:00:00:01"), Some("HPE-Aruba"));
    assert_eq!(vendor_for("00:06:5b:00:00:01"), Some("Dell"));
}

#[test]
fn mac_text_is_lower_case_hex_with_colons() {
    assert_eq!(mac_string(&[0x00, 0x50, 0x56, 0xAB, 0xcd, 0x0F]), "00:50:56:ab:cd:0f");
}

#[test]
fn mac_info_needs_a_successful_six_byte_reply() {
    let mac = [0x00, 0x0c, 0x29, 0x01, 0x02, 0x03, 0, 0];
    let info = mac_info_from_reply(0, &mac, 6).unwrap();
    assert_eq!(info.mac, "00:0c:29:01:02:03");
    assert_eq!(info.vendor.as_deref(), Some("VMware"));
    assert!(mac_info_from_reply(31, &mac, 6).is_none());
    assert!(mac_info_from_reply(0, &mac, 8).is_none());
    let unknown = [0xff, 0xff, 0xfe, 1, 2, 3];
    assert_eq!(mac_info_from_reply(0, &unknown, 6).unwrap().vendor, None);
}
