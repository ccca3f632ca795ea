use ipscanner::device::{guess, DeviceType};
use ipscanner::http::HttpBanner;
use ipscanner::netbios::NetbiosInfo;

fn banner(server: Option<&str>, title: Option<&str>) -> HttpBanner {
    HttpBanner {
        url: "http://10.0.0.1/".to_string(),
        title: title.map(|s| s.to_string()),
        server: server.map(|s| s.to_string()),
        status: 200,
    }
}

#[test]
fn banner_decides_first() {
    let b = banner(Some("HP HTTP Server"), Some("HP Color LaserJet MFP"));
    assert_eq!(guess(Some("VMware"), &[22], Some(&b), None), DeviceType::Printer);
    let b = banner(None, Some("Hikvision Web"));
    assert_eq!(guess(None, &[9100], Some(&b), None), DeviceType::Camera);
    let b = banner(Some("UniFi"), None);
    assert_eq!(guess(None, &[], Some(&b), None), DeviceType::AccessPoint);
    let b = banner(None, Some("Switch Management Console"));
    assert_eq!(guess(None, &[], Some(&b), None), DeviceType::Switch);
    let b = banner(None, Some("Home Gateway"));
    assert_eq!(guess(None, &[], Some(&b), None), DeviceType::Router);
    let b = banner(Some("nginx"), Some("Synology DiskStation"));
    assert_eq!(guess(None, &[], Some(&b), None), DeviceType::Server);
}

#[test]
fn banner_without_a_known_word_falls_back() {
    let b = banner(Some("nginx"), Some("Welcome"));
    assert_eq!(guess(Some("Cisco"), &[], Some(&b), None), DeviceType::Switch);
    assert_eq!(guess(None, &[443], Some(&b), None), DeviceType::Server);
}

#[test]
fn vendor_decides_second() {
    assert_eq!(guess(Some("Microsoft Hyper-V"), &[3389], None, None), DeviceType::Vm);
    assert_eq!(guess(Some("Axis-Communications"), &[], None, None), DeviceType::Camera);
    assert_eq!(guess(Some("Seiko-Epson"), &[], None, None), DeviceType::Printer);
    assert_eq!(guess(Some("Ubiquiti"), &[], None, None), DeviceType::AccessPoint);
    assert_eq!(guess(Some("QNAP"), &[], None, None), DeviceType::Server);
    assert_eq!(guess(Some("Amazon-Ring"), &[], None, None), DeviceType::Iot);
    assert_eq!(guess(Some("Raspberry-Pi"), &[], None, None), DeviceType::Server);
    assert_eq!(guess(Some("Dell"), &[22], None, None), DeviceType::Server);
}

#[test]
fn ports_and_netbios_decide_last() {
    let nb = NetbiosInfo { name: "PC".to_string(), workgroup: None };
    assert_eq!(guess(None, &[631], None, Some(&nb)), DeviceType::Printer);
    assert_eq!(guess(None, &[3389], None, None), DeviceType::Workstation);
    assert_eq!(guess(None, &[22], None, Some(&nb)), DeviceType::Workstation);
    assert_eq!(guess(None, &[22, 80], None, None), DeviceType::Server);
    assert_eq!(guess(None, &[8080], None, None), DeviceType::Unknown);
    assert_eq!(guess(None, &[], None, None), DeviceType::Unknown);
}
