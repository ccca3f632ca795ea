use ipscanner::addr::ipv4;
use ipscanner::device::DeviceType;
use ipscanner::engine::scan_result;
use ipscanner::export::{export_cells, port_list, CellStyle, CellValue, EXPORT_HEADERS};
use ipscanner::mac::MacInfo;
use ipscanner::netbios::NetbiosInfo;
use ipscanner::types::Liveness;

fn text(v: &CellValue) -> &str {
    match v {
        CellValue::Text(s) => s.as_str(),
        CellValue::Number(_) => panic!("not text"),
    }
}

#[test]
fn headers() {
    assert_eq!(EXPORT_HEADERS.len(), 12);
    assert_eq!(EXPORT_HEADERS[0], "IP");
    assert_eq!(EXPORT_HEADERS[11], "Open ports");
}

#[test]
fn minimal_row_has_address_and_status() {
    let r = scan_result(1, ipv4(10, 0, 0, 2), Liveness::Dead, None, None, None, vec![]);
    let cells = export_cells(&[r]);
    assert_eq!(cells.len(), 2);
    assert_eq!((cells[0].row, cells[0].col), (1, 0));
    assert_eq!(text(&cells[0].value), "10.0.0.2");
    assert_eq!(text(&cells[1].value), "dead");
    assert_eq!(cells[1].style, CellStyle::Dead);
}

#[test]
fn full_row() {
    let mut r = scan_result(
        1,
        ipv4(192, 168, 1, 1),
        Liveness::Alive,
        Some(4),
        Some("gw.lan".to_string()),
        Some(NetbiosInfo { name: "GW".to_string(), workgroup: Some("HOME".to_string()) }),
        vec![22, 80, 443],
    );
    r.mac = Some(MacInfo { mac: "00:0c:29:00:00:01".to_string(), vendor: Some("VMware".to_string()) });
    r.device_type = Some(DeviceType::AccessPoint);
    let second = scan_result(1, ipv4(192, 168, 1, 2), Liveness::Unknown, None, None, None, vec![]);
    let cells = export_cells(&[r, second]);
    let cols: Vec<u16> = cells.iter().filter(|c| c.row == 1).map(|c| c.col).collect();
    assert_eq!(cols, vec![0, 1, 2, 3, 4, 5, 6, 7, 8, 11]);
    assert_eq!(cells[1].style, CellStyle::Alive);
    assert_eq!(text(&cells[2].value), "accesspoint");
    assert!(matches!(cells[3].value, CellValue::Number(4)));
    assert_eq!(text(&cells[9].value), "22, 80, 443");
    let last = &cells[cells.len() - 1];
    assert_eq!((last.row, last.col), (2, 1));
    assert_eq!(text(&last.value), "unknown");
    assert_eq!(last.style, CellStyle::Dead);
}

#[test]
fn port_list_text() {
    assert_eq!(port_list(&[]), "");
    assert_eq!(port_list(&[8080]), "8080");
    assert_eq!(port_list(&[0, 65535]), "0, 65535");
}
