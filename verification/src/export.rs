//! The spreadsheet export of scan results: the header row and, for each
//! result, the cells of its row. Writing the workbook is the caller's.

use vstd::prelude::*;
use crate::addr::{dotted, push_dotted};
use crate::device::DeviceType;
use crate::text::{append_str, chars_of, decimal, push_decimal, string_of};
use crate::types::{Liveness, ScanResult, ScanResultView};
use crate::http::HttpBannerView;
use crate::mac::MacInfoView;
use crate::netbios::NetbiosInfoView;

verus! {

/// The column titles, in column order.
pub const EXPORT_HEADERS: [&'static str; 12] = [
    "IP",
    "Status",
    "Device type",
    "RTT (ms)",
    "Hostname",
    "NetBIOS name",
    "Workgroup",
    "MAC",
    "Vendor",
    "HTTP title",
    "HTTP server",
    "Open ports",
];

/// What a cell holds.
#[derive(Debug)]
pub enum CellValue {
    Text(String),
    Number(u32),
}

/// How a cell is formatted: plain, or as the status of a live host, or as
/// the status of a host that is dead or was not pinged.
#[derive(Debug, Clone, Copy, PartialEq, Eq, Structural)]
pub enum CellStyle {
    Plain,
    Alive,
    Dead,
}

/// One cell of the sheet (row 0 is the header row).
#[derive(Debug)]
pub struct ExportCell {
    pub row: u32,
    pub col: u16,
    pub value: CellValue,
    pub style: CellStyle,
}

/// The abstract value of a [`CellValue`].
pub enum CellValueView {
    Text(Seq<char>),
    Number(u32),
}

/// The abstract value of an [`ExportCell`].
pub struct ExportCellView {
    pub row: u32,
    pub col: u16,
    pub value: CellValueView,
    pub style: CellStyle,
}

impl View for ExportCell {
    type V = ExportCellView;

    open spec fn view(&self) -> ExportCellView {
        ExportCellView {
            row: self.row,
            col: self.col,
            value: match &self.value {
                CellValue::Text(s) => CellValueView::Text(s@),
                CellValue::Number(n) => CellValueView::Number(*n),
            },
            style: self.style,
        }
    }
}

// ---------------------------------------------------------------------
// Specification
// ---------------------------------------------------------------------

/// A device type as its lower-case name.
pub open spec fn device_label(d: DeviceType) -> Seq<char> {
    match d {
        DeviceType::Router => "router"@,
        DeviceType::Switch => "switch"@,
        DeviceType::AccessPoint => "accesspoint"@,
        DeviceType::Server => "server"@,
        DeviceType::Workstation => "workstation"@,
        DeviceType::Printer => "printer"@,
        DeviceType::Camera => "camera"@,
        DeviceType::Iot => "iot"@,
        DeviceType::Vm => "vm"@,
        DeviceType::Mobile => "mobile"@,
        DeviceType::Unknown => "unknown"@,
    }
}

/// The status text of a host.
pub open spec fn liveness_label(l: Liveness) -> Seq<char> {
    match l {
        Liveness::Alive => "alive"@,
        Liveness::Dead => "dead"@,
        Liveness::Unknown => "unknown"@,
    }
}

/// The format of a host's status cell.
pub open spec fn status_style(l: Liveness) -> CellStyle {
    match l {
        Liveness::Alive => CellStyle::Alive,
        _ => CellStyle::Dead,
    }
}

/// Ports in decimal, separated by ", ".
pub open spec fn port_list_text(ps: Seq<u16>) -> Seq<char>
    decreases ps.len(),
{
    if ps.len() == 0 {
        Seq::empty()
    } else if ps.len() == 1 {
        decimal(ps[0] as nat)
    } else {
        port_list_text(ps.drop_last()) + ", "@ + decimal(ps.last() as nat)
    }
}

pub open spec fn text_cell(row: u32, col: u16, t: Seq<char>) -> ExportCellView {
    ExportCellView { row, col, value: CellValueView::Text(t), style: CellStyle::Plain }
}

/// A plain text cell when there is a text, no cell otherwise.
pub open spec fn opt_text_cell(row: u32, col: u16, t: Option<Seq<char>>) -> Seq<ExportCellView> {
    match t {
        Some(x) => seq![text_cell(row, col, x)],
        None => Seq::empty(),
    }
}

/// The address and status cells.
pub open spec fn head_cells(row: u32, ip: u32, l: Liveness) -> Seq<ExportCellView> {
    seq![
        text_cell(row, 0, dotted(ip)),
        ExportCellView {
            row,
            col: 1,
            value: CellValueView::Text(liveness_label(l)),
            style: status_style(l),
        },
    ]
}

pub open spec fn device_cells(row: u32, d: Option<DeviceType>) -> Seq<ExportCellView> {
    match d {
        Some(d) => seq![text_cell(row, 2, device_label(d))],
        None => Seq::empty(),
    }
}

pub open spec fn rtt_cells(row: u32, rtt: Option<u32>) -> Seq<ExportCellView> {
    match rtt {
        Some(ms) => seq![
            ExportCellView { row, col: 3, value: CellValueView::Number(ms), style: CellStyle::Plain },
        ],
        None => Seq::empty(),
    }
}

pub open spec fn netbios_cells(row: u32, nb: Option<NetbiosInfoView>) -> Seq<ExportCellView> {
    match nb {
        Some(nb) => seq![text_cell(row, 5, nb.name)] + opt_text_cell(row, 6, nb.workgroup),
        None => Seq::empty(),
    }
}

pub open spec fn mac_cells(row: u32, m: Option<MacInfoView>) -> Seq<ExportCellView> {
    match m {
        Some(m) => seq![text_cell(row, 7, m.mac)] + opt_text_cell(row, 8, m.vendor),
        None => Seq::empty(),
    }
}

pub open spec fn banner_cells(row: u32, b: Option<HttpBannerView>) -> Seq<ExportCellView> {
    match b {
        Some(b) => opt_text_cell(row, 9, b.title) + opt_text_cell(row, 10, b.server),
        None => Seq::empty(),
    }
}

pub open spec fn ports_cells(row: u32, ps: Seq<u16>) -> Seq<ExportCellView> {
    if ps.len() > 0 {
        seq![text_cell(row, 11, port_list_text(ps))]
    } else {
        Seq::empty()
    }
}

/// The cells of one result in sheet row `row`: address and status always;
/// the other columns only where there is something to write (workgroup only
/// with a NetBIOS name, vendor only with a MAC address, open ports only
/// when there are some).
pub open spec fn row_cells(row: u32, r: ScanResultView) -> Seq<ExportCellView> {
    head_cells(row, r.ip, r.liveness) + device_cells(row, r.device_type) + rtt_cells(row, r.rtt_ms)
        + opt_text_cell(row, 4, r.hostname) + netbios_cells(row, r.netbios) + mac_cells(row, r.mac)
        + banner_cells(row, r.http_banner) + ports_cells(row, r.open_ports)
}

/// The cells of all results, result `i` in row `i + 1`.
pub open spec fn sheet_cells(rs: Seq<ScanResultView>) -> Seq<ExportCellView>
    decreases rs.len(),
{
    if rs.len() == 0 {
        Seq::empty()
    } else {
        sheet_cells(rs.drop_last()) + row_cells(rs.len() as u32, rs.last())
    }
}

/// The abstract value of a list of cells.
pub open spec fn cells_view(v: Seq<ExportCell>) -> Seq<ExportCellView> {
    v.map_values(|c: ExportCell| c@)
}

// ---------------------------------------------------------------------
// Every cell under its header
// ---------------------------------------------------------------------

/// Cell `c` of result `r` lies in a column that has a header and holds what
/// that header names: the address under "IP", the status (styled) under
/// "Status", and so on; a column for something the result lacks has no
/// cell.
pub open spec fn cell_under_header(c: ExportCellView, r: ScanResultView) -> bool {
    let h = EXPORT_HEADERS@[c.col as int]@;
    &&& c.col < 12
    &&& h == "IP"@ ==> c.value == CellValueView::Text(dotted(r.ip))
    &&& h == "Status"@ ==> (c.value == CellValueView::Text(
        if r.liveness == Liveness::Alive {
            "alive"@
        } else if r.liveness == Liveness::Dead {
            "dead"@
        } else {
            "unknown"@
        },
    ) && c.style == (if r.liveness == Liveness::Alive {
        CellStyle::Alive
    } else {
        CellStyle::Dead
    }))
    &&& h != "Status"@ ==> c.style == CellStyle::Plain
    &&& h == "Device type"@ ==> (r.device_type matches Some(d) && c.value == CellValueView::Text(
        device_label(d),
    ))
    &&& h == "RTT (ms)"@ ==> (r.rtt_ms matches Some(ms) && c.value == CellValueView::Number(ms))
    &&& h == "Hostname"@ ==> (r.hostname matches Some(n) && c.value == CellValueView::Text(n))
    &&& h == "NetBIOS name"@ ==> (r.netbios matches Some(nb) && c.value == CellValueView::Text(
        nb.name,
    ))
    &&& h == "Workgroup"@ ==> (r.netbios matches Some(nb) && nb.workgroup matches Some(w)
        && c.value == CellValueView::Text(w))
    &&& h == "MAC"@ ==> (r.mac matches Some(m) && c.value == CellValueView::Text(m.mac))
    &&& h == "Vendor"@ ==> (r.mac matches Some(m) && m.vendor matches Some(v) && c.value
        == CellValueView::Text(v))
    &&& h == "HTTP title"@ ==> (r.http_banner matches Some(b) && b.title matches Some(t)
        && c.value == CellValueView::Text(t))
    &&& h == "HTTP server"@ ==> (r.http_banner matches Some(b) && b.server matches Some(v)
        && c.value == CellValueView::Text(v))
    &&& h == "Open ports"@ ==> (r.open_ports.len() > 0 && c.value == CellValueView::Text(
        port_list_text(r.open_ports),
    ))
}

/// Every cell of `s` is in row `row` and lies under its header.
#[verifier::opaque]
pub open spec fn all_under_headers(s: Seq<ExportCellView>, row: u32, r: ScanResultView) -> bool {
    forall|i: int| 0 <= i < s.len() ==> (#[trigger] s[i]).row == row && cell_under_header(s[i], r)
}

proof fn lemma_all_under_concat(a: Seq<ExportCellView>, b: Seq<ExportCellView>, row: u32, r: ScanResultView)
    requires
        all_under_headers(a, row, r),
        all_under_headers(b, row, r),
    ensures
        all_under_headers(a + b, row, r),
{
    reveal(all_under_headers);
    assert forall|i: int| 0 <= i < (a + b).len() implies (#[trigger] (a + b)[i]).row == row
        && cell_under_header((a + b)[i], r) by {
        if i < a.len() {
            assert((a + b)[i] == a[i]);
        } else {
            assert((a + b)[i] == b[i - a.len()]);
        }
    }
}

proof fn lemma_header_texts()
    ensures
        EXPORT_HEADERS@[0]@ == "IP"@,
        EXPORT_HEADERS@[1]@ == "Status"@,
        EXPORT_HEADERS@[2]@ == "Device type"@,
        EXPORT_HEADERS@[3]@ == "RTT (ms)"@,
        EXPORT_HEADERS@[4]@ == "Hostname"@,
        EXPORT_HEADERS@[5]@ == "NetBIOS name"@,
        EXPORT_HEADERS@[6]@ == "Workgroup"@,
        EXPORT_HEADERS@[7]@ == "MAC"@,
        EXPORT_HEADERS@[8]@ == "Vendor"@,
        EXPORT_HEADERS@[9]@ == "HTTP title"@,
        EXPORT_HEADERS@[10]@ == "HTTP server"@,
        EXPORT_HEADERS@[11]@ == "Open ports"@,
        "IP"@.len() == 2,
        "Status"@.len() == 6,
        "Device type"@.len() == 11,
        "RTT (ms)"@.len() == 8,
        "Hostname"@.len() == 8,
        "NetBIOS name"@.len() == 12,
        "Workgroup"@.len() == 9,
        "MAC"@.len() == 3,
        "Vendor"@.len() == 6,
        "HTTP title"@.len() == 10,
        "HTTP server"@.len() == 11,
        "Open ports"@.len() == 10,
        "RTT (ms)"@[0] == 'R',
        "Hostname"@[0] == 'H',
        "Status"@[0] == 'S',
        "Vendor"@[0] == 'V',
        "HTTP title"@[0] == 'H',
        "Open ports"@[0] == 'O',
        "Device type"@[0] == 'D',
        "HTTP server"@[0] == 'H',
{
    reveal_strlit("IP");
    reveal_strlit("Status");
    reveal_strlit("Device type");
    reveal_strlit("RTT (ms)");
    reveal_strlit("Hostname");
    reveal_strlit("NetBIOS name");
    reveal_strlit("Workgroup");
    reveal_strlit("MAC");
    reveal_strlit("Vendor");
    reveal_strlit("HTTP title");
    reveal_strlit("HTTP server");
    reveal_strlit("Open ports");
}

proof fn lemma_head_under(row: u32, r: ScanResultView)
    ensures
        all_under_headers(head_cells(row, r.ip, r.liveness), row, r),
{
    reveal(all_under_headers);
    lemma_header_texts();
    let hd = head_cells(row, r.ip, r.liveness);
    assert(hd[0].col == 0 && hd[1].col == 1);
}

proof fn lemma_middle_under(row: u32, r: ScanResultView)
    ensures
        all_under_headers(device_cells(row, r.device_type), row, r),
        all_under_headers(rtt_cells(row, r.rtt_ms), row, r),
        all_under_headers(opt_text_cell(row, 4, r.hostname), row, r),
        all_under_headers(ports_cells(row, r.open_ports), row, r),
{
    reveal(all_under_headers);
    lemma_header_texts();
}

proof fn lemma_netbios_under(row: u32, r: ScanResultView)
    ensures
        all_under_headers(netbios_cells(row, r.netbios), row, r),
{
    reveal(all_under_headers);
    lemma_header_texts();
    let nb = netbios_cells(row, r.netbios);
    if let Some(n) = r.netbios {
        let w = opt_text_cell(row, 6, n.workgroup);
        assert(nb == seq![text_cell(row, 5, n.name)] + w);
        assert forall|i: int| 0 <= i < nb.len() implies (#[trigger] nb[i]).row == row
            && cell_under_header(nb[i], r) by {
            if i > 0 {
                assert(nb[i] == w[i - 1]);
            }
        }
    }
}

proof fn lemma_mac_under(row: u32, r: ScanResultView)
    ensures
        all_under_headers(mac_cells(row, r.mac), row, r),
{
    reveal(all_under_headers);
    lemma_header_texts();
    let mc = mac_cells(row, r.mac);
    if let Some(m) = r.mac {
        let v = opt_text_cell(row, 8, m.vendor);
        assert(mc == seq![text_cell(row, 7, m.mac)] + v);
        assert forall|i: int| 0 <= i < mc.len() implies (#[trigger] mc[i]).row == row
            && cell_under_header(mc[i], r) by {
            if i > 0 {
                assert(mc[i] == v[i - 1]);
            }
        }
    }
}

proof fn lemma_banner_under(row: u32, r: ScanResultView)
    ensures
        all_under_headers(banner_cells(row, r.http_banner), row, r),
{
    if let Some(b) = r.http_banner {
        let t = opt_text_cell(row, 9, b.title);
        let v = opt_text_cell(row, 10, b.server);
        assert(all_under_headers(t, row, r)) by {
            reveal(all_under_headers);
            lemma_header_texts();
        }
        assert(all_under_headers(v, row, r)) by {
            reveal(all_under_headers);
            lemma_header_texts();
        }
        lemma_all_under_concat(t, v, row, r);
    } else {
        reveal(all_under_headers);
    }
}

/// Each cell of a result's row lies under the header that names its
/// content (the address under "IP", the title under "HTTP title", the
/// `Server` header under "HTTP server", ...), and the address, the status
/// and, when the result has them, the title and the server each get their
/// cell.
pub proof fn lemma_cells_under_headers(row: u32, r: ScanResultView)
    ensures
        all_under_headers(row_cells(row, r), row, r),
        exists|i: int|
            0 <= i < row_cells(row, r).len() && EXPORT_HEADERS@[(#[trigger] row_cells(
                row,
                r,
            )[i]).col as int]@ == "IP"@,
        exists|i: int|
            0 <= i < row_cells(row, r).len() && EXPORT_HEADERS@[(#[trigger] row_cells(
                row,
                r,
            )[i]).col as int]@ == "Status"@,
        r.http_banner matches Some(b) ==> (b.title is Some ==> exists|i: int|
            0 <= i < row_cells(row, r).len() && EXPORT_HEADERS@[(#[trigger] row_cells(
                row,
                r,
            )[i]).col as int]@ == "HTTP title"@),
        r.http_banner matches Some(b) ==> (b.server is Some ==> exists|i: int|
            0 <= i < row_cells(row, r).len() && EXPORT_HEADERS@[(#[trigger] row_cells(
                row,
                r,
            )[i]).col as int]@ == "HTTP server"@),
{
    let hd = head_cells(row, r.ip, r.liveness);
    let dv = device_cells(row, r.device_type);
    let rt = rtt_cells(row, r.rtt_ms);
    let hn = opt_text_cell(row, 4, r.hostname);
    let nb = netbios_cells(row, r.netbios);
    let mc = mac_cells(row, r.mac);
    let bn = banner_cells(row, r.http_banner);
    let pt = ports_cells(row, r.open_ports);
    lemma_head_under(row, r);
    lemma_middle_under(row, r);
    lemma_netbios_under(row, r);
    lemma_mac_under(row, r);
    lemma_banner_under(row, r);
    let p1 = hd + dv;
    let p2 = p1 + rt;
    let p3 = p2 + hn;
    let p4 = p3 + nb;
    let p5 = p4 + mc;
    let p6 = p5 + bn;
    let p7 = p6 + pt;
    lemma_all_under_concat(hd, dv, row, r);
    lemma_all_under_concat(p1, rt, row, r);
    lemma_all_under_concat(p2, hn, row, r);
    lemma_all_under_concat(p3, nb, row, r);
    lemma_all_under_concat(p4, mc, row, r);
    lemma_all_under_concat(p5, bn, row, r);
    lemma_all_under_concat(p6, pt, row, r);
    let cells = row_cells(row, r);
    assert(cells == p7);
    lemma_header_texts();
    assert(cells[0] == hd[0]);
    assert(cells[1] == hd[1]);
    if let Some(b) = r.http_banner {
        let k = p5.len() as int;
        if b.title is Some {
            assert(cells[k] == bn[0]);
            assert(bn[0].col == 9);
        }
        if b.server is Some {
            let j = if b.title is Some {
                k + 1
            } else {
                k
            };
            assert(cells[j] == bn[j - k]);
            assert(bn[j - k].col == 10);
        }
    }
}

// ---------------------------------------------------------------------
// Implementation
// ---------------------------------------------------------------------

fn device_label_of(d: DeviceType) -> (s: &'static str)
    ensures
        s@ == device_label(d),
{
    match d {
        DeviceType::Router => "router",
        DeviceType::Switch => "switch",
        DeviceType::AccessPoint => "accesspoint",
        DeviceType::Server => "server",
        DeviceType::Workstation => "workstation",
        DeviceType::Printer => "printer",
        DeviceType::Camera => "camera",
        DeviceType::Iot => "iot",
        DeviceType::Vm => "vm",
        DeviceType::Mobile => "mobile",
        DeviceType::Unknown => "unknown",
    }
}

fn liveness_label_of(l: Liveness) -> (s: &'static str)
    ensures
        s@ == liveness_label(l),
{
    match l {
        Liveness::Alive => "alive",
        Liveness::Dead => "dead",
        Liveness::Unknown => "unknown",
    }
}

/// The ports in decimal, separated by ", ".
pub fn port_list(ports: &[u16]) -> (s: String)
    ensures
        s@ == port_list_text(ports@),
{
    let mut v: Vec<char> = Vec::new();
    let mut i: usize = 0;
    while i < ports.len()
        invariant
            i <= ports.len(),
            v@ == port_list_text(ports@.take(i as int)),
        decreases ports.len() - i,
    {
        assert(ports@.take(i as int + 1).drop_last() == ports@.take(i as int));
        if i > 0 {
            append_str(&mut v, ", ");
        }
        push_decimal(&mut v, ports[i] as u32);
        i += 1;
    }
    assert(ports@.take(ports.len() as int) == ports@);
    string_of(v.as_slice())
}

fn text_of(s: &String) -> (r: String)
    ensures
        r@ == s@,
{
    string_of(chars_of(s.as_str()).as_slice())
}

fn push_text(cells: &mut Vec<ExportCell>, row: u32, col: u16, t: String)
    ensures
        cells_view(final(cells)@) == cells_view(old(cells)@).push(text_cell(row, col, t@)),
{
    let c = ExportCell { row, col, value: CellValue::Text(t), style: CellStyle::Plain };
    let ghost before = cells_view(cells@);
    cells.push(c);
    assert(cells_view(cells@) =~= before.push(text_cell(row, col, t@)));
}

fn push_opt_text(cells: &mut Vec<ExportCell>, row: u32, col: u16, t: &Option<String>)
    ensures
        cells_view(final(cells)@) == cells_view(old(cells)@) + opt_text_cell(
            row,
            col,
            t.deep_view(),
        ),
{
    match t {
        Some(x) => {
            push_text(cells, row, col, text_of(x));
            assert(opt_text_cell(row, col, t.deep_view()) == seq![text_cell(row, col, x@)]);
        },
        None => {
            assert(cells_view(cells@) + opt_text_cell(row, col, t.deep_view()) == cells_view(
                cells@,
            ));
        },
    }
}

fn push_head(cells: &mut Vec<ExportCell>, row: u32, r: &ScanResult)
    ensures
        cells_view(final(cells)@) == cells_view(old(cells)@) + head_cells(row, r.ip, r.liveness),
{
    let ghost start = cells_view(cells@);
    let mut ip: Vec<char> = Vec::new();
    push_dotted(&mut ip, r.ip);
    push_text(cells, row, 0, string_of(ip.as_slice()));
    let status = string_of(chars_of(liveness_label_of(r.liveness)).as_slice());
    let ghost before = cells_view(cells@);
    let style = match r.liveness {
        Liveness::Alive => CellStyle::Alive,
        _ => CellStyle::Dead,
    };
    let sc = ExportCell { row, col: 1, value: CellValue::Text(status), style };
    cells.push(sc);
    assert(cells_view(cells@) =~= before.push(sc@));
    assert(cells_view(cells@) =~= start + head_cells(row, r.ip, r.liveness));
}

fn push_device(cells: &mut Vec<ExportCell>, row: u32, d: Option<DeviceType>)
    ensures
        cells_view(final(cells)@) == cells_view(old(cells)@) + device_cells(row, d),
{
    match d {
        Some(d) => push_text(cells, row, 2, string_of(chars_of(device_label_of(d)).as_slice())),
        None => {
            assert(cells_view(cells@) + device_cells(row, None) =~= cells_view(cells@));
        },
    }
}

fn push_rtt(cells: &mut Vec<ExportCell>, row: u32, rtt: Option<u32>)
    ensures
        cells_view(final(cells)@) == cells_view(old(cells)@) + rtt_cells(row, rtt),
{
    let ghost before = cells_view(cells@);
    match rtt {
        Some(ms) => {
            let c = ExportCell { row, col: 3, value: CellValue::Number(ms), style: CellStyle::Plain };
            cells.push(c);
            assert(cells_view(cells@) =~= before.push(c@));
        },
        None => {},
    }
    assert(cells_view(cells@) =~= before + rtt_cells(row, rtt));
}

fn push_netbios(cells: &mut Vec<ExportCell>, row: u32, r: &ScanResult)
    ensures
        cells_view(final(cells)@) == cells_view(old(cells)@) + netbios_cells(row, r@.netbios),
{
    let ghost before = cells_view(cells@);
    match &r.netbios {
        Some(nb) => {
            push_text(cells, row, 5, text_of(&nb.name));
            push_opt_text(cells, row, 6, &nb.workgroup);
        },
        None => {},
    }
    assert(cells_view(cells@) =~= before + netbios_cells(row, r@.netbios));
}

fn push_mac(cells: &mut Vec<ExportCell>, row: u32, r: &ScanResult)
    ensures
        cells_view(final(cells)@) == cells_view(old(cells)@) + mac_cells(row, r@.mac),
{
    let ghost before = cells_view(cells@);
    match &r.mac {
        Some(m) => {
            push_text(cells, row, 7, text_of(&m.mac));
            push_opt_text(cells, row, 8, &m.vendor);
        },
        None => {},
    }
    assert(cells_view(cells@) =~= before + mac_cells(row, r@.mac));
}

fn push_banner(cells: &mut Vec<ExportCell>, row: u32, r: &ScanResult)
    ensures
        cells_view(final(cells)@) == cells_view(old(cells)@) + banner_cells(row, r@.http_banner),
{
    let ghost before = cells_view(cells@);
    match &r.http_banner {
        Some(b) => {
            push_opt_text(cells, row, 9, &b.title);
            push_opt_text(cells, row, 10, &b.server);
        },
        None => {},
    }
    assert(cells_view(cells@) =~= before + banner_cells(row, r@.http_banner));
}

fn push_ports(cells: &mut Vec<ExportCell>, row: u32, ports: &[u16])
    ensures
        cells_view(final(cells)@) == cells_view(old(cells)@) + ports_cells(row, ports@),
{
    let ghost before = cells_view(cells@);
    if ports.len() > 0 {
        push_text(cells, row, 11, port_list(ports));
    }
    assert(cells_view(cells@) =~= before + ports_cells(row, ports@));
}

/// Appends the cells of one result in sheet row `row`.
#[verifier::spinoff_prover]
#[verifier::rlimit(40)]
pub fn push_row_cells(cells: &mut Vec<ExportCell>, row: u32, r: &ScanResult)
    ensures
        cells_view(final(cells)@) == cells_view(old(cells)@) + row_cells(row, r@),
{
    let ghost start = cells_view(cells@);
    let ghost v = r@;
    push_head(cells, row, r);
    push_device(cells, row, r.device_type);
    push_rtt(cells, row, r.rtt_ms);
    push_opt_text(cells, row, 4, &r.hostname);
    push_netbios(cells, row, r);
    push_mac(cells, row, r);
    push_banner(cells, row, r);
    push_ports(cells, row, r.open_ports.as_slice());
    assert(cells_view(cells@) =~= start + row_cells(row, v));
}

/// The cells of all results, result `i` in sheet row `i + 1` (the row
/// number wraps like an `as u32` conversion).
pub fn export_cells(results: &[ScanResult]) -> (cells: Vec<ExportCell>)
    ensures
        cells_view(cells@) == sheet_cells(results@.map_values(|r: ScanResult| r@)),
{
    let ghost rs = results@.map_values(|r: ScanResult| r@);
    let mut cells: Vec<ExportCell> = Vec::new();
    let mut i: usize = 0;
    while i < results.len()
        invariant
            i <= results.len(),
            rs == results@.map_values(|r: ScanResult| r@),
            cells_view(cells@) == sheet_cells(rs.take(i as int)),
        decreases results.len() - i,
    {
        assert(rs.take(i as int + 1).drop_last() == rs.take(i as int));
        assert(rs.take(i as int + 1).last() == results@[i as int]@);
        push_row_cells(&mut cells, (i + 1) as u32, &results[i]);
        i += 1;
    }
    assert(rs.take(results.len() as int) == rs);
    cells
}

} // verus!
