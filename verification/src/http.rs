//! The HTTP banner of a host: which URL to fetch given its open ports, the
//! page title found in the body, and the `Server` header.

use vstd::prelude::*;
use crate::addr::{dotted, push_dotted};
use crate::ports::has_port;
use crate::text::{
    append_str, chars_of, collapse_white, collapse_white_chars, copy_range, find, find_chars,
    find_chars_from, find_from, lemma_collapse_white_single_spaced, lower_text, replace_all,
    replace_str, single_spaced, string_of, to_ascii_lower, trim, trimmed, utf8_lossy,
    utf8_lossy_text,
};

verus! {

/// What a host's web server answered.
#[derive(Debug, Clone)]
pub struct HttpBanner {
    pub url: String,
    pub title: Option<String>,
    pub server: Option<String>,
    pub status: u16,
}

/// The abstract value of an [`HttpBanner`].
pub struct HttpBannerView {
    pub url: Seq<char>,
    pub title: Option<Seq<char>>,
    pub server: Option<Seq<char>>,
    pub status: u16,
}

impl View for HttpBanner {
    type V = HttpBannerView;

    open spec fn view(&self) -> HttpBannerView {
        HttpBannerView {
            url: self.url@,
            title: self.title.deep_view(),
            server: self.server.deep_view(),
            status: self.status,
        }
    }
}

// ---------------------------------------------------------------------
// Which URL
// ---------------------------------------------------------------------

/// The URL to fetch from a host with the given open ports: HTTPS on 443,
/// else HTTP on 80, else HTTPS on 8443, else HTTP on 8080; none when no web
/// port is open.
pub open spec fn url_for(addr: u32, ports: Seq<u16>) -> Option<Seq<char>> {
    if ports.contains(443) {
        Some("https://"@ + dotted(addr) + "/"@)
    } else if ports.contains(80) {
        Some("http://"@ + dotted(addr) + "/"@)
    } else if ports.contains(8443) {
        Some("https://"@ + dotted(addr) + ":8443/"@)
    } else if ports.contains(8080) {
        Some("http://"@ + dotted(addr) + ":8080/"@)
    } else {
        None
    }
}

/// The web port is chosen in the order 443, 80, 8443, 8080; HTTPS is used
/// on 443 and 8443 and HTTP on 80 and 8080, the port is written only when
/// it is not the scheme's own, and the host is named by its dotted-decimal
/// address. No URL is chosen when none of these ports is open.
pub proof fn lemma_url_choice(addr: u32, ports: Seq<u16>)
    ensures
        url_for(addr, ports) is None <==> !ports.contains(443) && !ports.contains(80)
            && !ports.contains(8443) && !ports.contains(8080),
        ports.contains(443) ==> url_for(addr, ports) == Some("https://"@ + dotted(addr) + "/"@),
        !ports.contains(443) && ports.contains(80) ==> url_for(addr, ports) == Some(
            "http://"@ + dotted(addr) + "/"@,
        ),
        !ports.contains(443) && !ports.contains(80) && ports.contains(8443) ==> url_for(addr, ports)
            == Some("https://"@ + dotted(addr) + ":8443/"@),
        !ports.contains(443) && !ports.contains(80) && !ports.contains(8443) && ports.contains(8080)
            ==> url_for(addr, ports) == Some("http://"@ + dotted(addr) + ":8080/"@),
{
}

fn url_text(scheme: &str, addr: u32, tail: &str) -> (s: String)
    ensures
        s@ == scheme@ + dotted(addr) + tail@,
{
    let mut v: Vec<char> = Vec::new();
    append_str(&mut v, scheme);
    push_dotted(&mut v, addr);
    append_str(&mut v, tail);
    string_of(v.as_slice())
}

/// Picks the URL to fetch a banner from.
pub fn pick_url(addr: u32, open_ports: &[u16]) -> (r: Option<String>)
    ensures
        r.deep_view() == url_for(addr, open_ports@),
{
    if has_port(open_ports, 443) {
        Some(url_text("https://", addr, "/"))
    } else if has_port(open_ports, 80) {
        Some(url_text("http://", addr, "/"))
    } else if has_port(open_ports, 8443) {
        Some(url_text("https://", addr, ":8443/"))
    } else if has_port(open_ports, 8080) {
        Some(url_text("http://", addr, ":8080/"))
    } else {
        None
    }
}

// ---------------------------------------------------------------------
// Page title
// ---------------------------------------------------------------------

/// The common HTML entities decoded, one after the other: `&amp;`, `&lt;`,
/// `&gt;`, `&quot;`, `&#39;`, `&nbsp;` (not a full HTML decoder).
pub open spec fn decode_entities(s: Seq<char>) -> Seq<char> {
    let s1 = replace_all(s, "&amp;"@, "&"@);
    let s2 = replace_all(s1, "&lt;"@, "<"@);
    let s3 = replace_all(s2, "&gt;"@, ">"@);
    let s4 = replace_all(s3, "&quot;"@, "\""@);
    let s5 = replace_all(s4, "&#39;"@, "'"@);
    replace_all(s5, "&nbsp;"@, " "@)
}

/// The page title of an HTML text.
///
/// The tags are searched in the ASCII lower-cased text: the first `<title`,
/// the first `>` from there, then the first `</title>` after that. The text
/// between them, trimmed, must not be empty; it is returned with the common
/// entities decoded and every run of white space collapsed to one space.
pub open spec fn title_text(html: Seq<char>) -> Option<Seq<char>> {
    let lower = lower_text(html);
    match find(lower, "<title"@) {
        None => None,
        Some(start) => match find_from(lower, seq!['>'], start) {
            None => None,
            Some(gt) => match find_from(lower, "</title>"@, gt + 1) {
                None => None,
                Some(end) => {
                    let raw = trim(html.subrange(gt + 1, end));
                    if raw.len() == 0 {
                        None
                    } else {
                        Some(collapse_white(decode_entities(raw)))
                    }
                },
            },
        },
    }
}

/// A page title has no white space at either end and no run of white space:
/// only single spaces between words.
pub proof fn lemma_title_single_spaced(html: Seq<char>)
    ensures
        title_text(html) matches Some(t) ==> single_spaced(t),
{
    let lower = lower_text(html);
    if let Some(start) = find(lower, "<title"@) {
        if let Some(gt) = find_from(lower, seq!['>'], start) {
            if let Some(end) = find_from(lower, "</title>"@, gt + 1) {
                let raw = trim(html.subrange(gt + 1, end));
                lemma_collapse_white_single_spaced(decode_entities(raw));
            }
        }
    }
}

/// Extracts the page title from an HTML text.
pub fn extract_title(html: &str) -> (r: Option<String>)
    ensures
        r.deep_view() == title_text(html@),
{
    let h = chars_of(html);
    let lower = to_ascii_lower(h.as_slice());
    let open_tag = chars_of("<title");
    let start = match find_chars(lower.as_slice(), open_tag.as_slice()) {
        Some(i) => i,
        None => return None,
    };
    let mut gt_v: Vec<char> = Vec::new();
    gt_v.push('>');
    assert(gt_v@ == seq!['>']);
    let gt = match find_chars_from(lower.as_slice(), gt_v.as_slice(), start) {
        Some(i) => i,
        None => return None,
    };
    proof {
        crate::text::lemma_find_from(lower@, gt_v@, start as int);
        assert(crate::text::occurs_at(lower@, gt_v@, gt as int));
        assert(gt + 1 <= lower@.len());
        assert(lower@.len() == lower.len());
    }
    let close_tag = chars_of("</title>");
    let end = match find_chars_from(lower.as_slice(), close_tag.as_slice(), gt + 1) {
        Some(i) => i,
        None => return None,
    };
    proof {
        crate::text::lemma_find_from(lower@, close_tag@, gt + 1);
    }
    assert(lower@.len() == h@.len());
    let inner = copy_range(h.as_slice(), gt + 1, end);
    let raw = trimmed(inner.as_slice());
    if raw.len() == 0 {
        return None;
    }
    proof {
        reveal_strlit("&amp;");
        reveal_strlit("&lt;");
        reveal_strlit("&gt;");
        reveal_strlit("&quot;");
        reveal_strlit("&#39;");
        reveal_strlit("&nbsp;");
    }
    let s1 = replace_str(raw.as_slice(), "&amp;", "&");
    let s2 = replace_str(s1.as_slice(), "&lt;", "<");
    let s3 = replace_str(s2.as_slice(), "&gt;", ">");
    let s4 = replace_str(s3.as_slice(), "&quot;", "\"");
    let s5 = replace_str(s4.as_slice(), "&#39;", "'");
    let s6 = replace_str(s5.as_slice(), "&nbsp;", " ");
    let cleaned = collapse_white_chars(s6.as_slice());
    Some(string_of(cleaned.as_slice()))
}

// ---------------------------------------------------------------------
// Banner
// ---------------------------------------------------------------------

/// How much of a response body is searched for the title (64 KiB).
pub const BODY_SNIPPET_LIMIT: usize = 65536;

/// The first `BODY_SNIPPET_LIMIT` bytes of a body.
pub open spec fn body_snippet(body: Seq<u8>) -> Seq<u8> {
    if body.len() > BODY_SNIPPET_LIMIT {
        body.take(BODY_SNIPPET_LIMIT as int)
    } else {
        body
    }
}

/// A `Server` header value, trimmed; none when it is blank.
pub open spec fn clean_server(server: Option<Seq<char>>) -> Option<Seq<char>> {
    match server {
        Some(s) => if trim(s).len() > 0 {
            Some(trim(s))
        } else {
            None
        },
        None => None,
    }
}

/// The banner of a response: the URL that was fetched, the status code, the
/// `Server` header (trimmed, dropped when blank) and the title found in the
/// first 64 KiB of the body, read as UTF-8 with invalid sequences replaced.
pub fn banner_from_response(url: String, status: u16, server: Option<String>, body: &[u8]) -> (b:
    HttpBanner)
    ensures
        b@.url == url@,
        b@.status == status,
        b@.server == clean_server(server.deep_view()),
        b@.title == title_text(utf8_lossy_text(body_snippet(body@))),
{
    let server = match server {
        Some(s) => {
            let sc = chars_of(s.as_str());
            let t = trimmed(sc.as_slice());
            if t.len() > 0 {
                Some(string_of(t.as_slice()))
            } else {
                None
            }
        },
        None => None,
    };
    let n = if body.len() > BODY_SNIPPET_LIMIT {
        BODY_SNIPPET_LIMIT
    } else {
        body.len()
    };
    let mut snippet: Vec<u8> = Vec::new();
    let mut i: usize = 0;
    while i < n
        invariant
            n <= body.len(),
            i <= n,
            snippet@ == body@.take(i as int),
        decreases n - i,
    {
        snippet.push(body[i]);
        assert(body@.take(i as int + 1) == body@.take(i as int).push(body@[i as int]));
        i += 1;
    }
    assert(snippet@ == body_snippet(body@));
    let text = utf8_lossy(snippet.as_slice());
    let title = extract_title(text.as_str());
    HttpBanner { url, title, server, status }
}

} // verus!
