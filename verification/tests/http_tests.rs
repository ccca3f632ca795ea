use ipscanner::addr::ipv4;
use ipscanner::http::{banner_from_response, extract_title, pick_url};

#[test]
fn extracts_simple_title() {
    assert_eq!(extract_title("<title>Hello</title>"), Some("Hello".into()));
}

#[test]
fn extracts_with_attrs_and_entities() {
    let html = "<html><head><title id='t'>HP &amp; Co.\n LaserJet</title></head>";
    assert_eq!(extract_title(html), Some("HP & Co. LaserJet".into()));
}

#[test]
fn no_title_returns_none() {
    assert_eq!(extract_title("<html><head></head></html>"), None);
}

#[test]
fn title_tag_is_found_in_any_case() {
    assert_eq!(
        extract_title("<HTML><TITLE>  Router   Login  </TITLE></HTML>"),
        Some("Router Login".into())
    );
}

#[test]
fn blank_title_is_none() {
    assert_eq!(extract_title("<title>   \n\t </title>"), None);
}

#[test]
fn unterminated_title_is_none() {
    assert_eq!(extract_title("<title>Hello"), None);
    assert_eq!(extract_title("<title"), None);
}

#[test]
fn entities_are_decoded_once_each_in_order() {
    assert_eq!(
        extract_title("<title>&lt;a&gt; &quot;b&quot; &#39;c&#39;</title>"),
        Some("<a> \"b\" 'c'".into())
    );
    // `&amp;lt;` becomes `&lt;` first, which is then decoded again.
    assert_eq!(extract_title("<title>&amp;lt;</title>"), Some("<".into()));
    // a non-breaking space entity is collapsed with the white space around it
    assert_eq!(extract_title("<title>a &nbsp; b</title>"), Some("a b".into()));
    assert_eq!(extract_title("<title>&nbsp;</title>"), Some("".into()));
}

#[test]
fn picks_url_by_port_priority() {
    let a = ipv4(192, 168, 1, 10);
    assert_eq!(pick_url(a, &[80, 443]), Some("https://192.168.1.10/".to_string()));
    assert_eq!(pick_url(a, &[8080, 80]), Some("http://192.168.1.10/".to_string()));
    assert_eq!(pick_url(a, &[8080, 8443]), Some("https://192.168.1.10:8443/".to_string()));
    assert_eq!(pick_url(a, &[8080]), Some("http://192.168.1.10:8080/".to_string()));
    assert_eq!(pick_url(a, &[22, 3389]), None);
    assert_eq!(pick_url(a, &[]), None);
}

#[test]
fn banner_trims_server_and_reads_title() {
    let body = b"<html><title>Printer Status</title></html>";
    let b = banner_from_response(
        "http://10.0.0.5/".to_string(),
        200,
        Some("  Apache  ".to_string()),
        body,
    );
    assert_eq!(b.url, "http://10.0.0.5/");
    assert_eq!(b.status, 200);
    assert_eq!(b.server.as_deref(), Some("Apache"));
    assert_eq!(b.title.as_deref(), Some("Printer Status"));

    let b = banner_from_response("u".to_string(), 404, Some("   ".to_string()), b"");
    assert_eq!(b.server, None);
    assert_eq!(b.title, None);
}

#[test]
fn banner_title_only_searched_in_first_64k() {
    let mut body = vec![b' '; 65_536];
    body.extend_from_slice(b"<title>late</title>");
    let b = banner_from_response("u".to_string(), 200, None, &body);
    assert_eq!(b.title, None);

    let mut body = b"<title>early</title>".to_vec();
    body.extend(vec![b' '; 70_000]);
    let b = banner_from_response("u".to_string(), 200, None, &body);
    assert_eq!(b.title.as_deref(), Some("early"));
}

#[test]
fn banner_body_with_invalid_utf8_is_read_lossily() {
    let body = b"<title>caf\xff</title>";
    let b = banner_from_response("u".to_string(), 200, None, body);
    assert_eq!(b.title.as_deref(), Some("caf\u{fffd}"));
}

#[test]
fn title_white_space_is_collapsed_to_single_spaces() {
    assert_eq!(extract_title("<title>\n  Web \t\u{a0} Admin\r\n  Page </title>"), Some("Web Admin Page".into()));
    // an entity that decodes to white space alone leaves an empty title
    assert_eq!(extract_title("<title>&nbsp;</title>"), Some(String::new()));
}
