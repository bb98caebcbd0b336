use mdserve::mermaid::{is_etag_match, mermaid_etag, mermaid_response, serve_mermaid_js};
use mdserve::reply::{Body, Reply, Status};

fn header(reply: &Reply, name: &str) -> Option<String> {
    reply.headers.iter().find(|h| h.0 == name).map(|h| h.1.clone())
}

#[test]
fn tag_is_the_version_in_quotes() {
    assert_eq!(mermaid_etag("0.4.1"), "\"0.4.1\"");
}

#[test]
fn tags_match_one_by_one() {
    let etag = "\"0.4.1\"";
    assert!(is_etag_match(Some(b"\"0.4.1\""), etag));
    assert!(is_etag_match(Some(b"\"other\", \"0.4.1\""), etag));
    assert!(is_etag_match(Some(b"  \"0.4.1\"\t,\"x\""), etag));
    assert!(!is_etag_match(Some(b"\"0.4.0\""), etag));
    assert!(!is_etag_match(Some(b"0.4.1"), etag));
    assert!(!is_etag_match(Some(b"W/\"0.4.1\""), etag));
    assert!(!is_etag_match(Some(b""), etag));
    assert!(!is_etag_match(None, etag));
}

#[test]
fn header_that_is_not_text_matches_nothing() {
    assert!(!is_etag_match(Some(b"\xff, \"0.4.1\""), "\"0.4.1\""));
    assert!(!is_etag_match(Some(b"\"0.4.1\"\n"), "\"0.4.1\""));
    assert!(is_etag_match(Some(b"~, \"0.4.1\""), "\"0.4.1\""));
    assert!(!is_etag_match(Some(b"\x7f, \"0.4.1\""), "\"0.4.1\""));
}

#[test]
fn header_reading_agrees_with_http() {
    for b in 0..=255_u8 {
        let raw = [b, b',', b'x'];
        if let Ok(value) = axum::http::HeaderValue::from_bytes(&raw) {
            assert_eq!(is_etag_match(Some(&raw), "x"), value.to_str().is_ok());
        }
    }
}

#[test]
fn current_client_is_told_so() {
    let etag = mermaid_etag("0.4.1");
    let reply = serve_mermaid_js(Some(etag.as_bytes()), &etag, "script");
    assert_eq!(reply.status, Status::NotModified);
    assert_eq!(reply.status.code(), 304);
    assert!(matches!(reply.body, Body::Empty));
    assert_eq!(header(&reply, "etag"), Some(etag));
}

#[test]
fn other_clients_get_the_script() {
    let reply = serve_mermaid_js(None, "\"0.4.1\"", "script");
    assert_eq!(reply.status, Status::Success);
    assert_eq!(reply.status.code(), 200);
    assert!(matches!(&reply.body, Body::Text(text) if text == "script"));
    assert_eq!(header(&reply, "content-type").unwrap(), "application/javascript");
    assert_eq!(header(&reply, "etag").unwrap(), "\"0.4.1\"");
    assert_eq!(header(&reply, "cache-control").unwrap(), "public, no-cache");
    assert_eq!(reply.headers.len(), 3);
}

#[test]
fn response_without_a_script_is_empty() {
    assert!(matches!(mermaid_response(Status::Success, "x", None).body, Body::Empty));
}
