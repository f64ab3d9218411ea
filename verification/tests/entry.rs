use harbinger::error::HarbingerError;
use harbinger::har::Entry;
use harbinger::har::Header;
use harbinger::method::HttpMethod;

fn entry(method: &str, url: &str, headers: Vec<Header>, body: Option<&str>) -> Entry {
    Entry::new(
        method.to_string(),
        url.to_string(),
        None,
        Vec::new(),
        200,
        headers,
        body.map(|b| b.to_string()),
    )
}

#[test]
fn uri_splits_an_absolute_url() {
    let e = entry("GET", "https://user:pw@example.com:8443/a/b?x=1#frag", vec![], None);
    let uri = e.uri().unwrap();
    let authority = uri.authority.as_ref().unwrap();
    assert_eq!(authority.host, "example.com");
    assert_eq!(authority.port, Some(8443));
    assert_eq!(authority.user_info.as_deref(), Some("user:pw"));
    assert_eq!(authority.text(), "user:pw@example.com:8443");
    assert_eq!(uri.path, "/a/b");
    assert_eq!(uri.query.as_deref(), Some("x=1"));
    assert_eq!(uri.without_query().as_deref(), Some("user:pw@example.com:8443/a/b"));
}

#[test]
fn uri_rejects_what_is_no_reference() {
    let e = entry("GET", "foo bar", vec![], None);
    match e.uri() {
        Err(HarbingerError::InvalidHarEntryUri { uri }) => assert_eq!(uri, "foo bar"),
        _ => panic!("expected an invalid URI"),
    }
}

#[test]
fn method_is_matched_by_exact_spelling() {
    assert_eq!(entry("GET", "/", vec![], None).method().unwrap(), HttpMethod::Get);
    assert_eq!(entry("PATCH", "/", vec![], None).method().unwrap(), HttpMethod::Patch);
    match entry("get", "/", vec![], None).method() {
        Err(HarbingerError::InvalidHarEntryMethod { method }) => assert_eq!(method, "get"),
        _ => panic!("expected an invalid method"),
    }
}

#[test]
fn body_is_decoded_where_it_is_base64() {
    let e = entry("GET", "/", vec![], Some("aGVsbG8="));
    assert_eq!(e.res_body(), Some(b"hello".to_vec()));
    let e = entry("GET", "/", vec![], Some("<html>"));
    assert_eq!(e.res_body(), Some(b"<html>".to_vec()));
    assert_eq!(entry("GET", "/", vec![], None).res_body(), None);
}

#[test]
fn header_lookup_ignores_case_and_takes_the_first() {
    let e = entry(
        "GET",
        "/",
        vec![Header::new("Content-Type", "text/html"), Header::new("content-type", "x")],
        None,
    );
    assert_eq!(e.res_header("content-type"), Some("text/html"));
    assert_eq!(e.res_header("CONTENT-TYPE"), Some("text/html"));
    assert_eq!(e.res_header("etag"), None);
}
