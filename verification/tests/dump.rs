use harbinger::dump::dump;
use harbinger::error::HarbingerError;
use harbinger::har::Entry;
use harbinger::har::Har;
use harbinger::har::Header;

fn entry(method: &str, url: &str, content_type: &str, body: Option<&str>) -> Entry {
    Entry::new(
        method.to_string(),
        url.to_string(),
        None,
        Vec::new(),
        200,
        vec![Header::new("Content-Type", content_type), Header::new("content-type", "other")],
        body.map(|b| b.to_string()),
    )
}

fn archive() -> Har {
    Har::new(
        vec!["p".to_string()],
        vec![
            entry("GET", "https://example.com/", "text/html", Some("<html>")),
            entry("POST", "https://example.com/api", "application/json", Some("{}")),
            entry("GET", "https://example.com/app.js", "application/javascript", Some("YWJj")),
            entry("GET", "https://example.com/empty", "text/plain", None),
        ],
    )
}

#[test]
fn dump_lists_a_file_for_each_get_entry() {
    let items = dump(&archive(), "out", false, true).unwrap();
    let shape: Vec<(usize, &str, &[u8], bool)> =
        items.iter().map(|i| (i.index, i.path.as_str(), i.body.as_slice(), i.script)).collect();
    assert_eq!(
        shape,
        vec![
            (0, "out/GET/example.com/__index__", b"<html>".as_slice(), false),
            (2, "out/GET/example.com/app.js", b"abc".as_slice(), true),
            (3, "out/GET/example.com/empty", b"".as_slice(), false),
        ]
    );
}

#[test]
fn dump_rewrites_scripts_only_where_asked() {
    let items = dump(&archive(), "out", false, false).unwrap();
    assert!(items.iter().all(|i| !i.script));
    assert_eq!(items.len(), 3);
}

#[test]
fn dump_will_not_write_into_an_existing_place() {
    assert!(matches!(dump(&archive(), "out", true, false), Err(HarbingerError::DumpPathExists)));
}

#[test]
fn dump_stops_at_a_url_that_is_no_reference() {
    let har = Har::new(
        vec!["p".to_string()],
        vec![
            entry("GET", "https://example.com/", "text/html", None),
            entry("POST", "bad url", "text/html", None),
        ],
    );
    match dump(&har, "out", false, false) {
        Err(HarbingerError::InvalidHarEntryUri { uri }) => assert_eq!(uri, "bad url"),
        _ => panic!("expected an invalid URI"),
    }
}
