use harbinger::error::HarbingerError;
use harbinger::har::Entry;
use harbinger::har::Har;
use harbinger::har::Header;
use harbinger::method::HttpMethod;

fn on_page(url: &str, page: Option<&str>) -> Entry {
    Entry::new(
        "GET".to_string(),
        url.to_string(),
        page.map(|p| p.to_string()),
        vec![Header::new("Accept", "*/*")],
        200,
        vec![Header::new("Content-Type", "text/plain")],
        Some("body".to_string()),
    )
}

fn urls(har: &Har) -> Vec<String> {
    har.entries.iter().map(|e| e.url.clone()).collect()
}

#[test]
fn one_page_keeps_every_entry() {
    let har = Har::new(
        vec!["page_1".to_string()],
        vec![
            on_page("https://example.com/a", Some("page_1")),
            on_page("https://example.com/b", None),
            on_page("https://example.com/c", Some("page_9")),
        ],
    );
    assert_eq!(har.page_id, "page_1");
    assert_eq!(
        urls(&har),
        vec!["https://example.com/a", "https://example.com/b", "https://example.com/c"]
    );
}

#[test]
fn several_pages_keep_the_entries_of_the_first() {
    let har = Har::new(
        vec!["page_1".to_string(), "page_2".to_string()],
        vec![
            on_page("https://example.com/a", Some("page_1")),
            on_page("https://example.com/b", Some("page_2")),
            on_page("https://example.com/c", None),
            on_page("https://example.com/d", Some("page_1")),
        ],
    );
    assert_eq!(har.page_id, "page_1");
    assert_eq!(urls(&har), vec!["https://example.com/a", "https://example.com/d"]);
}

#[test]
fn read_takes_the_supported_version_only() {
    let har = Har::read(
        "1.2",
        vec!["p".to_string()],
        vec![on_page("https://example.com/a", Some("p"))],
    )
    .unwrap();
    assert_eq!(har.entries.len(), 1);
    assert_eq!(har.primary_url(), "https://example.com/a");
    assert!(matches!(
        Har::read("1.3", vec!["p".to_string()], vec![]),
        Err(HarbingerError::UnsupportedHarVersion)
    ));
    assert!(matches!(
        Har::read("", vec!["p".to_string()], vec![]),
        Err(HarbingerError::UnsupportedHarVersion)
    ));
}

#[test]
fn read_wants_a_page() {
    assert!(matches!(
        Har::read("1.2", vec![], vec![on_page("https://example.com/a", None)]),
        Err(HarbingerError::HarError)
    ));
}

#[test]
fn origin_host_is_the_host_of_the_first_entry() {
    let har = Har::new(
        vec!["p".to_string()],
        vec![
            on_page("https://www.example.com:8080/a", None),
            on_page("https://cdn.example.net/b", None),
        ],
    );
    assert_eq!(har.origin_host().unwrap(), "www.example.com");
    assert_eq!(har.entries[1].hostname().unwrap(), "cdn.example.net");
}

#[test]
fn hostname_needs_an_authority() {
    let e = on_page("/only/a/path", None);
    assert!(e.uri().is_ok());
    match e.hostname() {
        Err(HarbingerError::InvalidHarEntryUri { uri }) => assert_eq!(uri, "/only/a/path"),
        _ => panic!("expected an invalid URI"),
    }
}

#[test]
fn entry_accessors_hand_back_what_was_recorded() {
    let e = on_page("https://example.com/a", Some("p"));
    assert_eq!(e.status(), 200);
    assert_eq!(e.res_headers(), vec![("Content-Type", "text/plain")]);
    assert_eq!(e.req_header("accept"), Some("*/*"));
    assert_eq!(e.req_header("content-type"), None);
    let copy = e.clone();
    assert_eq!(copy.url, e.url);
    assert_eq!(copy.method, e.method);
    assert_eq!(copy.pageref, e.pageref);
    assert_eq!(copy.status, e.status);
    assert_eq!(copy.body, e.body);
    assert_eq!(copy.res_headers.len(), 1);
    assert_eq!(copy.res_headers[0].value, "text/plain");
}

#[test]
fn entries_groups_by_method_and_url_without_query() {
    let mut post = on_page("https://example.com/a", None);
    post.method = "POST".to_string();
    let har = Har::new(
        vec!["p".to_string()],
        vec![
            on_page("https://example.com/a?x=1", None),
            on_page("https://cdn.example.net/lib.js", None),
            on_page("https://example.com/a?x=2#top", None),
            post,
            on_page("https://example.com:8080/a", None),
            on_page("https://example.com/a", None),
        ],
    );
    let groups = har.entries().unwrap();
    let shape: Vec<(HttpMethod, String, Vec<usize>)> = groups
        .iter()
        .map(|g| (g.method, g.key.clone(), g.candidates.iter().map(|c| c.index).collect()))
        .collect();
    assert_eq!(
        shape,
        vec![
            (HttpMethod::Get, "example.com/a".to_string(), vec![0, 2, 5]),
            (HttpMethod::Get, "cdn.example.net/lib.js".to_string(), vec![1]),
            (HttpMethod::Post, "example.com/a".to_string(), vec![3]),
            (HttpMethod::Get, "example.com:8080/a".to_string(), vec![4]),
        ]
    );
    let first = &groups[0];
    assert_eq!(first.candidates[0].query.as_deref(), Some("x=1"));
    assert_eq!(first.candidates[1].query.as_deref(), Some("x=2"));
    assert_eq!(first.candidates[2].query, None);
    assert_eq!(first.candidates[1].hostname, "example.com");
    assert_eq!(first.candidates[1].path, "/a");
    assert_eq!(first.candidates[1].entry.url, "https://example.com/a?x=2#top");
}

#[test]
fn entries_fails_on_the_first_entry_that_cannot_be_routed() {
    let mut brew = on_page("not a uri", None);
    brew.method = "BREW".to_string();
    let har = Har::new(
        vec!["p".to_string()],
        vec![on_page("https://example.com/a", None), on_page("no authority", None), brew],
    );
    match har.entries() {
        Err(HarbingerError::InvalidHarEntryUri { uri }) => assert_eq!(uri, "no authority"),
        _ => panic!("expected an invalid URI"),
    }
    let mut brew = on_page("not a uri", None);
    brew.method = "BREW".to_string();
    let har = Har::new(vec!["p".to_string()], vec![brew]);
    match har.entries() {
        Err(HarbingerError::InvalidHarEntryMethod { method }) => assert_eq!(method, "BREW"),
        _ => panic!("expected an invalid method"),
    }
    let har = Har::new(vec!["p".to_string()], vec![on_page("/relative", None)]);
    match har.entries() {
        Err(HarbingerError::InvalidHarEntryUri { uri }) => assert_eq!(uri, "/relative"),
        _ => panic!("expected an invalid URI"),
    }
}

#[test]
fn entries_of_an_empty_archive_are_no_groups() {
    let har = Har::new(vec!["p".to_string()], vec![]);
    assert!(har.entries().unwrap().is_empty());
}
