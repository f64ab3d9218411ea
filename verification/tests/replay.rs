use harbinger::error::HarbingerError;
use harbinger::har::Entry;
use harbinger::har::Header;
use harbinger::replay::is_unforwarded;
use harbinger::replay::relocate;
use harbinger::replay::rewrite_headers;
use harbinger::replay::same_query;
use harbinger::replay::EntryHandler;
use harbinger::replay::FileLookup;
use harbinger::replay::Outcome;
use harbinger::replay::Plan;
use harbinger::replay::Recorded;

const POLICY: &str = "base-uri 'self'; default-src * 'unsafe-inline' 'unsafe-eval'; worker-src 'self'";

fn recorded(url: &str, query: Option<&str>, status: i64, headers: Vec<Header>, body: Option<&str>) -> Recorded {
    Recorded {
        entry: Entry::new(
            "GET".to_string(),
            url.to_string(),
            None,
            Vec::new(),
            status,
            headers,
            body.map(|b| b.to_string()),
        ),
        hostname: "example.com".to_string(),
        query: query.map(|q| q.to_string()),
    }
}

fn pairs(headers: &Vec<Header>) -> Vec<(String, String)> {
    headers.iter().map(|h| (h.name.clone(), h.value.clone())).collect()
}

fn pair(name: &str, value: &str) -> (String, String) {
    (name.to_string(), value.to_string())
}

fn handler() -> EntryHandler {
    EntryHandler {
        entries: vec![
            recorded("https://example.com/a?x=1", Some("x=1"), 200, vec![], Some("one")),
            recorded("https://example.com/a?x=2", Some("x=2"), 201, vec![], Some("two")),
            recorded("https://example.com/a?x=1", Some("x=1"), 202, vec![], Some("again")),
            recorded("https://example.com/a", None, 203, vec![], None),
        ],
        dump_path: None,
    }
}

#[test]
fn select_takes_the_earliest_entry_with_the_query() {
    let h = handler();
    assert_eq!(h.select(Some("x=1")), Some(0));
    assert_eq!(h.select(Some("x=2")), Some(1));
    assert_eq!(h.select(None), Some(3));
    assert_eq!(h.select(Some("x=3")), None);
    assert_eq!(h.select(Some("")), None);
    assert_eq!(h.select(Some("X=1")), None);
}

#[test]
fn same_query_tells_absent_from_empty() {
    assert!(same_query(None, None));
    assert!(same_query(Some(""), Some("")));
    assert!(same_query(Some("a=b"), Some("a=b")));
    assert!(!same_query(None, Some("")));
    assert!(!same_query(Some("a=b"), Some("a=c")));
}

#[test]
fn denylisted_headers_are_left_out() {
    let recorded = vec![
        Header::new("X-Frame-Options", "DENY"),
        Header::new("x-content-type-options", "nosniff"),
        Header::new("X-XSS-Protection", "1"),
        Header::new("Access-Control-Allow-Origin", "*"),
        Header::new("Access-Control-Allow-Credentials", "true"),
        Header::new("Content-Encoding", "gzip"),
        Header::new("Transfer-Encoding", "chunked"),
        Header::new("CONTENT-LENGTH", "12"),
        Header::new("Content-Type", "text/html"),
        Header::new("Set-Cookie", "a=1"),
        Header::new("Set-Cookie", "b=2"),
    ];
    let out = rewrite_headers(&recorded, "example.com");
    assert_eq!(
        pairs(&out),
        vec![
            pair("Content-Type", "text/html"),
            pair("Set-Cookie", "a=1"),
            pair("Set-Cookie", "b=2"),
            pair("content-security-policy", POLICY),
        ]
    );
    for header in &out {
        assert!(!is_unforwarded(&header.name.to_ascii_lowercase()));
    }
}

#[test]
fn recorded_policy_gives_way_to_the_fixed_one() {
    let recorded = vec![
        Header::new("Content-Security-Policy", "default-src 'none'"),
        Header::new("content-security-policy", "script-src 'self'"),
        Header::new("ETag", "abc"),
    ];
    let out = rewrite_headers(&recorded, "example.com");
    assert_eq!(pairs(&out), vec![pair("ETag", "abc"), pair("content-security-policy", POLICY)]);
}

#[test]
fn location_is_moved_under_the_recorded_host() {
    assert_eq!(relocate("example.com", "/foo"), "/example.com/foo");
    assert_eq!(relocate("example.com", "foo"), "/example.com/foo");
    assert_eq!(relocate("example.com", ""), "/example.com/");
    assert_eq!(
        relocate("example.com", "https://other.org/x"),
        "/example.com/https://other.org/x"
    );
    let out = rewrite_headers(&vec![Header::new("Location", "/foo")], "example.com");
    assert_eq!(
        pairs(&out),
        vec![pair("Location", "/example.com/foo"), pair("content-security-policy", POLICY)]
    );
}

#[test]
fn is_unforwarded_knows_the_eight_names() {
    for name in [
        "x-frame-options",
        "x-content-type-options",
        "x-xss-protection",
        "access-control-allow-origin",
        "access-control-allow-credentials",
        "content-encoding",
        "transfer-encoding",
        "content-length",
    ] {
        assert!(is_unforwarded(name), "{}", name);
    }
    assert!(!is_unforwarded("content-type"));
    assert!(!is_unforwarded("location"));
    assert!(!is_unforwarded("content-security-policy"));
    assert!(!is_unforwarded("X-Frame-Options"));
}

#[test]
fn respond_copies_status_and_embedded_body() {
    let h = handler();
    match h.respond(1, FileLookup::Absent) {
        Outcome::Success(response) => {
            assert_eq!(response.status, 201);
            assert_eq!(response.body, b"two".to_vec());
            assert_eq!(pairs(&response.headers), vec![pair("content-security-policy", POLICY)]);
        }
        _ => panic!("expected an answer"),
    }
}

#[test]
fn respond_gives_an_empty_body_where_none_was_recorded() {
    match handler().respond(3, FileLookup::Absent) {
        Outcome::Success(response) => {
            assert_eq!(response.status, 203);
            assert!(response.body.is_empty());
        }
        _ => panic!("expected an answer"),
    }
}

#[test]
fn override_file_replaces_the_recorded_body() {
    match handler().respond(0, FileLookup::Found(b"from disk".to_vec())) {
        Outcome::Success(response) => {
            assert_eq!(response.status, 200);
            assert_eq!(response.body, b"from disk".to_vec());
        }
        _ => panic!("expected an answer"),
    }
}

#[test]
fn unreadable_override_fails_the_request() {
    match handler().respond(0, FileLookup::Unreadable) {
        Outcome::Failure(status) => assert_eq!(status, 500),
        _ => panic!("expected a failure"),
    }
    let h = handler();
    assert!(matches!(
        h.get_body(&h.entries[0].entry, FileLookup::Unreadable),
        Err(HarbingerError::IoError)
    ));
}

#[test]
fn handle_names_the_override_file_where_a_dump_is_set() {
    let mut h = handler();
    assert!(matches!(h.handle(Some("x=9")), Plan::Forward));
    match h.handle(Some("x=2")) {
        Plan::Answer { candidate, path } => {
            assert_eq!(candidate, 1);
            assert_eq!(path, None);
        }
        _ => panic!("expected an answer"),
    }
    h.dump_path = Some("dump".to_string());
    match h.handle(Some("x=2")) {
        Plan::Answer { candidate, path } => {
            assert_eq!(candidate, 1);
            assert_eq!(path.as_deref(), Some("dump/GET/example.com/a?x=2"));
        }
        _ => panic!("expected an answer"),
    }
}

#[test]
fn handle_fails_where_the_override_path_cannot_be_made() {
    let mut bad = recorded("https://example.com/a", None, 200, vec![], None);
    bad.entry.method = "BREW".to_string();
    let h = EntryHandler { entries: vec![bad], dump_path: Some("dump".to_string()) };
    assert!(matches!(h.handle(None), Plan::Fail));
}
