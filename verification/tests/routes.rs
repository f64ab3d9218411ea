use harbinger::error::HarbingerError;
use harbinger::har::Entry;
use harbinger::method::HttpMethod;
use harbinger::routes::candidate_of;
use harbinger::routes::join;
use harbinger::routes::Candidate;
use harbinger::routes::EntryGroup;
use harbinger::server::routes_of;
use harbinger::uri::Authority;
use harbinger::uri::ParsedUri;

fn entry(url: &str) -> Entry {
    Entry::new("GET".to_string(), url.to_string(), None, Vec::new(), 200, Vec::new(), None)
}

fn candidate<'a>(index: usize, entry: &'a Entry, host: &str, path: &str) -> Candidate<'a> {
    Candidate { index, entry, hostname: host.to_string(), path: path.to_string(), query: None }
}

fn shape(groups: &Vec<EntryGroup>) -> Vec<(HttpMethod, String, Vec<usize>)> {
    groups
        .iter()
        .map(|g| (g.method, g.key.clone(), g.candidates.iter().map(|c| c.index).collect()))
        .collect()
}

#[test]
fn join_appends_to_the_group_of_the_key_or_founds_one() {
    let e = entry("https://example.com/a");
    let mut groups = Vec::new();
    join(&mut groups, HttpMethod::Get, "example.com/a".to_string(), candidate(0, &e, "example.com", "/a"));
    join(&mut groups, HttpMethod::Get, "example.com/b".to_string(), candidate(1, &e, "example.com", "/b"));
    join(&mut groups, HttpMethod::Put, "example.com/a".to_string(), candidate(2, &e, "example.com", "/a"));
    join(&mut groups, HttpMethod::Get, "example.com/a".to_string(), candidate(3, &e, "example.com", "/a"));
    assert_eq!(
        shape(&groups),
        vec![
            (HttpMethod::Get, "example.com/a".to_string(), vec![0, 3]),
            (HttpMethod::Get, "example.com/b".to_string(), vec![1]),
            (HttpMethod::Put, "example.com/a".to_string(), vec![2]),
        ]
    );
}

#[test]
fn candidate_of_carries_the_parts_of_the_uri() {
    let e = entry("https://u@example.com:81/a?q=1");
    let uri = ParsedUri {
        authority: Some(Authority {
            user_info: Some("u".to_string()),
            host: "example.com".to_string(),
            port: Some(81),
        }),
        path: "/a".to_string(),
        query: Some("q=1".to_string()),
    };
    let (key, candidate) = candidate_of(7, &e, uri).unwrap();
    assert_eq!(key, "u@example.com:81/a");
    assert_eq!(candidate.index, 7);
    assert_eq!(candidate.hostname, "example.com");
    assert_eq!(candidate.path, "/a");
    assert_eq!(candidate.query.as_deref(), Some("q=1"));
    assert_eq!(candidate.entry.url, "https://u@example.com:81/a?q=1");
}

#[test]
fn candidate_of_wants_an_authority() {
    let e = entry("/a?q=1");
    let uri = ParsedUri { authority: None, path: "/a".to_string(), query: Some("q=1".to_string()) };
    match candidate_of(0, &e, uri) {
        Err(HarbingerError::InvalidHarEntryUri { uri }) => assert_eq!(uri, "/a?q=1"),
        _ => panic!("expected an invalid URI"),
    }
}

#[test]
fn routes_of_lets_the_first_group_of_a_path_win() {
    let own = entry("https://example.com/cdn.net/x");
    let cdn = entry("https://cdn.net/x");
    let groups = vec![
        EntryGroup {
            method: HttpMethod::Get,
            key: "example.com/cdn.net/x".to_string(),
            candidates: vec![candidate(0, &own, "example.com", "/cdn.net/x")],
        },
        EntryGroup {
            method: HttpMethod::Get,
            key: "cdn.net/x".to_string(),
            candidates: vec![candidate(1, &cdn, "cdn.net", "/x")],
        },
        EntryGroup {
            method: HttpMethod::Head,
            key: "cdn.net/x".to_string(),
            candidates: vec![candidate(2, &cdn, "cdn.net", "/x")],
        },
    ];
    let routes = routes_of(&groups, "example.com", Some("dump"));
    let seen: Vec<(HttpMethod, &str, &str)> = routes
        .iter()
        .map(|r| (r.method, r.path.as_str(), r.handler.entries[0].entry.url.as_str()))
        .collect();
    assert_eq!(
        seen,
        vec![
            (HttpMethod::Get, "/cdn.net/x", "https://example.com/cdn.net/x"),
            (HttpMethod::Head, "/cdn.net/x", "https://cdn.net/x"),
        ]
    );
    assert_eq!(routes[0].handler.dump_path.as_deref(), Some("dump"));
}
