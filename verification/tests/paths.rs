use harbinger::error::HarbingerError;
use harbinger::har::Entry;
use harbinger::method::HttpMethod;
use harbinger::paths::dump_path_of;
use harbinger::paths::stored_component_of;
use harbinger::paths::uniquely_truncate;
use harbinger::text::chars_of;
use harbinger::text::string_of;
use std::path::Component;
use std::path::Path;
use std::path::PathBuf;

fn get(url: &str) -> Entry {
    Entry::new("GET".to_string(), url.to_string(), None, Vec::new(), 200, Vec::new(), None)
}

// The path as the standard library joins it, component by component, but
// for the root of the URL, which is no component of its own.
fn joined_by_std(base: &str, method: &str, url: &str) -> String {
    let url = url.replace("http://", "").replace("https://", "");
    let mut path = PathBuf::from(base);
    path.push(method);
    for part in Path::new(&url).components() {
        if part == Component::RootDir {
            continue;
        }
        let text = part.as_os_str().to_str().unwrap();
        if text.len() > 200 {
            let mut cut = 168;
            while !text.is_char_boundary(cut) {
                cut -= 1;
            }
            path.push(format!("{}_{:x}", &text[..cut], md5::compute(text)));
        } else {
            path.push(part);
        }
    }
    if url.ends_with('/') {
        path.push("__index__");
    }
    path.to_str().unwrap().to_string()
}

#[test]
fn dump_path_of_a_plain_url() {
    let e = get("https://example.com/a/b.js?x=1");
    assert_eq!(e.get_dump_path("dump").unwrap(), "dump/GET/example.com/a/b.js?x=1");
}

#[test]
fn dump_path_gets_an_index_where_the_url_ends_with_a_slash() {
    let e = get("http://example.com/dir/");
    assert_eq!(e.get_dump_path("/tmp/out").unwrap(), "/tmp/out/GET/example.com/dir/__index__");
}

#[test]
fn dump_path_needs_a_known_method() {
    let e = Entry::new(
        "FETCH".to_string(),
        "https://example.com/".to_string(),
        None,
        Vec::new(),
        200,
        Vec::new(),
        None,
    );
    match e.get_dump_path("dump") {
        Err(HarbingerError::InvalidHarEntryMethod { method }) => assert_eq!(method, "FETCH"),
        _ => panic!("expected an invalid method"),
    }
}

#[test]
fn dump_path_is_the_same_for_the_same_method_and_url() {
    let a = get("https://example.com/a/b?x=1");
    let b = Entry::new(
        "GET".to_string(),
        "https://example.com/a/b?x=1".to_string(),
        Some("page_2".to_string()),
        Vec::new(),
        404,
        Vec::new(),
        Some("other".to_string()),
    );
    assert_eq!(a.get_dump_path("dump").unwrap(), b.get_dump_path("dump").unwrap());
    assert_eq!(a.get_dump_path("dump").unwrap(), a.get_dump_path("dump").unwrap());
}

#[test]
fn dump_path_shortens_a_long_component() {
    let long = "b".repeat(250);
    let url = format!("https://example.com/{}", long);
    let expected = format!(
        "dump/GET/example.com/{}_382b6d2c391ad6871a9878241ef64cc9",
        "b".repeat(168)
    );
    assert_eq!(get(&url).get_dump_path("dump").unwrap(), expected);
}

#[test]
fn dump_path_keeps_a_component_of_exactly_the_limit() {
    let exact = "c".repeat(200);
    let url = format!("https://example.com/{}", exact);
    assert_eq!(
        get(&url).get_dump_path("dump").unwrap(),
        format!("dump/GET/example.com/{}", exact)
    );
}

#[test]
fn uniquely_truncate_cuts_between_characters() {
    let text = "é".repeat(150);
    let expected = format!("{}_4f82f6345b456851ef2bf6554de1ad02", "é".repeat(84));
    assert_eq!(uniquely_truncate(&text, 200), expected);
}

#[test]
fn uniquely_truncate_stops_before_a_character_that_does_not_fit() {
    let text = format!("a{}", "é".repeat(150));
    let expected = format!("a{}_24100549c92ef806743a428ebec629f8", "é".repeat(83));
    let shortened = uniquely_truncate(&text, 200);
    assert_eq!(shortened, expected);
    assert_eq!(shortened.len(), 200);
}

#[test]
fn shortened_component_is_shorter_than_the_component() {
    let wide = format!("a{}", "é".repeat(150));
    let url = format!("https://example.com/{}", wide);
    let expected =
        format!("dump/GET/example.com/a{}_24100549c92ef806743a428ebec629f8", "é".repeat(83));
    assert_eq!(get(&url).get_dump_path("dump").unwrap(), expected);
    let ascii = "b".repeat(250);
    assert_eq!(uniquely_truncate(&ascii, 200).len(), 201);
    assert_eq!(
        string_of(&stored_component_of(chars_of(&ascii))),
        format!("{}_382b6d2c391ad6871a9878241ef64cc9", "b".repeat(168))
    );
    assert_eq!(string_of(&stored_component_of(chars_of("short"))), "short");
}

#[test]
fn dump_path_of_an_origin_relative_url_stays_under_base_and_method() {
    assert_eq!(get("/p").get_dump_path("/dump").unwrap(), "/dump/GET/p");
    assert_eq!(get("//double").get_dump_path("dump").unwrap(), "dump/GET/double");
    assert_eq!(get("/").get_dump_path("dump").unwrap(), "dump/GET/__index__");
    assert_eq!(get("/a/b/").get_dump_path("dump/").unwrap(), "dump/GET/a/b/__index__");
    assert_eq!(get("https:///p").get_dump_path("/dump").unwrap(), "/dump/GET/p");
    for url in ["/p", "//x", "https://example.com/a", "", "../up", "./dot"] {
        for base in ["/dump", "dump/", ""] {
            let path = get(url).get_dump_path(base).unwrap();
            let under = dump_path_of(base, HttpMethod::Get, "");
            assert!(path.starts_with(&under), "{:?} under {:?}", path, under);
        }
    }
}

#[test]
fn uniquely_truncate_keeps_all_of_a_short_text() {
    assert_eq!(uniquely_truncate("hello", 200), "hello_5d41402abc4b2a76b9719d911017c592");
}

#[test]
fn dump_path_agrees_with_the_standard_library() {
    let long_ascii = "x".repeat(300);
    let long_wide = "ü".repeat(120);
    let urls = vec![
        "https://example.com".to_string(),
        "https://example.com/".to_string(),
        "https://example.com/a//b/./c/".to_string(),
        "https://example.com/a/../b".to_string(),
        "http://example.com/r?u=https://other.org/x/".to_string(),
        "/relative/path".to_string(),
        "./dot/first".to_string(),
        ".".to_string(),
        "".to_string(),
        "//double".to_string(),
        "a/.".to_string(),
        "httphttp://s://example.com/x".to_string(),
        format!("https://example.com/{}/tail", long_ascii),
        format!("https://example.com/{}", long_wide),
        format!("https://example.com/a{}", long_wide),
    ];
    for base in ["dump", "dump/", "/abs/dir", ""] {
        for url in &urls {
            assert_eq!(
                dump_path_of(base, HttpMethod::Get, url),
                joined_by_std(base, "GET", url),
                "base {:?}, url {:?}",
                base,
                url
            );
        }
    }
    assert_eq!(
        dump_path_of("dump", HttpMethod::Delete, "https://example.com/a"),
        joined_by_std("dump", "DELETE", "https://example.com/a")
    );
}

#[test]
fn truncate_with_writes_the_digest_it_is_given() {
    assert_eq!(
        harbinger::paths::truncate_with("hello", 200, &[0x00, 0xab, 0x10]),
        "hello_00ab10"
    );
    let long = "z".repeat(300);
    assert_eq!(
        harbinger::paths::truncate_with(&long, 200, &[0xff]),
        format!("{}_ff", "z".repeat(168))
    );
    assert_eq!(harbinger::paths::truncate_with(&long, 32, &[]), "_");
}
