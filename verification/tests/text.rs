use harbinger::error::HarbingerError;
use harbinger::method::HttpMethod;
use harbinger::text::chars_eq;
use harbinger::text::chars_of;
use harbinger::text::longer_than;
use harbinger::text::lower_of;
use harbinger::text::occurs_at_of;
use harbinger::text::push_decimal;
use harbinger::text::push_hex;
use harbinger::text::replace_all_of;
use harbinger::text::starts_with_char;
use harbinger::text::string_of;
use harbinger::text::text_eq;
use harbinger::text::utf8_len_of;

fn replaced(s: &str, pat: &str, with: &str) -> String {
    string_of(&replace_all_of(&chars_of(s), &chars_of(pat), &chars_of(with)))
}

#[test]
fn replace_all_matches_from_the_left_without_overlap() {
    assert_eq!(replaced("aaaa", "aa", "b"), "bb");
    assert_eq!(replaced("aaa", "aa", "b"), "ba");
    assert_eq!(replaced("abcabc", "bc", ""), "aa");
    assert_eq!(replaced("abc", "", "x"), "abc");
    assert_eq!(replaced("", "a", "x"), "");
    assert_eq!(replaced("abc", "abcd", "x"), "abc");
    for (s, pat, with) in [("a.b.c", ".", "::"), ("xxhttp://y", "http://", ""), ("ééé", "é", "e")] {
        assert_eq!(replaced(s, pat, with), s.replace(pat, with));
    }
}

#[test]
fn lower_of_changes_ascii_letters_only() {
    assert_eq!(lower_of("Content-TYPE"), "content-type");
    assert_eq!(lower_of("ÀB[@`{Z"), "Àb[@`{z");
    assert_eq!(lower_of(""), "");
}

#[test]
fn chars_and_strings_convert_back_and_forth() {
    assert_eq!(chars_of("hé!"), vec!['h', 'é', '!']);
    assert_eq!(string_of(&vec!['h', 'é', '!']), "hé!");
    assert!(text_eq("abc", "abc"));
    assert!(!text_eq("abc", "abd"));
    assert!(!text_eq("abc", "ab"));
    assert!(chars_eq(&vec![], &vec![]));
    assert!(starts_with_char("/a", '/'));
    assert!(!starts_with_char("a/", '/'));
    assert!(!starts_with_char("", '/'));
    assert!(occurs_at_of(&chars_of("hello"), 2, &chars_of("llo")));
    assert!(!occurs_at_of(&chars_of("hello"), 3, &chars_of("llo")));
    assert!(occurs_at_of(&chars_of("hello"), 5, &chars_of("")));
}

#[test]
fn decimal_and_hex_notation() {
    let mut out = Vec::new();
    push_decimal(&mut out, 0);
    out.push(' ');
    push_decimal(&mut out, 8000);
    out.push(' ');
    push_decimal(&mut out, u64::MAX);
    assert_eq!(string_of(&out), "0 8000 18446744073709551615");
    let mut hex = Vec::new();
    push_hex(&mut hex, &[0x00, 0x0f, 0xa0, 0xff, 0x5d]);
    assert_eq!(string_of(&hex), "000fa0ff5d");
}

#[test]
fn utf8_lengths() {
    assert_eq!(utf8_len_of('a'), 1);
    assert_eq!(utf8_len_of('\u{7f}'), 1);
    assert_eq!(utf8_len_of('\u{80}'), 2);
    assert_eq!(utf8_len_of('é'), 2);
    assert_eq!(utf8_len_of('\u{7ff}'), 2);
    assert_eq!(utf8_len_of('\u{800}'), 3);
    assert_eq!(utf8_len_of('€'), 3);
    assert_eq!(utf8_len_of('\u{ffff}'), 3);
    assert_eq!(utf8_len_of('\u{10000}'), 4);
    assert_eq!(utf8_len_of('😀'), 4);
    assert!(!longer_than(&chars_of(&"é".repeat(100)), 200));
    assert!(longer_than(&chars_of(&"é".repeat(100)), 199));
    assert!(longer_than(&chars_of("a"), 0));
    assert!(!longer_than(&chars_of(""), 0));
}

#[test]
fn method_names_round_trip() {
    for m in [
        HttpMethod::Get,
        HttpMethod::Put,
        HttpMethod::Post,
        HttpMethod::Delete,
        HttpMethod::Options,
        HttpMethod::Head,
        HttpMethod::Trace,
        HttpMethod::Connect,
        HttpMethod::Patch,
    ] {
        assert_eq!(HttpMethod::parse(m.as_str()), Some(m));
    }
    assert_eq!(HttpMethod::parse("Get"), None);
    assert_eq!(HttpMethod::parse(""), None);
    assert_eq!(HttpMethod::parse("GET "), None);
    assert_eq!(HttpMethod::Options.as_str(), "OPTIONS");
}

#[test]
fn error_messages() {
    assert_eq!(HarbingerError::IoError.to_string(), "io error");
    assert_eq!(HarbingerError::UnsupportedHarVersion.to_string(), "unsupported HAR version");
    assert_eq!(HarbingerError::HarError.to_string(), "HAR error");
    assert_eq!(HarbingerError::DumpPathExists.to_string(), "dump path exists! cowardly bailing");
    assert_eq!(
        HarbingerError::InvalidHarEntryUri { uri: "foo bar".to_string() }.to_string(),
        "Invalid HAR entry: invalid URI foo bar"
    );
    assert_eq!(
        HarbingerError::InvalidHarEntryMethod { method: "BREW".to_string() }.to_string(),
        "Invalid HAR entry: invalid method BREW"
    );
}

#[test]
fn yes_or_no_reads_four_replies() {
    assert_eq!(harbinger::guide::yes_or_no("yes"), Some(true));
    assert_eq!(harbinger::guide::yes_or_no("y"), Some(true));
    assert_eq!(harbinger::guide::yes_or_no("no"), Some(false));
    assert_eq!(harbinger::guide::yes_or_no("n"), Some(false));
    assert_eq!(harbinger::guide::yes_or_no(""), None);
    assert_eq!(harbinger::guide::yes_or_no("Yes"), None);
    assert_eq!(harbinger::guide::yes_or_no("yes "), None);
}
