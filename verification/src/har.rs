//! The captured session: an archive of recorded request/response pairs.

use vstd::prelude::*;
use vstd::string::StrSliceExecFns;
use base64::Engine;
use base64::engine::general_purpose::STANDARD;
use crate::error::HarbingerError;
use crate::method::HttpMethod;
use crate::method::lemma_method_named_is_name;
use crate::method::method_named;
use crate::paths::dump_path;
use crate::paths::begins_with;
use crate::paths::components_fit;
use crate::paths::path_components;
use crate::paths::stored_components;
use crate::paths::strip_schemes;
use crate::paths::dump_path_of;
use crate::paths::path_push;
use crate::text::lower;
use crate::text::lower_of;
use crate::text::text_eq;
use crate::uri::opt_text;
use crate::uri::parse_reference;
use crate::uri::ParsedUri;
use crate::uri::uri_reference;
use crate::uri::UriParts;

verus! {

/// One header line: a name and a value.
pub struct Header {
    pub name: String,
    pub value: String,
}

/// The mathematical model of a [`Header`].
pub struct HeaderLine {
    pub name: Seq<char>,
    pub value: Seq<char>,
}

impl View for Header {
    type V = HeaderLine;

    open spec fn view(&self) -> HeaderLine {
        HeaderLine { name: self.name@, value: self.value@ }
    }
}

impl Clone for Header {
    fn clone(&self) -> (h: Header)
        ensures
            h@ == self@,
    {
        Header { name: self.name.clone(), value: self.value.clone() }
    }
}

/// A copy of an optional string.
pub fn clone_text(s: &Option<String>) -> (r: Option<String>)
    ensures
        opt_text(r) == opt_text(*s),
{
    match s {
        Some(t) => Some(t.clone()),
        None => None,
    }
}

/// A copy of a list of headers.
pub fn clone_headers(headers: &Vec<Header>) -> (r: Vec<Header>)
    ensures
        header_lines(r@) == header_lines(headers@),
{
    let mut out: Vec<Header> = Vec::new();
    let mut i: usize = 0;
    while i < headers.len()
        invariant
            i <= headers.len(),
            out@.len() == i,
            forall|k: int| 0 <= k < i ==> (#[trigger] out@[k])@ == headers@[k]@,
        decreases headers.len() - i,
    {
        out.push(headers[i].clone());
        i += 1;
    }
    out
}

impl Header {
    pub fn new(name: &str, value: &str) -> (h: Header)
        ensures
            h@ == (HeaderLine { name: name@, value: value@ }),
    {
        Header { name: name.to_owned(), value: value.to_owned() }
    }
}

/// The models of a list of headers, in order.
pub open spec fn header_lines(headers: Seq<Header>) -> Seq<HeaderLine> {
    Seq::new(headers.len(), |i: int| headers[i]@)
}

/// Whether a header name is `name`, upper and lower case taken as the same.
pub open spec fn names_header(line: HeaderLine, name: Seq<char>) -> bool {
    lower(line.name) == lower(name)
}

/// Whether `i` is the place of the first header in `lines` called `name`.
pub open spec fn first_named(lines: Seq<HeaderLine>, name: Seq<char>, i: int) -> bool {
    &&& 0 <= i < lines.len()
    &&& names_header(lines[i], name)
    &&& forall|j: int| 0 <= j < i ==> !names_header(#[trigger] lines[j], name)
}

/// Whether `value` is the value of the first header in `lines` called `name`.
pub open spec fn first_value(lines: Seq<HeaderLine>, name: Seq<char>, value: Seq<char>) -> bool {
    exists|i: int| first_named(lines, name, i) && lines[i].value == value
}

/// Whether no header in `lines` is called `name`.
pub open spec fn none_named(lines: Seq<HeaderLine>, name: Seq<char>) -> bool {
    forall|j: int| 0 <= j < lines.len() ==> !names_header(#[trigger] lines[j], name)
}

/// What base64 decoding with the standard alphabet and padding makes of
/// `text`: the bytes, or `None` where `text` is no such encoding.
pub uninterp spec fn base64_standard(text: Seq<char>) -> Option<Seq<u8>>;

/// The view of optional bytes.
pub open spec fn opt_bytes(b: Option<Vec<u8>>) -> Option<Seq<u8>> {
    match b {
        Some(v) => Some(v@),
        None => None,
    }
}

/// Calls `Engine::decode` of `base64` on the `STANDARD` engine. A decoding
/// error becomes `None`. The contract gives the result its name.
#[verifier::external_body]
pub(crate) fn decode_standard(text: &str) -> (r: Option<Vec<u8>>)
    ensures
        opt_bytes(r) == base64_standard(text@),
{
    STANDARD.decode(text).ok()
}

/// One recorded request/response pair.
pub struct Entry {
    pub method: String,
    pub url: String,
    pub pageref: Option<String>,
    pub req_headers: Vec<Header>,
    pub status: i64,
    pub res_headers: Vec<Header>,
    pub body: Option<String>,
}

/// The mathematical model of an [`Entry`].
pub struct EntryRecord {
    pub method: Seq<char>,
    pub url: Seq<char>,
    pub pageref: Option<Seq<char>>,
    pub req_headers: Seq<HeaderLine>,
    pub status: int,
    pub res_headers: Seq<HeaderLine>,
    pub body: Option<Seq<char>>,
}

impl View for Entry {
    type V = EntryRecord;

    open spec fn view(&self) -> EntryRecord {
        EntryRecord {
            method: self.method@,
            url: self.url@,
            pageref: opt_text(self.pageref),
            req_headers: header_lines(self.req_headers@),
            status: self.status as int,
            res_headers: header_lines(self.res_headers@),
            body: opt_text(self.body),
        }
    }
}

impl Clone for Entry {
    fn clone(&self) -> (e: Entry)
        ensures
            e@ == self@,
    {
        Entry {
            method: self.method.clone(),
            url: self.url.clone(),
            pageref: clone_text(&self.pageref),
            req_headers: clone_headers(&self.req_headers),
            status: self.status,
            res_headers: clone_headers(&self.res_headers),
            body: clone_text(&self.body),
        }
    }
}

impl EntryRecord {
    /// The parts of the recorded URL, where it is a URI reference.
    pub open spec fn uri(self) -> Option<UriParts> {
        uri_reference(self.url)
    }

    /// The recorded method, where it is a known verb.
    pub open spec fn verb(self) -> Option<HttpMethod> {
        method_named(self.method)
    }

    /// The host that the recorded URL names, if it names one.
    pub open spec fn host(self) -> Option<Seq<char>> {
        match self.uri() {
            Some(u) => u.host(),
            None => None,
        }
    }

    /// The bytes of the recorded body: the decoded bytes where the recorded
    /// text is base64, else the UTF-8 bytes of the text itself.
    pub open spec fn body_bytes(self) -> Option<Seq<u8>> {
        match self.body {
            Some(text) => Some(body_of(base64_standard(text), text)),
            None => None,
        }
    }
}

/// The body that a recorded text stands for, given what base64 decoding
/// made of it.
pub open spec fn body_of(decoded: Option<Seq<u8>>, text: Seq<char>) -> Seq<u8> {
    match decoded {
        Some(bytes) => bytes,
        None => vstd::utf8::encode_utf8(text),
    }
}

/// Picks the decoded bytes where decoding succeeded, else the bytes of the
/// text as it stands.
pub fn body_from(decoded: Option<Vec<u8>>, text: &str) -> (bytes: Vec<u8>)
    ensures
        bytes@ == body_of(opt_bytes(decoded), text@),
{
    match decoded {
        Some(bytes) => bytes,
        None => text.as_bytes_vec(),
    }
}

/// The error for a URL that is no URI reference, or the parsed URI.
pub fn uri_or_invalid(url: &str, parsed: Option<ParsedUri>) -> (r: Result<ParsedUri, HarbingerError>)
    ensures
        match parsed {
            Some(u) => r == Ok::<ParsedUri, HarbingerError>(u),
            None => r matches Err(HarbingerError::InvalidHarEntryUri { uri }) && uri@ == url@,
        },
{
    match parsed {
        Some(u) => Ok(u),
        None => Err(HarbingerError::InvalidHarEntryUri { uri: url.to_owned() }),
    }
}

/// The value of the first header in `headers` called `name`.
pub fn get_header_value<'a>(headers: &'a Vec<Header>, name: &str) -> (r: Option<&'a str>)
    ensures
        match r {
            Some(v) => first_value(header_lines(headers@), name@, v@),
            None => none_named(header_lines(headers@), name@),
        },
{
    let wanted = lower_of(name);
    let mut i: usize = 0;
    while i < headers.len()
        invariant
            i <= headers.len(),
            wanted@ == lower(name@),
            forall|j: int|
                0 <= j < i ==> !names_header(#[trigger] header_lines(headers@)[j], name@),
        decreases headers.len() - i,
    {
        let have = lower_of(headers[i].name.as_str());
        if text_eq(have.as_str(), wanted.as_str()) {
            assert(first_named(header_lines(headers@), name@, i as int));
            return Some(headers[i].value.as_str());
        }
        i += 1;
    }
    None
}

impl Entry {
    pub fn new(
        method: String,
        url: String,
        pageref: Option<String>,
        req_headers: Vec<Header>,
        status: i64,
        res_headers: Vec<Header>,
        body: Option<String>,
    ) -> (e: Entry)
        ensures
            e.method == method,
            e.url == url,
            e.pageref == pageref,
            e.req_headers == req_headers,
            e.status == status,
            e.res_headers == res_headers,
            e.body == body,
    {
        Entry { method, url, pageref, req_headers, status, res_headers, body }
    }

    /// The recorded URL, parsed as a URI reference.
    pub fn uri(&self) -> (r: Result<ParsedUri, HarbingerError>)
        ensures
            match self@.uri() {
                Some(parts) => r matches Ok(u) && u@ == parts,
                None => r matches Err(HarbingerError::InvalidHarEntryUri { uri }) && uri@
                    == self.url@,
            },
    {
        let parsed = parse_reference(self.url.as_str());
        uri_or_invalid(self.url.as_str(), parsed)
    }

    /// The recorded method, which must be one of the known verbs, spelled in
    /// upper case.
    pub fn method(&self) -> (r: Result<HttpMethod, HarbingerError>)
        ensures
            match self@.verb() {
                Some(m) => r == Ok::<HttpMethod, HarbingerError>(m),
                None => r matches Err(HarbingerError::InvalidHarEntryMethod { method })
                    && method@ == self.method@,
            },
    {
        match HttpMethod::parse(self.method.as_str()) {
            Some(m) => Ok(m),
            None => Err(HarbingerError::InvalidHarEntryMethod { method: self.method.clone() }),
        }
    }

    /// The path under `base_path` at which a substitute for the body of this
    /// entry is looked for: a function of the method and the URL alone, and
    /// always a path under `base_path` and the name of the method.
    pub fn get_dump_path(&self, base_path: &str) -> (r: Result<String, HarbingerError>)
        ensures
            match self@.dump_path(base_path@) {
                Some(path) => r matches Ok(p) && p@ == path && begins_with(
                    p@,
                    path_push(base_path@, self@.method),
                ) && components_fit(stored_components(path_components(strip_schemes(self@.url)))),
                None => r matches Err(HarbingerError::InvalidHarEntryMethod { method })
                    && method@ == self.method@,
            },
    {
        let method = self.method()?;
        proof {
            lemma_method_named_is_name(self.method@);
        }
        Ok(dump_path_of(base_path, method, self.url.as_str()))
    }

    /// The host that the recorded URL names. A URL that is no URI reference,
    /// or that names no host, is an invalid URI.
    pub fn hostname(&self) -> (r: Result<String, HarbingerError>)
        ensures
            match self@.host() {
                Some(host) => r matches Ok(h) && h@ == host,
                None => r matches Err(HarbingerError::InvalidHarEntryUri { uri }) && uri@
                    == self.url@,
            },
    {
        let uri = self.uri()?;
        match uri.authority {
            Some(a) => Ok(a.host),
            None => Err(HarbingerError::InvalidHarEntryUri { uri: self.url.clone() }),
        }
    }

    /// The value of the first response header called `name`, upper and lower
    /// case taken as the same.
    pub fn res_header(&self, name: &str) -> (r: Option<&str>)
        ensures
            match r {
                Some(v) => first_value(self@.res_headers, name@, v@),
                None => none_named(self@.res_headers, name@),
            },
    {
        get_header_value(&self.res_headers, name)
    }

    /// The value of the first request header called `name`, upper and lower
    /// case taken as the same.
    pub fn req_header(&self, name: &str) -> (r: Option<&str>)
        ensures
            match r {
                Some(v) => first_value(self@.req_headers, name@, v@),
                None => none_named(self@.req_headers, name@),
            },
    {
        get_header_value(&self.req_headers, name)
    }

    /// The response headers as pairs of name and value, in recorded order.
    pub fn res_headers(&self) -> (r: Vec<(&str, &str)>)
        ensures
            r@.len() == self@.res_headers.len(),
            forall|i: int|
                0 <= i < r@.len() ==> (#[trigger] r@[i]).0@ == self@.res_headers[i].name
                    && r@[i].1@ == self@.res_headers[i].value,
    {
        let mut out: Vec<(&str, &str)> = Vec::new();
        let mut i: usize = 0;
        while i < self.res_headers.len()
            invariant
                i <= self.res_headers.len(),
                out@.len() == i,
                forall|k: int|
                    0 <= k < i ==> (#[trigger] out@[k]).0@ == self@.res_headers[k].name
                        && out@[k].1@ == self@.res_headers[k].value,
            decreases self.res_headers.len() - i,
        {
            out.push((self.res_headers[i].name.as_str(), self.res_headers[i].value.as_str()));
            i += 1;
        }
        out
    }

    /// The recorded response status.
    pub fn status(&self) -> (s: i64)
        ensures
            s == self@.status,
    {
        self.status
    }

    /// The bytes of the recorded response body, if a body was recorded. A
    /// text that decodes as base64 stands for the decoded bytes, any other
    /// text for its own bytes.
    pub fn res_body(&self) -> (r: Option<Vec<u8>>)
        ensures
            opt_bytes(r) == self@.body_bytes(),
    {
        match &self.body {
            Some(text) => {
                let decoded = decode_standard(text.as_str());
                Some(body_from(decoded, text.as_str()))
            },
            None => None,
        }
    }
}

impl EntryRecord {
    /// The path under `base` at which a substitute for the body of the
    /// entry is looked for, where the method of the entry is a known verb.
    pub open spec fn dump_path(self, base: Seq<char>) -> Option<Seq<char>> {
        match self.verb() {
            Some(_) => Some(dump_path(base, self.method, self.url)),
            None => None,
        }
    }
}

/// Two entries with the same method and the same URL have the same path
/// under the same base, whatever else they hold: the path is found again
/// each time it is worked out.
pub proof fn lemma_dump_path_repeats(a: EntryRecord, b: EntryRecord, base: Seq<char>)
    requires
        a.method == b.method,
        a.url == b.url,
    ensures
        a.dump_path(base) == b.dump_path(base),
{
}

/// The format version that an archive must declare.
pub open spec fn supported_version() -> Seq<char> {
    "1.2"@
}

/// The models of a list of entries, in order.
pub open spec fn entry_records(entries: Seq<Entry>) -> Seq<EntryRecord> {
    Seq::new(entries.len(), |i: int| entries[i]@)
}

/// Whether an entry belongs to the page called `page`.
pub open spec fn on_page(e: EntryRecord, page: Seq<char>) -> bool {
    e.pageref == Some(page)
}

/// The entries among `entries` that belong to `page`, in their order.
pub open spec fn entries_on_page(entries: Seq<EntryRecord>, page: Seq<char>) -> Seq<EntryRecord>
    decreases entries.len(),
{
    if entries.len() == 0 {
        Seq::empty()
    } else if on_page(entries.last(), page) {
        entries_on_page(entries.drop_last(), page).push(entries.last())
    } else {
        entries_on_page(entries.drop_last(), page)
    }
}

/// The entries that an archive keeps: all of them where the capture has one
/// page, and those of the first page where it has several.
pub open spec fn retained_entries(pages: Seq<Seq<char>>, entries: Seq<EntryRecord>) -> Seq<
    EntryRecord,
> {
    if pages.len() > 1 {
        entries_on_page(entries, pages[0])
    } else {
        entries
    }
}

/// The views of a list of strings, in order.
pub open spec fn texts(strings: Seq<String>) -> Seq<Seq<char>> {
    Seq::new(strings.len(), |i: int| strings[i]@)
}

/// A captured session: the entries of its first page, in capture order.
pub struct Har {
    pub entries: Vec<Entry>,
    pub page_id: String,
}

/// The mathematical model of a [`Har`].
pub struct Archive {
    pub entries: Seq<EntryRecord>,
    pub page_id: Seq<char>,
}

impl View for Har {
    type V = Archive;

    open spec fn view(&self) -> Archive {
        Archive { entries: entry_records(self.entries@), page_id: self.page_id@ }
    }
}

impl Har {
    /// Builds the archive from the pages and entries of a capture. The first
    /// page is the one that counts. Where there are more pages, the entries
    /// of the others are left out.
    pub fn new(pages: Vec<String>, entries: Vec<Entry>) -> (har: Har)
        requires
            pages@.len() > 0,
        ensures
            har@.page_id == pages@[0]@,
            har@.entries == retained_entries(texts(pages@), entry_records(entries@)),
    {
        let page_id = pages[0].clone();
        if pages.len() == 1 {
            return Har { entries, page_id };
        }
        let ghost all = entry_records(entries@);
        let mut kept: Vec<Entry> = Vec::new();
        for entry in it: entries
            invariant
                it.seq() == entries@,
                all == entry_records(entries@),
                entry_records(kept@) == entries_on_page(all.take(it.index() as int), page_id@),
        {
            let ghost i = it.index() as int;
            assert(all.take(i + 1).drop_last() == all.take(i));
            let belongs = match &entry.pageref {
                Some(p) => text_eq(p.as_str(), page_id.as_str()),
                None => false,
            };
            if belongs {
                kept.push(entry);
            }
        }
        assert(all.take(entries@.len() as int) == all);
        Har { entries: kept, page_id }
    }

    /// Builds the archive from a parsed capture file, which must declare the
    /// supported format version and hold at least one page.
    pub fn read(version: &str, pages: Vec<String>, entries: Vec<Entry>) -> (r: Result<
        Har,
        HarbingerError,
    >)
        ensures
            match r {
                Ok(har) => {
                    &&& version@ == supported_version()
                    &&& pages@.len() > 0
                    &&& har@.page_id == pages@[0]@
                    &&& har@.entries == retained_entries(texts(pages@), entry_records(entries@))
                },
                Err(HarbingerError::UnsupportedHarVersion) => version@ != supported_version(),
                Err(HarbingerError::HarError) => version@ == supported_version() && pages@.len()
                    == 0,
                Err(_) => false,
            },
    {
        if !text_eq(version, "1.2") {
            return Err(HarbingerError::UnsupportedHarVersion);
        }
        if pages.len() == 0 {
            return Err(HarbingerError::HarError);
        }
        Ok(Har::new(pages, entries))
    }

    /// The URL of the first entry.
    pub fn primary_url(&self) -> (url: &str)
        requires
            self@.entries.len() > 0,
        ensures
            url@ == self@.entries[0].url,
    {
        self.entries[0].url.as_str()
    }

    /// The host of the first entry: the origin that the capture was made
    /// from.
    pub fn origin_host(&self) -> (r: Result<String, HarbingerError>)
        requires
            self@.entries.len() > 0,
        ensures
            match self@.entries[0].host() {
                Some(host) => r matches Ok(h) && h@ == host,
                None => r matches Err(HarbingerError::InvalidHarEntryUri { uri }) && uri@
                    == self@.entries[0].url,
            },
    {
        self.entries[0].hostname()
    }
}

} // verus!
