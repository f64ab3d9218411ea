//! Answering a request from a group of recorded entries.
//!
//! A request that reaches a group is answered by the earliest entry of the
//! group with the same query string. The recorded headers are copied but
//! for those that would be stale or harmful on replay, redirects are kept
//! inside the replay, and the content security policy is always the fixed
//! one of this module.

use vstd::prelude::*;
use vstd::string::StringExecFns;
use crate::error::HarbingerError;
use crate::har::Entry;
use crate::har::EntryRecord;
use crate::har::Header;
use crate::har::header_lines;
use crate::har::HeaderLine;
use crate::paths::dump_path;
use crate::text::lower;
use crate::text::lower_of;
use crate::text::starts_with_char;
use crate::text::text_eq;
use crate::uri::opt_text;

verus! {

/// The status of an answer that reports a failure inside the server.
pub const INTERNAL_SERVER_ERROR: i64 = 500;

/// The name under which the content security policy is sent.
pub open spec fn policy_name() -> Seq<char> {
    "content-security-policy"@
}

/// The content security policy that every replayed answer carries.
pub open spec fn policy_value() -> Seq<char> {
    "base-uri 'self'; default-src * 'unsafe-inline' 'unsafe-eval'; worker-src 'self'"@
}

/// Whether a header with this lower-case name is left out of a replayed
/// answer: the headers on framing, sniffing, cross-site scripting and
/// cross-origin access, and those on the encoding and length of the body.
pub open spec fn unforwarded(name: Seq<char>) -> bool {
    ||| name == "x-frame-options"@
    ||| name == "x-content-type-options"@
    ||| name == "x-xss-protection"@
    ||| name == "access-control-allow-origin"@
    ||| name == "access-control-allow-credentials"@
    ||| name == "content-encoding"@
    ||| name == "transfer-encoding"@
    ||| name == "content-length"@
}

/// The target of a redirect, moved under the host that the answer was
/// recorded from: a slash and the host before a target that begins with a
/// slash, and a slash, the host and a slash before any other.
pub open spec fn relocated(host: Seq<char>, value: Seq<char>) -> Seq<char> {
    if value.len() > 0 && value[0] == '/' {
        seq!['/'] + host + value
    } else {
        seq!['/'] + host + seq!['/'] + value
    }
}

/// What becomes of one recorded header on replay: nothing where it is left
/// out or is a recorded policy, a moved target for `Location`, and the
/// header itself otherwise.
pub open spec fn replayed_line(line: HeaderLine, host: Seq<char>) -> Option<HeaderLine> {
    let name = lower(line.name);
    if unforwarded(name) || name == policy_name() {
        None
    } else if name == "location"@ {
        Some(HeaderLine { name: line.name, value: relocated(host, line.value) })
    } else {
        Some(line)
    }
}

/// What becomes of the recorded headers on replay, in their order.
pub open spec fn replayed_lines(lines: Seq<HeaderLine>, host: Seq<char>) -> Seq<HeaderLine>
    decreases lines.len(),
{
    if lines.len() == 0 {
        Seq::empty()
    } else {
        match replayed_line(lines.last(), host) {
            Some(line) => replayed_lines(lines.drop_last(), host).push(line),
            None => replayed_lines(lines.drop_last(), host),
        }
    }
}

/// The header that carries the fixed policy.
pub open spec fn policy_line() -> HeaderLine {
    HeaderLine { name: policy_name(), value: policy_value() }
}

/// The headers of a replayed answer: the recorded ones as far as they are
/// replayed, then the fixed policy.
pub open spec fn replay_headers(lines: Seq<HeaderLine>, host: Seq<char>) -> Seq<HeaderLine> {
    replayed_lines(lines, host).push(policy_line())
}

/// An answer: status, headers and body.
pub struct Response {
    pub status: i64,
    pub headers: Vec<Header>,
    pub body: Vec<u8>,
}

/// The mathematical model of a [`Response`].
pub struct ResponseView {
    pub status: int,
    pub headers: Seq<HeaderLine>,
    pub body: Seq<u8>,
}

impl View for Response {
    type V = ResponseView;

    open spec fn view(&self) -> ResponseView {
        ResponseView {
            status: self.status as int,
            headers: header_lines(self.headers@),
            body: self.body@,
        }
    }
}

/// How the handling of a request ends.
pub enum Outcome {
    /// With an answer.
    Success(Response),
    /// With a failure of this status, and nothing else.
    Failure(i64),
}

/// What was found at the place of a substitute body on disk.
pub enum FileLookup {
    /// No substitute is configured, or no file is there.
    Absent,
    /// A file with these bytes.
    Found(Vec<u8>),
    /// A file that could not be read.
    Unreadable,
}

/// Whether `name`, in lower case, is left out of a replayed answer.
pub fn is_unforwarded(name: &str) -> (r: bool)
    ensures
        r == unforwarded(name@),
{
    text_eq(name, "x-frame-options") || text_eq(name, "x-content-type-options") || text_eq(
        name,
        "x-xss-protection",
    ) || text_eq(name, "access-control-allow-origin") || text_eq(
        name,
        "access-control-allow-credentials",
    ) || text_eq(name, "content-encoding") || text_eq(name, "transfer-encoding") || text_eq(
        name,
        "content-length",
    )
}

/// Moves the target of a redirect under `host`.
pub fn relocate(host: &str, value: &str) -> (r: String)
    ensures
        r@ == relocated(host@, value@),
{
    let mut out = String::new();
    out.push('/');
    out.append(host);
    if !starts_with_char(value, '/') {
        out.push('/');
    }
    out.append(value);
    out
}

/// Whether no header in `lines` is one of those that are left out on
/// replay.
pub open spec fn free_of_unforwarded(lines: Seq<HeaderLine>) -> bool {
    forall|i: int| 0 <= i < lines.len() ==> !unforwarded(lower((#[trigger] lines[i]).name))
}

/// Whether the last header in `lines` is the fixed policy, and no other
/// header has the name of the policy.
pub open spec fn policy_fixed(lines: Seq<HeaderLine>) -> bool {
    &&& lines.len() > 0
    &&& lines.last() == policy_line()
    &&& forall|i: int|
        0 <= i < lines.len() - 1 ==> lower((#[trigger] lines[i]).name) != policy_name()
}

/// The name of the policy is in lower case already, and is none of the
/// names that are left out.
pub proof fn lemma_policy_name()
    ensures
        lower(policy_name()) == policy_name(),
        !unforwarded(policy_name()),
{
    reveal_strlit("content-security-policy");
    reveal_strlit("x-frame-options");
    reveal_strlit("x-content-type-options");
    reveal_strlit("x-xss-protection");
    reveal_strlit("access-control-allow-origin");
    reveal_strlit("access-control-allow-credentials");
    reveal_strlit("content-encoding");
    reveal_strlit("transfer-encoding");
    reveal_strlit("content-length");
    assert(policy_name().len() == 23);
}

/// None of the headers that are left out on replay is among the replayed
/// ones, and none of these has the name of the policy.
pub proof fn lemma_replayed_lines(lines: Seq<HeaderLine>, host: Seq<char>)
    ensures
        free_of_unforwarded(replayed_lines(lines, host)),
        forall|i: int|
            0 <= i < replayed_lines(lines, host).len() ==> lower(
                (#[trigger] replayed_lines(lines, host)[i]).name,
            ) != policy_name(),
    decreases lines.len(),
{
    if lines.len() > 0 {
        lemma_replayed_lines(lines.drop_last(), host);
    }
}

/// A replayed answer carries none of the headers that are left out,
/// whatever was recorded, and its one content security policy is the fixed
/// one.
pub proof fn lemma_replay_headers(lines: Seq<HeaderLine>, host: Seq<char>)
    ensures
        free_of_unforwarded(replay_headers(lines, host)),
        policy_fixed(replay_headers(lines, host)),
{
    lemma_replayed_lines(lines, host);
    lemma_policy_name();
}

/// The headers of a replayed answer that was recorded from `host`.
pub fn rewrite_headers(headers: &Vec<Header>, host: &str) -> (r: Vec<Header>)
    ensures
        header_lines(r@) == replay_headers(header_lines(headers@), host@),
        free_of_unforwarded(header_lines(r@)),
        policy_fixed(header_lines(r@)),
{
    proof {
        lemma_replay_headers(header_lines(headers@), host@);
    }
    let ghost lines = header_lines(headers@);
    let mut out: Vec<Header> = Vec::new();
    let mut i: usize = 0;
    while i < headers.len()
        invariant
            i <= headers.len(),
            lines == header_lines(headers@),
            header_lines(out@) == replayed_lines(lines.take(i as int), host@),
        decreases headers.len() - i,
    {
        let header = &headers[i];
        assert(lines.take(i + 1).drop_last() == lines.take(i as int));
        let name = lower_of(header.name.as_str());
        let left_out = is_unforwarded(name.as_str()) || text_eq(
            name.as_str(),
            "content-security-policy",
        );
        if !left_out {
            let value = if text_eq(name.as_str(), "location") {
                relocate(host, header.value.as_str())
            } else {
                header.value.clone()
            };
            out.push(Header { name: header.name.clone(), value });
        }
        i += 1;
    }
    assert(lines.take(headers.len() as int) == lines);
    let policy = Header::new(
        "content-security-policy",
        "base-uri 'self'; default-src * 'unsafe-inline' 'unsafe-eval'; worker-src 'self'",
    );
    out.push(policy);
    out
}

/// The view of an optional borrowed string.
pub open spec fn opt_str(s: Option<&str>) -> Option<Seq<char>> {
    match s {
        Some(t) => Some(t@),
        None => None,
    }
}

/// One entry of a group, with the host and the query of its URI.
pub struct Recorded {
    pub entry: Entry,
    pub hostname: String,
    pub query: Option<String>,
}

/// The mathematical model of a [`Recorded`].
pub struct RecordedView {
    pub entry: EntryRecord,
    pub hostname: Seq<char>,
    pub query: Option<Seq<char>>,
}

impl View for Recorded {
    type V = RecordedView;

    open spec fn view(&self) -> RecordedView {
        RecordedView { entry: self.entry@, hostname: self.hostname@, query: opt_text(self.query) }
    }
}

/// The models of a list of recorded entries, in order.
pub open spec fn recorded_views(entries: Seq<Recorded>) -> Seq<RecordedView> {
    Seq::new(entries.len(), |i: int| entries[i]@)
}

/// Answers the requests that reach one group of entries.
pub struct EntryHandler {
    pub entries: Vec<Recorded>,
    pub dump_path: Option<String>,
}

/// The mathematical model of an [`EntryHandler`].
pub struct HandlerView {
    pub entries: Seq<RecordedView>,
    pub dump_path: Option<Seq<char>>,
}

impl View for EntryHandler {
    type V = HandlerView;

    open spec fn view(&self) -> HandlerView {
        HandlerView { entries: recorded_views(self.entries@), dump_path: opt_text(self.dump_path) }
    }
}

/// Whether `k` is the place of the earliest entry whose query is `query`.
pub open spec fn selects(entries: Seq<RecordedView>, query: Option<Seq<char>>, k: int) -> bool {
    &&& 0 <= k < entries.len()
    &&& entries[k].query == query
    &&& forall|j: int| 0 <= j < k ==> (#[trigger] entries[j]).query != query
}

/// Whether no entry has the query `query`.
pub open spec fn none_selected(entries: Seq<RecordedView>, query: Option<Seq<char>>) -> bool {
    forall|j: int| 0 <= j < entries.len() ==> (#[trigger] entries[j]).query != query
}

/// The body that the archive holds for an entry: the recorded one, or none
/// at all.
pub open spec fn embedded_body(entry: EntryRecord) -> Seq<u8> {
    match entry.body_bytes() {
        Some(bytes) => bytes,
        None => Seq::empty(),
    }
}

/// The body of the answer for `entry`: the bytes of the substitute where one
/// was found, else the body that the archive holds. `None` where the
/// substitute could not be read.
pub open spec fn reply_body(entry: EntryRecord, file: FileLookup) -> Option<Seq<u8>> {
    match file {
        FileLookup::Found(bytes) => Some(bytes@),
        FileLookup::Absent => Some(embedded_body(entry)),
        FileLookup::Unreadable => None,
    }
}

/// The answer for a recorded entry: the recorded status, the replayed
/// headers, and the body.
pub open spec fn reply(recorded: RecordedView, body: Seq<u8>) -> ResponseView {
    ResponseView {
        status: recorded.entry.status,
        headers: replay_headers(recorded.entry.res_headers, recorded.hostname),
        body,
    }
}

/// What a handler wants done for a request.
pub enum Plan {
    /// Nothing: no entry of the group has the query of the request.
    Forward,
    /// An answer from the entry at `candidate`, whose body is the file at
    /// `path` where there is a path and a file at it.
    Answer { candidate: usize, path: Option<String> },
    /// A failure: the place of the substitute could not be worked out.
    Fail,
}

/// Whether two optional queries are the same: both absent, or both present
/// and equal character for character.
pub fn same_query(a: Option<&str>, b: Option<&str>) -> (r: bool)
    ensures
        r == (opt_str(a) == opt_str(b)),
{
    match (a, b) {
        (None, None) => true,
        (Some(x), Some(y)) => text_eq(x, y),
        _ => false,
    }
}

impl EntryHandler {
    /// The place of the earliest entry whose query string is that of the
    /// request, character for character; a request without a query matches
    /// an entry without one.
    pub fn select(&self, query: Option<&str>) -> (r: Option<usize>)
        ensures
            match r {
                Some(k) => selects(self@.entries, opt_str(query), k as int),
                None => none_selected(self@.entries, opt_str(query)),
            },
    {
        let mut k: usize = 0;
        while k < self.entries.len()
            invariant
                k <= self.entries.len(),
                forall|j: int| 0 <= j < k ==> (#[trigger] self@.entries[j]).query != opt_str(query),
            decreases self.entries.len() - k,
        {
            let own: Option<&str> = match &self.entries[k].query {
                Some(q) => Some(q.as_str()),
                None => None,
            };
            if same_query(query, own) {
                return Some(k);
            }
            k += 1;
        }
        None
    }

    /// The body of the answer for `entry`, given what was found on disk at
    /// the place of its substitute: the bytes of the file where there is
    /// one, else the body that the archive holds. A file that cannot be read
    /// is an I/O error.
    pub fn get_body(&self, entry: &Entry, file: FileLookup) -> (r: Result<Vec<u8>, HarbingerError>)
        ensures
            match reply_body(entry@, file) {
                Some(body) => r matches Ok(bytes) && bytes@ == body,
                None => r matches Err(HarbingerError::IoError),
            },
    {
        match file {
            FileLookup::Found(bytes) => Ok(bytes),
            FileLookup::Absent => match entry.res_body() {
                Some(bytes) => Ok(bytes),
                None => Ok(Vec::new()),
            },
            FileLookup::Unreadable => Err(HarbingerError::IoError),
        }
    }

    /// Decides what is to be done for a request with this query: nothing
    /// where no entry matches, else an answer from the earliest match. Where
    /// a dump directory is set, the answer names the file to look for.
    pub fn handle(&self, query: Option<&str>) -> (plan: Plan)
        ensures
            match plan {
                Plan::Forward => none_selected(self@.entries, opt_str(query)),
                Plan::Answer { candidate, path } => {
                    &&& selects(self@.entries, opt_str(query), candidate as int)
                    &&& match self@.dump_path {
                        Some(base) => {
                            let entry = self@.entries[candidate as int].entry;
                            entry.verb() is Some && opt_text(path) == Some(
                                dump_path(base, entry.method, entry.url),
                            )
                        },
                        None => path is None,
                    }
                },
                Plan::Fail => exists|k: int|
                    selects(self@.entries, opt_str(query), k) && self@.dump_path is Some
                        && self@.entries[k].entry.verb() is None,
            },
    {
        match self.select(query) {
            None => Plan::Forward,
            Some(candidate) => match &self.dump_path {
                None => Plan::Answer { candidate, path: None },
                Some(base) => match self.entries[candidate].entry.get_dump_path(base.as_str()) {
                    Ok(path) => Plan::Answer { candidate, path: Some(path) },
                    Err(_) => Plan::Fail,
                },
            },
        }
    }

    /// The answer from the entry at `candidate`, given what was found on
    /// disk at the place of its substitute. A substitute that is there
    /// replaces the recorded body; one that cannot be read fails this
    /// request.
    pub fn respond(&self, candidate: usize, file: FileLookup) -> (outcome: Outcome)
        requires
            candidate < self@.entries.len(),
        ensures
            match reply_body(self@.entries[candidate as int].entry, file) {
                Some(body) => outcome matches Outcome::Success(response) && response@ == reply(
                    self@.entries[candidate as int],
                    body,
                ) && free_of_unforwarded(response@.headers) && policy_fixed(response@.headers),
                None => outcome matches Outcome::Failure(status) && status
                    == INTERNAL_SERVER_ERROR,
            },
    {
        let recorded = &self.entries[candidate];
        let headers = rewrite_headers(&recorded.entry.res_headers, recorded.hostname.as_str());
        match self.get_body(&recorded.entry, file) {
            Ok(body) => Outcome::Success(
                Response { status: recorded.entry.status(), headers, body },
            ),
            Err(_) => Outcome::Failure(INTERNAL_SERVER_ERROR),
        }
    }
}

} // verus!
