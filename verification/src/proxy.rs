//! Handing a request on to a live upstream.
//!
//! A request that no recording answers goes to the configured upstream: the
//! upstream URL with the path and query of the request in place of its own.
//! What the upstream answers is handed back as it came.

use vstd::prelude::*;
use vstd::string::StrSliceExecFns;
use crate::har::Header;
use crate::har::header_lines;
use crate::method::HttpMethod;
use crate::replay::INTERNAL_SERVER_ERROR;
use crate::replay::opt_str;
use crate::replay::Outcome;
use crate::replay::Response;
use crate::replay::ResponseView;
use crate::uri::opt_text;

verus! {

/// The most characters that a URL, a path or a query may have to be
/// rewritten.
pub const TARGET_LIMIT: usize = 0x100_0000;

/// `url` with `path` as its path, as `Url::set_path` writes it; `None` where
/// `url` is no absolute URL.
pub uninterp spec fn url_with_path(url: Seq<char>, path: Seq<char>) -> Option<Seq<char>>;

/// `url` with `query` as its query, as `Url::set_query` writes it, or
/// without a query where `query` is `None`; `None` where `url` is no
/// absolute URL.
pub uninterp spec fn url_with_query(url: Seq<char>, query: Option<Seq<char>>) -> Option<
    Seq<char>,
>;

/// Parses `url` with `Url::parse` of `reqwest`, calls `Url::set_path` on the
/// result and hands back its text. A URL that does not parse gives `None`.
/// The contract gives the result its name. The setter keeps its offsets in
/// 32 bits and panics where the text outgrows them: the bound on the
/// lengths keeps the text far below that.
#[verifier::external_body]
pub(crate) fn with_path(url: &str, path: &str) -> (r: Option<String>)
    requires
        url@.len() <= TARGET_LIMIT,
        path@.len() <= TARGET_LIMIT,
    ensures
        opt_text(r) == url_with_path(url@, path@),
{
    let mut parsed = reqwest::Url::parse(url).ok()?;
    parsed.set_path(path);
    Some(parsed.into())
}

/// Parses `url` with `Url::parse` of `reqwest`, calls `Url::set_query` on
/// the result and hands back its text. A URL that does not parse gives
/// `None`. The contract gives the result its name. The bound on the lengths
/// is there for the same reason as in [`with_path`].
#[verifier::external_body]
pub(crate) fn with_query(url: &str, query: Option<&str>) -> (r: Option<String>)
    requires
        url@.len() <= TARGET_LIMIT,
        query matches Some(q) ==> q@.len() <= TARGET_LIMIT,
    ensures
        opt_text(r) == url_with_query(url@, opt_str(query)),
{
    let mut parsed = reqwest::Url::parse(url).ok()?;
    parsed.set_query(query);
    Some(parsed.into())
}

/// Whether a text is short enough to be rewritten.
pub open spec fn within_limit(text: Seq<char>) -> bool {
    text.len() <= TARGET_LIMIT
}

/// Whether an optional text is short enough to be rewritten.
pub open spec fn opt_within_limit(text: Option<Seq<char>>) -> bool {
    match text {
        Some(t) => within_limit(t),
        None => true,
    }
}

/// `url` with the query put in, given what putting the path in has made of
/// the upstream URL: nothing where that failed or came out too long.
pub open spec fn target_after_path(with_path: Option<Seq<char>>, query: Option<Seq<char>>) -> Option<
    Seq<char>,
> {
    match with_path {
        Some(url) => if within_limit(url) {
            url_with_query(url, query)
        } else {
            None
        },
        None => None,
    }
}

/// The URL that a request for `path` and `query` is handed on to: the
/// upstream with that path and that query. `None` where the upstream is no
/// absolute URL or a text is too long to be rewritten.
pub open spec fn proxied_url(upstream: Seq<char>, path: Seq<char>, query: Option<Seq<char>>) -> Option<
    Seq<char>,
> {
    if within_limit(upstream) && within_limit(path) && opt_within_limit(query) {
        target_after_path(url_with_path(upstream, path), query)
    } else {
        None
    }
}

/// A request as it is handed on.
pub struct ProxyRequest {
    pub method: HttpMethod,
    pub url: String,
}

/// What an upstream answered. The body is `None` where it could not be
/// read to its end.
pub struct Upstream {
    pub status: u16,
    pub headers: Vec<Header>,
    pub body: Option<Vec<u8>>,
}

/// The answer that is handed back for what the upstream answered: its
/// status, all of its headers, and its body as far as there is one.
pub open spec fn relayed(upstream: Upstream) -> ResponseView {
    ResponseView {
        status: upstream.status as int,
        headers: header_lines(upstream.headers@),
        body: match upstream.body {
            Some(bytes) => bytes@,
            None => Seq::empty(),
        },
    }
}

/// Whether a text is short enough to be rewritten.
pub fn short_enough(text: &str) -> (r: bool)
    ensures
        r == within_limit(text@),
{
    text.unicode_len() <= TARGET_LIMIT
}

/// Puts the query in, given what putting the path in has made of the
/// upstream URL.
pub fn finish_target(with_path: Option<String>, query: Option<&str>) -> (r: Option<String>)
    requires
        opt_within_limit(opt_str(query)),
    ensures
        opt_text(r) == target_after_path(opt_text(with_path), opt_str(query)),
{
    match with_path {
        Some(url) => if short_enough(url.as_str()) {
            with_query(url.as_str(), query)
        } else {
            None
        },
        None => None,
    }
}

/// Hands requests on to one upstream.
pub struct ProxyHandler {
    pub proxy_url: String,
}

impl ProxyHandler {
    pub fn new(proxy_url: &str) -> (p: ProxyHandler)
        ensures
            p.proxy_url@ == proxy_url@,
    {
        ProxyHandler { proxy_url: proxy_url.to_owned() }
    }

    /// The URL that a request for `path` and `query` is handed on to.
    pub fn target(&self, path: &str, query: Option<&str>) -> (r: Option<String>)
        ensures
            opt_text(r) == proxied_url(self.proxy_url@, path@, opt_str(query)),
    {
        let query_fits = match query {
            Some(q) => short_enough(q),
            None => true,
        };
        if short_enough(self.proxy_url.as_str()) && short_enough(path) && query_fits {
            let moved = with_path(self.proxy_url.as_str(), path);
            finish_target(moved, query)
        } else {
            None
        }
    }

    /// The request that is sent upstream for a request with this method,
    /// path and query: the same method, and the upstream URL with that path
    /// and query. `None` where there is no such URL.
    pub fn handle(&self, method: HttpMethod, path: &str, query: Option<&str>) -> (r: Option<
        ProxyRequest,
    >)
        ensures
            match proxied_url(self.proxy_url@, path@, opt_str(query)) {
                Some(url) => r matches Some(request) && request.method == method && request.url@
                    == url,
                None => r is None,
            },
    {
        match self.target(path, query) {
            Some(url) => Some(ProxyRequest { method, url }),
            None => None,
        }
    }

    /// The outcome for what came back from upstream: the answer as it came,
    /// with every header, or a server error where nothing came back.
    pub fn relay(upstream: Option<Upstream>) -> (outcome: Outcome)
        ensures
            match upstream {
                Some(answer) => outcome matches Outcome::Success(response) && response@
                    == relayed(answer) && response.headers == answer.headers,
                None => outcome matches Outcome::Failure(status) && status
                    == INTERNAL_SERVER_ERROR,
            },
    {
        match upstream {
            Some(answer) => {
                let body = match answer.body {
                    Some(bytes) => bytes,
                    None => Vec::new(),
                };
                Outcome::Success(
                    Response { status: answer.status as i64, headers: answer.headers, body },
                )
            },
            None => Outcome::Failure(INTERNAL_SERVER_ERROR),
        }
    }
}

} // verus!
