//! URI references, split into the parts that routing reads.
//!
//! The split itself is the work of the URI parser of the `rocket` crate. Its
//! grammar is long, so the result of the parser gets a name here,
//! [`uri_reference`], and everything the library does with a URI is stated
//! over that name.

use vstd::prelude::*;
use vstd::string::StringExecFns;
use rocket::http::uri::Reference;
use rocket::http::uri::Uri;
use crate::text::decimal;
use crate::text::push_decimal;
use crate::text::push_text;
use crate::text::string_of;

verus! {

/// The view of an optional string.
pub open spec fn opt_text(s: Option<String>) -> Option<Seq<char>> {
    match s {
        Some(t) => Some(t@),
        None => None,
    }
}

/// The authority part of a URI: who is asked.
pub struct Authority {
    pub user_info: Option<String>,
    pub host: String,
    pub port: Option<u16>,
}

/// The mathematical model of an [`Authority`].
pub struct AuthorityParts {
    pub user_info: Option<Seq<char>>,
    pub host: Seq<char>,
    pub port: Option<u16>,
}

impl View for Authority {
    type V = AuthorityParts;

    open spec fn view(&self) -> AuthorityParts {
        AuthorityParts {
            user_info: opt_text(self.user_info),
            host: self.host@,
            port: self.port,
        }
    }
}

/// A URI reference, split into authority, path and query. The scheme and the
/// fragment play no part in routing and are not kept.
pub struct ParsedUri {
    pub authority: Option<Authority>,
    pub path: String,
    pub query: Option<String>,
}

/// The mathematical model of a [`ParsedUri`].
pub struct UriParts {
    pub authority: Option<AuthorityParts>,
    pub path: Seq<char>,
    pub query: Option<Seq<char>>,
}

impl View for ParsedUri {
    type V = UriParts;

    open spec fn view(&self) -> UriParts {
        UriParts {
            authority: match self.authority {
                Some(a) => Some(a@),
                None => None,
            },
            path: self.path@,
            query: opt_text(self.query),
        }
    }
}

/// The view of an optional parsed URI.
pub open spec fn opt_uri(u: Option<ParsedUri>) -> Option<UriParts> {
    match u {
        Some(p) => Some(p@),
        None => None,
    }
}

/// What the URI parser makes of `url`: its parts where `url` is a URI
/// reference, and `None` where it is not.
pub uninterp spec fn uri_reference(url: Seq<char>) -> Option<UriParts>;

/// Calls `Uri::parse::<Reference>` of `rocket` and copies the authority, the
/// path and the query out of the reference it returns. The contract gives
/// that result its name and claims nothing else of it.
#[verifier::external_body]
pub(crate) fn parse_reference(url: &str) -> (r: Option<ParsedUri>)
    ensures
        opt_uri(r) == uri_reference(url@),
{
    let uri = Uri::parse::<Reference>(url).ok()?;
    let reference = uri.reference()?;
    Some(ParsedUri {
        authority: reference.authority().map(|a| Authority {
            user_info: a.user_info().map(|u| u.to_string()),
            host: a.host().to_string(),
            port: a.port(),
        }),
        path: reference.path().as_str().to_string(),
        query: reference.query().map(|q| q.as_str().to_string()),
    })
}

impl AuthorityParts {
    /// The authority as it is written in a URI: the user information and an
    /// `@` where there is any, the host, and a colon and the port where there
    /// is one.
    pub open spec fn text(self) -> Seq<char> {
        let user = match self.user_info {
            Some(u) => u + seq!['@'],
            None => Seq::empty(),
        };
        let port = match self.port {
            Some(p) => seq![':'] + decimal(p as nat),
            None => Seq::empty(),
        };
        user + self.host + port
    }
}

impl UriParts {
    /// The host that the URI names, if it names one.
    pub open spec fn host(self) -> Option<Seq<char>> {
        match self.authority {
            Some(a) => Some(a.host),
            None => None,
        }
    }

    /// The authority followed by the path: the URI without scheme, query and
    /// fragment. `None` where the URI has no authority.
    pub open spec fn without_query(self) -> Option<Seq<char>> {
        match self.authority {
            Some(a) => Some(a.text() + self.path),
            None => None,
        }
    }
}

impl Authority {
    /// The authority as it is written in a URI.
    pub fn text(&self) -> (s: String)
        ensures
            s@ == self@.text(),
    {
        let mut out: Vec<char> = Vec::new();
        if let Some(u) = &self.user_info {
            push_text(&mut out, u.as_str());
            out.push('@');
        }
        push_text(&mut out, self.host.as_str());
        if let Some(p) = self.port {
            out.push(':');
            push_decimal(&mut out, p as u64);
        }
        string_of(&out)
    }
}

impl ParsedUri {
    /// The authority followed by the path, where the URI has an authority.
    pub fn without_query(&self) -> (r: Option<String>)
        ensures
            opt_text(r) == self@.without_query(),
    {
        match &self.authority {
            Some(a) => {
                let mut s = a.text();
                s.append(self.path.as_str());
                Some(s)
            },
            None => None,
        }
    }
}

} // verus!
