//! The request methods that an archive entry may carry.

use vstd::prelude::*;
use crate::text::text_eq;

verus! {

/// One of the nine request methods that can be routed.
#[derive(Clone, Copy, Debug, PartialEq, Eq, Structural)]
pub enum HttpMethod {
    Get,
    Put,
    Post,
    Delete,
    Options,
    Head,
    Trace,
    Connect,
    Patch,
}

/// The method that `name` spells, letter for letter in upper case, if any.
pub open spec fn method_named(name: Seq<char>) -> Option<HttpMethod> {
    if name == "GET"@ {
        Some(HttpMethod::Get)
    } else if name == "PUT"@ {
        Some(HttpMethod::Put)
    } else if name == "POST"@ {
        Some(HttpMethod::Post)
    } else if name == "DELETE"@ {
        Some(HttpMethod::Delete)
    } else if name == "OPTIONS"@ {
        Some(HttpMethod::Options)
    } else if name == "HEAD"@ {
        Some(HttpMethod::Head)
    } else if name == "TRACE"@ {
        Some(HttpMethod::Trace)
    } else if name == "CONNECT"@ {
        Some(HttpMethod::Connect)
    } else if name == "PATCH"@ {
        Some(HttpMethod::Patch)
    } else {
        None
    }
}

impl HttpMethod {
    /// The upper-case name of the method.
    pub open spec fn name(self) -> Seq<char> {
        match self {
            HttpMethod::Get => "GET"@,
            HttpMethod::Put => "PUT"@,
            HttpMethod::Post => "POST"@,
            HttpMethod::Delete => "DELETE"@,
            HttpMethod::Options => "OPTIONS"@,
            HttpMethod::Head => "HEAD"@,
            HttpMethod::Trace => "TRACE"@,
            HttpMethod::Connect => "CONNECT"@,
            HttpMethod::Patch => "PATCH"@,
        }
    }

    /// The upper-case name of the method.
    pub fn as_str(&self) -> (s: &'static str)
        ensures
            s@ == self.name(),
    {
        match self {
            HttpMethod::Get => "GET",
            HttpMethod::Put => "PUT",
            HttpMethod::Post => "POST",
            HttpMethod::Delete => "DELETE",
            HttpMethod::Options => "OPTIONS",
            HttpMethod::Head => "HEAD",
            HttpMethod::Trace => "TRACE",
            HttpMethod::Connect => "CONNECT",
            HttpMethod::Patch => "PATCH",
        }
    }

    /// Reads a method name. The match is exact: `get` is no method.
    pub fn parse(name: &str) -> (m: Option<HttpMethod>)
        ensures
            m == method_named(name@),
    {
        if text_eq(name, "GET") {
            Some(HttpMethod::Get)
        } else if text_eq(name, "PUT") {
            Some(HttpMethod::Put)
        } else if text_eq(name, "POST") {
            Some(HttpMethod::Post)
        } else if text_eq(name, "DELETE") {
            Some(HttpMethod::Delete)
        } else if text_eq(name, "OPTIONS") {
            Some(HttpMethod::Options)
        } else if text_eq(name, "HEAD") {
            Some(HttpMethod::Head)
        } else if text_eq(name, "TRACE") {
            Some(HttpMethod::Trace)
        } else if text_eq(name, "CONNECT") {
            Some(HttpMethod::Connect)
        } else if text_eq(name, "PATCH") {
            Some(HttpMethod::Patch)
        } else {
            None
        }
    }
}

/// Reading the name of a method gives that method back.
pub proof fn lemma_method_name_round_trip(m: HttpMethod)
    ensures
        method_named(m.name()) == Some(m),
{
    reveal_strlit("GET");
    reveal_strlit("PUT");
    reveal_strlit("POST");
    reveal_strlit("DELETE");
    reveal_strlit("OPTIONS");
    reveal_strlit("HEAD");
    reveal_strlit("TRACE");
    reveal_strlit("CONNECT");
    reveal_strlit("PATCH");
    assert("GET"@.len() == 3 && "PUT"@.len() == 3 && "POST"@.len() == 4);
    assert("PUT"@[0] != "GET"@[0]);
    assert("HEAD"@[0] != "POST"@[0]);
    assert("CONNECT"@[0] != "OPTIONS"@[0]);
    assert("PATCH"@[0] != "TRACE"@[0]);
}

/// A name that spells a method is the name of that method.
pub proof fn lemma_method_named_is_name(name: Seq<char>)
    ensures
        method_named(name) matches Some(m) ==> m.name() == name,
{
}

} // verus!
