//! The request model the filters operate on: a target URI (path and verbatim
//! query), the routing-metadata URI the downstream router matches on, and
//! read-only connection metadata (transport scheme and declared host).

use vstd::prelude::*;

verus! {

/// A request target: a path and an optional query string. The query is
/// carried through verbatim; the filters never inspect or re-encode it.
#[derive(Debug)]
pub struct Uri {
    pub path: String,
    pub query: Option<String>,
}

/// Mathematical image of a `Uri`.
pub struct UriView {
    pub path: Seq<char>,
    pub query: Option<Seq<char>>,
}

impl View for Uri {
    type V = UriView;

    open spec fn view(&self) -> UriView {
        UriView {
            path: self.path@,
            query: match self.query {
                Option::Some(q) => Option::Some(q@),
                Option::None => Option::None,
            },
        }
    }
}

/// `?` followed by the query, or nothing when there is no query.
pub open spec fn query_suffix(q: Option<Seq<char>>) -> Seq<char> {
    match q {
        Option::Some(qs) => seq!['?'] + qs,
        Option::None => Seq::empty(),
    }
}

/// The path-and-query form of a URI: the path, then `?query` if present.
pub open spec fn uri_seq(u: UriView) -> Seq<char> {
    u.path + query_suffix(u.query)
}

/// A request as the filters see it. `uri` and `match_uri` are mutable;
/// `scheme` and `host` come from the connection and are read-only policy-wise.
#[derive(Debug)]
pub struct Request {
    pub uri: Uri,
    pub match_uri: Uri,
    pub scheme: String,
    pub host: String,
}

/// Mathematical image of a `Request`.
pub struct RequestView {
    pub uri: UriView,
    pub match_uri: UriView,
    pub scheme: Seq<char>,
    pub host: Seq<char>,
}

impl View for Request {
    type V = RequestView;

    open spec fn view(&self) -> RequestView {
        RequestView {
            uri: self.uri@,
            match_uri: self.match_uri@,
            scheme: self.scheme@,
            host: self.host@,
        }
    }
}

} // verus!
