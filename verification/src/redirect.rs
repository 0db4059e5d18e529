//! The secure-transport filter: a request already on `https` is delegated
//! unchanged; a plaintext request is answered with a `301 Moved Permanently`
//! redirect to its HTTPS equivalent, the target port rewritten by policy.

use vstd::prelude::*;
use vstd::string::StrSliceExecFns;
use vstd::string::StringExecFns;

use crate::request::uri_seq;
use crate::request::Request;
use crate::request::UriView;
use crate::text::append_dec;
use crate::text::dec_of;
use crate::text::str_eq;

verus! {

/// The prefix of `h` before its first ':', or all of `h` when it holds none:
/// the host name without an explicit port. A malformed host is simply kept
/// whole, since it then holds no ':'.
pub open spec fn host_name(h: Seq<char>) -> Seq<char>
    decreases h.len(),
{
    if h.len() == 0 {
        Seq::empty()
    } else if h[0] == ':' {
        Seq::empty()
    } else {
        seq![h[0]] + host_name(h.drop_first())
    }
}

/// The host of the redirect target. For the default HTTPS port the bare host
/// name (an explicit port of the original host is dropped); for any other
/// configured port, `hostname:port` (an explicit port is replaced).
pub open spec fn target_host(port: u16, host: Seq<char>) -> Seq<char> {
    if port == 443 {
        host_name(host)
    } else {
        host_name(host) + seq![':'] + dec_of(port as nat)
    }
}

/// The full redirect target: `https://`, the target host, then the original
/// path and query verbatim.
pub open spec fn redirect_location(port: u16, host: Seq<char>, uri: UriView) -> Seq<char> {
    "https://"@ + target_host(port, host) + uri_seq(uri)
}

/// A terminal response produced by the redirect filter: the status code and
/// the value of its single `Location` header.
#[derive(Debug)]
pub struct Response {
    pub status: u16,
    pub location: String,
}

/// What the filter decided for one request: delegate it to the inner handler
/// unchanged, or short-circuit with a terminal response.
#[derive(Debug)]
pub enum Disposition {
    Forward,
    Redirect(Response),
}

/// Configuration of the HTTPS-redirect filter: the port the redirect target
/// uses. 443, the default, is left implicit in the target.
#[derive(Debug)]
pub struct RedirectHttps {
    pub port: u16,
}

impl Default for RedirectHttps {
    /// The default configuration redirects to the standard HTTPS port.
    fn default() -> (r: Self)
        ensures
            r.port == 443,
    {
        RedirectHttps { port: 443 }
    }
}

impl RedirectHttps {
    pub fn new(port: u16) -> (r: Self)
        ensures
            r.port == port,
    {
        RedirectHttps { port }
    }

    /// Wraps `service` in the HTTPS-redirect middleware.
    pub fn create<S>(&self, service: S) -> (r: RedirectHttpsMiddleware<S>)
        ensures
            r.port == self.port,
            r.service == service,
    {
        RedirectHttpsMiddleware { port: self.port, service }
    }
}

/// The HTTPS-redirect middleware around an inner handler `service`.
#[derive(Debug)]
pub struct RedirectHttpsMiddleware<S> {
    pub port: u16,
    pub service: S,
}

impl<S> RedirectHttpsMiddleware<S> {
    /// Decides one request: a secure request is forwarded to the inner
    /// handler untouched; any other request is answered with a `301` redirect
    /// whose `Location` is the HTTPS equivalent of the original target.
    pub fn handle(&self, req: &Request) -> (h: Disposition)
        ensures
            req@.scheme == "https"@ ==> h == Disposition::Forward,
            req@.scheme != "https"@ ==> (h matches Disposition::Redirect(resp)
                && resp.status == 301
                && resp.location@ == redirect_location(self.port, req@.host, req@.uri)),
    {
        if str_eq(req.scheme.as_str(), "https") {
            return Disposition::Forward;
        }
        let mut loc = String::from_str("https://");
        let hn = host_prefix(req.host.as_str());
        loc.append(hn);
        if self.port != 443 {
            loc.append(":");
            append_dec(&mut loc, self.port);
            proof {
                reveal_strlit(":");
                assert(":"@ =~= seq![':']);
            }
        }
        proof {
            assert(loc@ =~= "https://"@ + target_host(self.port, req@.host));
        }
        loc.append(req.uri.path.as_str());
        match &req.uri.query {
            Option::Some(q) => {
                loc.append("?");
                loc.append(q.as_str());
                proof {
                    reveal_strlit("?");
                    assert("?"@ =~= seq!['?']);
                }
            },
            Option::None => {},
        }
        proof {
            assert(loc@ =~= redirect_location(self.port, req@.host, req@.uri));
        }
        Disposition::Redirect(Response { status: 301, location: loc })
    }
}

/// The host name alone: everything before the first ':' of `h`, or all of
/// `h` when it holds no ':'.
pub fn host_prefix(h: &str) -> (r: &str)
    ensures
        r@ == host_name(h@),
{
    let n = h.unicode_len();
    let mut i: usize = 0;
    proof {
        assert(h@.skip(0) =~= h@);
        assert(h@.subrange(0, 0) + host_name(h@.skip(0)) =~= host_name(h@));
    }
    while i < n && h.get_char(i) != ':'
        invariant
            i <= n,
            n == h@.len(),
            host_name(h@) == h@.subrange(0, i as int) + host_name(h@.skip(i as int)),
        decreases n - i,
    {
        proof {
            let rest = h@.skip(i as int);
            assert(rest[0] == h@[i as int]);
            assert(rest.drop_first() =~= h@.skip(i + 1));
            assert(host_name(rest) == seq![rest[0]] + host_name(rest.drop_first()));
            assert(h@.subrange(0, i as int) + (seq![h@[i as int]] + host_name(h@.skip(i + 1)))
                =~= h@.subrange(0, i + 1) + host_name(h@.skip(i + 1)));
        }
        i += 1;
    }
    proof {
        let rest = h@.skip(i as int);
        if i < n {
            assert(rest[0] == ':');
        } else {
            assert(rest =~= Seq::<char>::empty());
        }
        assert(host_name(rest) =~= Seq::<char>::empty());
        assert(host_name(h@) =~= h@.subrange(0, i as int));
    }
    h.substring_char(0, i)
}

} // verus!
