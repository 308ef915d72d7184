//! The proxy target: a fixed upstream (host, port) pair derived once, at load
//! time, from a rule's `proxy_url`. Forwarding itself is I/O and lives with
//! the caller; everything here is the derivation and validation of the
//! target.

use crate::errors::Error;
use vstd::prelude::*;

verus! {

/// The host component of an URL as `http::Uri` parses it, or `None` when the
/// text does not parse or has no host.
pub uninterp spec fn url_host_of(s: Seq<char>) -> Option<Seq<char>>;

/// The port component of an URL as `http::Uri` parses it, or `None` when the
/// text does not parse or carries no explicit port.
pub uninterp spec fn url_port_of(s: Seq<char>) -> Option<u16>;

/// The outcome of parsing an URL for its authority.
pub enum UrlParse {
    /// The URL parsed and has a host, and perhaps an explicit port.
    HostPort(String, Option<u16>),
    /// The URL parsed but names no host.
    NoHost,
    /// The URL did not parse; holds the parser's message.
    Bad(String),
}

/// Relies on the `http` crate: `str::parse::<http::Uri>` (Uri's `FromStr`),
/// `Uri::host` and `Uri::port_u16`. Parsing is a function of the text alone;
/// its host and port outcomes are named by `url_host_of` and `url_port_of`.
#[verifier::external_body]
fn parse_url(url: &str) -> (r: UrlParse)
    ensures
        match r {
            UrlParse::HostPort(h, p) => url_host_of(url@) == Some(h@) && url_port_of(url@) == p,
            UrlParse::NoHost => url_host_of(url@) is None,
            UrlParse::Bad(_) => url_host_of(url@) is None,
        },
{
    match url.parse::<http::Uri>() {
        Ok(u) => match u.host() {
            Some(h) => UrlParse::HostPort(h.to_owned(), u.port_u16()),
            None => UrlParse::NoHost,
        },
        Err(e) => UrlParse::Bad(format!("{}", e)),
    }
}

/// The port to use: the explicit one, or 80 when the URL names none.
pub open spec fn port_or_default(p: Option<u16>) -> u16 {
    match p {
        None => 80,
        Some(v) => v,
    }
}

/// A fixed upstream address: every proxied request opens one fresh
/// connection to this host and port.
pub struct Proxy {
    pub host: String,
    pub port: u16,
}

impl Proxy {
    /// Builds the upstream address from an already-parsed host and optional
    /// port; an absent port defaults to 80.
    pub fn from_parts(host: String, port: Option<u16>) -> (p: Proxy)
        ensures
            p.host == host,
            p.port == port_or_default(port),
    {
        let port = match port {
            Some(v) => v,
            None => 80,
        };
        Proxy { host, port }
    }

    /// Derives the upstream address from a rule's `proxy_url`: the URL must
    /// parse and name a host; the port defaults to 80.
    pub fn create(url: &str) -> (r: Result<Proxy, Error>)
        ensures
            r is Ok <==> url_host_of(url@) is Some,
            match r {
                Ok(p) => url_host_of(url@) == Some(p.host@) && p.port == port_or_default(
                    url_port_of(url@),
                ),
                Err(e) => e matches Error::InvalidURLForProxy(_),
            },
    {
        match parse_url(url) {
            UrlParse::HostPort(host, port) => Ok(Proxy::from_parts(host, port)),
            UrlParse::NoHost => Err(Error::InvalidURLForProxy(String::from_str("Empty host"))),
            UrlParse::Bad(msg) => Err(Error::InvalidURLForProxy(msg)),
        }
    }
}

} // verus!
