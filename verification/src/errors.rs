//! Request-scoped errors of the proxy path, and their rendering as a
//! client-visible response: status 400 with a JSON body `{"error":"..."}`.

use crate::message::HttpResponse;
use crate::strutil::pairs_view;
use vstd::prelude::*;
use vstd::string::StringSliceAdditionalSpecFns;
use vstd::utf8::encode_utf8;

verus! {

/// What can go wrong serving one request.
#[derive(Debug)]
pub enum Error {
    /// A rule's `proxy_url` was invalid; found at load time, never while a
    /// request is served.
    InvalidURLForProxy(String),
    /// Connecting to the upstream failed.
    IOError(String),
    /// The outbound request could not be built.
    HttpError(String),
    /// The upstream exchange failed.
    HyperError(String),
}

/// How one character is written inside a JSON string: quote and backslash
/// get a backslash, the common control characters their short escapes, any
/// other control character becomes a space, the rest stand as they are.
pub open spec fn esc_char(c: char) -> Seq<char> {
    if c == '"' {
        seq!['\\', '"']
    } else if c == '\\' {
        seq!['\\', '\\']
    } else if c == '\n' {
        seq!['\\', 'n']
    } else if c == '\r' {
        seq!['\\', 'r']
    } else if c == '\t' {
        seq!['\\', 't']
    } else if (c as u32) < 32 {
        seq![' ']
    } else {
        seq![c]
    }
}

/// The JSON-escaped form of the suffix `s[i..]`.
pub open spec fn json_escape_from(s: Seq<char>, i: int) -> Seq<char>
    decreases s.len() - i,
{
    if i < 0 || i >= s.len() {
        Seq::empty()
    } else {
        esc_char(s[i]) + json_escape_from(s, i + 1)
    }
}

/// The JSON error document carrying `msg`.
pub open spec fn json_error_body(msg: Seq<char>) -> Seq<char> {
    "{\"error\":\""@ + json_escape_from(msg, 0) + "\"}"@
}

/// JSON-escapes the suffix of `s` starting at character `i`.
fn json_escape_str_from(s: &str, i: usize) -> (r: String)
    requires
        i <= s@.len(),
    ensures
        r@ == json_escape_from(s@, i as int),
    decreases s@.len() - i,
{
    let n = s.unicode_len();
    if i == n {
        return String::new();
    }
    let c = s.get_char(i);
    let rest = json_escape_str_from(s, i + 1);
    if c == '"' {
        let h = String::from_str("\\\"");
        proof {
            reveal_strlit("\\\"");
        }
        assert(h@ =~= seq!['\\', '"']);
        h.concat(rest.as_str())
    } else if c == '\\' {
        let h = String::from_str("\\\\");
        proof {
            reveal_strlit("\\\\");
        }
        assert(h@ =~= seq!['\\', '\\']);
        h.concat(rest.as_str())
    } else if c == '\n' {
        let h = String::from_str("\\n");
        proof {
            reveal_strlit("\\n");
        }
        assert(h@ =~= seq!['\\', 'n']);
        h.concat(rest.as_str())
    } else if c == '\r' {
        let h = String::from_str("\\r");
        proof {
            reveal_strlit("\\r");
        }
        assert(h@ =~= seq!['\\', 'r']);
        h.concat(rest.as_str())
    } else if c == '\t' {
        let h = String::from_str("\\t");
        proof {
            reveal_strlit("\\t");
        }
        assert(h@ =~= seq!['\\', 't']);
        h.concat(rest.as_str())
    } else if (c as u32) < 32 {
        let h = String::from_str(" ");
        proof {
            reveal_strlit(" ");
        }
        assert(h@ =~= seq![' ']);
        h.concat(rest.as_str())
    } else {
        let h = s.substring_char(i, i + 1);
        assert(h@ =~= seq![s@[i as int]]);
        String::from_str(h).concat(rest.as_str())
    }
}

impl Error {
    /// The error's message text.
    pub open spec fn message_view(&self) -> Seq<char> {
        match self {
            Error::InvalidURLForProxy(m) => m@,
            Error::IOError(m) => m@,
            Error::HttpError(m) => m@,
            Error::HyperError(m) => m@,
        }
    }

    /// Renders the error onto the response: status 400, a JSON content type
    /// appended to the headers, and the JSON error document as the body. An
    /// invalid proxy URL never reaches a request, so it is not renderable.
    pub fn write(&self, res: &mut HttpResponse)
        requires
            !(*self matches Error::InvalidURLForProxy(_)),
        ensures
            final(res).status == 400,
            pairs_view(final(res).headers@) == pairs_view(old(res).headers@).push(
                ("content-type"@, "application/json"@),
            ),
            final(res).body@ == encode_utf8(json_error_body(self.message_view())),
    {
        let msg: &String = match self {
            Error::InvalidURLForProxy(m) => m,
            Error::IOError(m) => m,
            Error::HttpError(m) => m,
            Error::HyperError(m) => m,
        };
        let escaped = json_escape_str_from(msg.as_str(), 0);
        let body = String::from_str("{\"error\":\"").concat(escaped.as_str()).concat("\"}");
        assert(body@ == json_error_body(self.message_view()));
        res.status = 400;
        res.headers.push(
            (String::from_str("content-type"), String::from_str("application/json")),
        );
        assert(pairs_view(res.headers@) =~~= pairs_view(old(res).headers@).push(
            ("content-type"@, "application/json"@),
        ));
        res.body = body.as_str().as_bytes_vec();
    }
}

} // verus!
