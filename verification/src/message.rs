//! Plain-value model of the HTTP messages the router works on: a request as
//! received from the listener, and the response handed back to it.

use vstd::prelude::*;

verus! {

/// An inbound HTTP request, reduced to the values the rules read: method
/// token, path, query string (empty when none), ordered headers and body.
pub struct HttpRequest {
    pub method: String,
    pub path: String,
    pub query: String,
    pub headers: Vec<(String, String)>,
    pub body: Vec<u8>,
}

/// The response handed back to the client: status code, ordered headers and
/// body bytes.
pub struct HttpResponse {
    pub status: u16,
    pub headers: Vec<(String, String)>,
    pub body: Vec<u8>,
}

impl HttpResponse {
    /// A response in its initial state: status 200, no headers, empty body.
    pub fn new() -> (r: HttpResponse)
        ensures
            r.status == 200,
            r.headers@.len() == 0,
            r.body@.len() == 0,
    {
        HttpResponse { status: 200, headers: Vec::new(), body: Vec::new() }
    }

    /// Copies an upstream response's status, headers and body onto this
    /// response unmodified, replacing whatever it held.
    pub fn set_parts(&mut self, status: u16, headers: Vec<(String, String)>, body: Vec<u8>)
        ensures
            final(self).status == status,
            final(self).headers == headers,
            final(self).body == body,
    {
        self.status = status;
        self.headers = headers;
        self.body = body;
    }
}

} // verus!
