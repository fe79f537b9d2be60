//! One request, as the frame reader hands it to the router.

use crate::headers::Headers;
use vstd::prelude::*;

verus! {

/// One request: method and path from the request line, the headers, and the
/// body. Text is kept as the bytes that arrived.
pub struct Request {
    pub method: Vec<u8>,
    pub path: Vec<u8>,
    pub headers: Headers,
    pub body: Vec<u8>,
}

/// What a `Request` holds.
pub struct RequestView {
    pub method: Seq<u8>,
    pub path: Seq<u8>,
    pub headers: Map<Seq<u8>, Seq<u8>>,
    pub body: Seq<u8>,
}

impl View for Request {
    type V = RequestView;

    open spec fn view(&self) -> RequestView {
        RequestView {
            method: self.method@,
            path: self.path@,
            headers: self.headers@,
            body: self.body@,
        }
    }
}

impl Request {
    /// A request made of these parts.
    pub fn new(method: Vec<u8>, path: Vec<u8>, headers: Headers, body: Vec<u8>) -> (r: Request)
        ensures
            r@ == (RequestView { method: method@, path: path@, headers: headers@, body: body@ }),
    {
        Request { method, path, headers, body }
    }
}

} // verus!
