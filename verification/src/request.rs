//! A request as the handlers see it: what the client sent, together with the
//! connection it came in on and an identity of its own.

use vstd::prelude::*;
use std::sync::atomic::AtomicUsize;
use std::sync::atomic::Ordering;
use crate::connection::ConnectionID;

verus! {

/// The identity of one request. It correlates log lines and has no other
/// use.
#[derive(Clone, Copy, Debug)]
pub struct RequestID(usize);

impl View for RequestID {
    type V = usize;

    closed spec fn view(&self) -> usize {
        self.0
    }
}

impl RequestID {
    /// The identity as a number.
    pub fn as_usize(&self) -> (value: usize)
        ensures
            value == self@,
    {
        self.0
    }
}

/// The version of HTTP that a request was made in.
#[derive(Clone, Copy, Debug, PartialEq, Eq, Structural)]
pub enum HttpVersion {
    Http09,
    Http10,
    Http11,
    Http2,
    Http3,
    Unknown,
}

/// One header of a request: its name, and its value where the value is text.
#[derive(Clone, Debug)]
pub struct RequestHeader {
    pub name: String,
    pub value: Option<String>,
}

/// What the client sent, without the body.
#[derive(Clone, Debug)]
pub struct RequestHead {
    pub method: String,
    pub uri_path: String,
    pub version: HttpVersion,
    pub headers: Vec<RequestHeader>,
}

/// A request together with the connection it came in on and its identity.
#[derive(Debug)]
pub struct HttpRequest {
    pub connection_id: ConnectionID,
    pub request_id: RequestID,
    pub head: RequestHead,
}

impl HttpRequest {
    pub fn new(connection_id: ConnectionID, request_id: RequestID, head: RequestHead) -> (request:
        Self)
        ensures
            request.connection_id == connection_id,
            request.request_id == request_id,
            request.head == head,
    {
        Self { connection_id, request_id, head }
    }
}

/// The source of request identities. The identities come from a counter that
/// is advanced without synchronisation with anything else, so nothing is
/// promised of the numbers.
pub struct RequestIDFactory {
    next_request_id: AtomicUsize,
}

impl RequestIDFactory {
    /// A source whose first identity is 1.
    pub fn new() -> Self {
        Self { next_request_id: AtomicUsize::new(1) }
    }

    /// The next identity.
    pub fn new_request_id(&self) -> RequestID {
        let id = self.next_request_id.fetch_add(1, Ordering::Relaxed);
        RequestID(id)
    }
}

} // verus!
