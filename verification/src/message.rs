//! The request handed to a handler and the response it fills in.

use crate::buffer::{stored, stored_slice, MAX_CAPACITY};
use bytes::BytesMut;
use vstd::prelude::*;

verus! {

/// The number of header slots of a request. A request with more headers does
/// not decode.
pub const MAX_HEADERS: usize = 16;

/// The capacity that a response body starts with.
pub const BODY_CAPACITY: usize = 4096 * 8;

/// One header line of a request.
pub struct Header {
    /// The header's name.
    pub name: String,
    /// The header's value, as it was sent.
    pub value: Vec<u8>,
}

/// The mathematical content of a [`Header`].
pub struct HeaderModel {
    pub name: Seq<char>,
    pub value: Seq<u8>,
}

impl View for Header {
    type V = HeaderModel;

    open spec fn view(&self) -> HeaderModel {
        HeaderModel { name: self.name@, value: self.value@ }
    }
}

/// The mathematical content of a [`Request`].
pub struct RequestModel {
    pub method: Seq<char>,
    pub path: Seq<char>,
    pub version: u8,
    pub headers: Seq<HeaderModel>,
    pub body: Seq<u8>,
}

/// A decoded request: copies of what the handler may read, independent of
/// the read buffer they were decoded from.
pub struct Request {
    method: String,
    path: String,
    version: u8,
    headers: Vec<Header>,
    body: Vec<u8>,
}

impl View for Request {
    type V = RequestModel;

    closed spec fn view(&self) -> RequestModel {
        RequestModel {
            method: self.method@,
            path: self.path@,
            version: self.version,
            headers: self.headers@.map_values(|h: Header| h@),
            body: self.body@,
        }
    }
}

impl Request {
    /// Every request holds at most [`MAX_HEADERS`] headers.
    #[verifier::type_invariant]
    pub closed spec fn wf(&self) -> bool {
        self.headers.len() <= MAX_HEADERS
    }

    /// Builds a request, or `None` where there are more headers than slots.
    pub fn new(
        method: String,
        path: String,
        version: u8,
        headers: Vec<Header>,
        body: Vec<u8>,
    ) -> (made: Option<Request>)
        ensures
            made.is_some() <==> headers.len() <= MAX_HEADERS,
            made matches Some(req) ==> req@ == (RequestModel {
                method: method@,
                path: path@,
                version,
                headers: headers@.map_values(|h: Header| h@),
                body: body@,
            }),
    {
        if headers.len() > MAX_HEADERS {
            None
        } else {
            Some(Request { method, path, version, headers, body })
        }
    }

    /// The request method.
    pub fn method(&self) -> (s: &str)
        ensures
            s@ == self@.method,
    {
        self.method.as_str()
    }

    /// The request target.
    pub fn path(&self) -> (s: &str)
        ensures
            s@ == self@.path,
    {
        self.path.as_str()
    }

    /// The minor version of HTTP/1.
    pub fn version(&self) -> (v: u8)
        ensures
            v == self@.version,
    {
        self.version
    }

    /// The headers, in the order they were sent.
    pub fn headers(&self) -> (hs: &[Header])
        ensures
            hs@.map_values(|h: Header| h@) == self@.headers,
            hs@.len() <= MAX_HEADERS,
    {
        proof {
            use_type_invariant(self);
        }
        self.headers.as_slice()
    }

    /// The request body.
    pub fn body(&self) -> (b: &[u8])
        ensures
            b@ == self@.body,
    {
        self.body.as_slice()
    }
}

/// The mathematical content of a [`Response`].
pub struct ResponseModel {
    /// The status code.
    pub status: u16,
    /// The reason phrase that goes with it.
    pub reason: Seq<char>,
    /// The body staged so far.
    pub body: Seq<u8>,
}

impl ResponseModel {
    /// The response a cycle starts with: 200 and no body.
    pub open spec fn blank() -> ResponseModel {
        ResponseModel { status: 200, reason: "Ok"@, body: Seq::empty() }
    }

    /// The fallback for a handler that failed: 500, with the failure's text
    /// as the body.
    pub open spec fn internal_error(text: Seq<u8>) -> ResponseModel {
        ResponseModel { status: 500, reason: "Internal Server Error"@, body: text }
    }
}

/// A response under construction: status and a body buffer that is reused
/// from one cycle to the next.
pub struct Response {
    status: u16,
    reason: &'static str,
    body: BytesMut,
}

impl View for Response {
    type V = ResponseModel;

    closed spec fn view(&self) -> ResponseModel {
        ResponseModel { status: self.status, reason: self.reason@, body: stored(self.body) }
    }
}

impl Response {
    /// Creates a blank response.
    pub fn new() -> (rsp: Response)
        ensures
            rsp@ == ResponseModel::blank(),
    {
        Response { status: 200, reason: "Ok", body: BytesMut::with_capacity(BODY_CAPACITY) }
    }

    /// Sets the status code and its reason phrase.
    pub fn status_code(&mut self, code: u16, reason: &'static str)
        ensures
            final(self)@ == (ResponseModel { status: code, reason: reason@, ..old(self)@ }),
    {
        self.status = code;
        self.reason = reason;
    }

    /// Appends `data` to the body. Returns `false`, and appends nothing,
    /// where the body would pass [`MAX_CAPACITY`].
    pub fn append_body(&mut self, data: &[u8]) -> (ok: bool)
        ensures
            ok == (old(self)@.body.len() + data@.len() <= MAX_CAPACITY),
            ok ==> final(self)@ == (ResponseModel {
                body: old(self)@.body + data@,
                ..old(self)@
            }),
            !ok ==> final(self)@ == old(self)@,
    {
        let len = self.body.len();
        if len > MAX_CAPACITY || data.len() > MAX_CAPACITY - len {
            return false;
        }
        self.body.extend_from_slice(data);
        true
    }

    /// Makes the response blank again; the body buffer keeps its storage.
    pub fn reset(&mut self)
        ensures
            final(self)@ == ResponseModel::blank(),
    {
        self.status = 200;
        self.reason = "Ok";
        self.body.clear();
    }

    /// The status code.
    pub fn status(&self) -> (code: u16)
        ensures
            code == self@.status,
    {
        self.status
    }

    /// The reason phrase.
    pub fn reason(&self) -> (reason: &'static str)
        ensures
            reason@ == self@.reason,
    {
        self.reason
    }

    /// The body staged so far.
    pub fn body(&self) -> (bytes: &[u8])
        ensures
            bytes@ == self@.body,
    {
        stored_slice(&self.body)
    }
}

/// Turns `rsp` into the fallback for a failed handler: status 500 with
/// `text`, the failure's description, as the whole body. Returns `false`
/// where `text` is too long for a body; the response then has no body.
pub fn internal_error_rsp(text: &[u8], rsp: &mut Response) -> (ok: bool)
    ensures
        ok == (text@.len() <= MAX_CAPACITY),
        ok ==> final(rsp)@ == ResponseModel::internal_error(text@),
        !ok ==> final(rsp)@ == ResponseModel::internal_error(Seq::empty()),
{
    rsp.reset();
    rsp.status_code(500, "Internal Server Error");
    rsp.append_body(text)
}

} // verus!
