//! An outgoing HTTP response with a buffered body.

use vstd::prelude::*;
use bytes::Bytes;
use crate::http::body::{bytes_content, bytes_empty, bytes_len, ChunkedBytesStream};
use crate::http::header::HeaderMap;

verus! {

/// An outgoing HTTP response with a buffered body.
pub struct Response {
    status: u16,
    headers: HeaderMap,
    body: Bytes,
}

impl Response {
    /// The status code.
    pub closed spec fn status_view(&self) -> u16 {
        self.status
    }

    /// The headers.
    pub closed spec fn headers_view(&self) -> Seq<(Seq<char>, Seq<char>)> {
        self.headers@
    }

    /// The body bytes.
    pub closed spec fn body_view(&self) -> Seq<u8> {
        bytes_content(self.body)
    }

    /// A response with a buffered body.
    pub fn new(status: u16, headers: HeaderMap, body: Bytes) -> (res: Self)
        ensures
            res.status_view() == status,
            res.headers_view() == headers@,
            res.body_view() == bytes_content(body),
    {
        Response { status, headers, body }
    }

    /// A response with an empty body.
    pub fn empty(status: u16, headers: HeaderMap) -> (res: Self)
        ensures
            res.status_view() == status,
            res.headers_view() == headers@,
            res.body_view() == Seq::<u8>::empty(),
    {
        Response { status, headers, body: bytes_empty() }
    }

    /// The status code.
    pub fn status(&self) -> (res: u16)
        ensures
            res == self.status_view(),
    {
        self.status
    }

    /// The headers.
    pub fn headers(&self) -> (res: &HeaderMap)
        ensures
            res@ == self.headers_view(),
    {
        &self.headers
    }

    /// The whole body.
    pub fn into_bytes(self) -> (res: Bytes)
        ensures
            bytes_content(res) == self.body_view(),
    {
        self.body
    }

    /// The body as a stream: a single chunk holding all of it, or no chunk
    /// at all when it is empty.
    pub fn into_body_stream(self) -> (res: ChunkedBytesStream)
        ensures
            res.remaining() == self.body_view(),
            self.body_view().len() > 0 ==> res.chunk_len() == self.body_view().len(),
    {
        let n = bytes_len(&self.body);
        let k = if n == 0 {
            1
        } else {
            n
        };
        ChunkedBytesStream::new(self.body, k)
    }
}

} // verus!
