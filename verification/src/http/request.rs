//! An incoming HTTP request whose body can be read whole or in chunks.

use vstd::prelude::*;
use bytes::Bytes;
use crate::http::body::{
    bytes_clone, bytes_content, bytes_empty, ChunkedBytesStream, DEFAULT_CHUNK_SIZE,
};
use crate::http::header::HeaderMap;
use crate::text::to_owned_str;

verus! {

/// An incoming HTTP request with a buffered body.
pub struct Request {
    method: String,
    uri: String,
    headers: HeaderMap,
    body: Bytes,
}

impl Request {
    /// The method, as characters.
    pub closed spec fn method_view(&self) -> Seq<char> {
        self.method@
    }

    /// The URI, as characters.
    pub closed spec fn uri_view(&self) -> Seq<char> {
        self.uri@
    }

    /// The headers.
    pub closed spec fn headers_view(&self) -> Seq<(Seq<char>, Seq<char>)> {
        self.headers@
    }

    /// The body bytes.
    pub closed spec fn body_view(&self) -> Seq<u8> {
        bytes_content(self.body)
    }

    /// A request with a buffered body.
    pub fn new(method: &str, uri: &str, headers: HeaderMap, body: Bytes) -> (res: Self)
        ensures
            res.method_view() == method@,
            res.uri_view() == uri@,
            res.headers_view() == headers@,
            res.body_view() == bytes_content(body),
    {
        Request { method: to_owned_str(method), uri: to_owned_str(uri), headers, body }
    }

    /// A request with an empty body.
    pub fn empty(method: &str, uri: &str, headers: HeaderMap) -> (res: Self)
        ensures
            res.method_view() == method@,
            res.uri_view() == uri@,
            res.headers_view() == headers@,
            res.body_view() == Seq::<u8>::empty(),
    {
        Request { method: to_owned_str(method), uri: to_owned_str(uri), headers, body: bytes_empty() }
    }

    /// The method.
    pub fn method(&self) -> (res: &str)
        ensures
            res@ == self.method_view(),
    {
        self.method.as_str()
    }

    /// The URI.
    pub fn uri(&self) -> (res: &str)
        ensures
            res@ == self.uri_view(),
    {
        self.uri.as_str()
    }

    /// The headers.
    pub fn headers(&self) -> (res: &HeaderMap)
        ensures
            res@ == self.headers_view(),
    {
        &self.headers
    }

    /// Direct access to the body buffer.
    pub fn body_bytes(&self) -> (res: &Bytes)
        ensures
            bytes_content(*res) == self.body_view(),
    {
        &self.body
    }

    /// The body as chunks of `DEFAULT_CHUNK_SIZE` (64 KB) bytes.
    pub fn body_stream(&self) -> (res: ChunkedBytesStream)
        ensures
            res.remaining() == self.body_view(),
            res.chunk_len() == DEFAULT_CHUNK_SIZE,
    {
        self.body_stream_chunked(DEFAULT_CHUNK_SIZE)
    }

    /// The body as chunks of `chunk_size` bytes. Each call gives an
    /// independent stream over the same buffer.
    pub fn body_stream_chunked(&self, chunk_size: usize) -> (res: ChunkedBytesStream)
        requires
            chunk_size > 0,
        ensures
            res.remaining() == self.body_view(),
            res.chunk_len() == chunk_size,
    {
        ChunkedBytesStream::new(bytes_clone(&self.body), chunk_size)
    }
}

} // verus!
