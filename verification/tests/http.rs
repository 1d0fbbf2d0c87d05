use bytes::Bytes;
use warpgrid::http::body::{ChunkedBytesStream, DEFAULT_CHUNK_SIZE};
use warpgrid::http::error::Error;
use warpgrid::http::header::{Header, HeaderMap};
use warpgrid::http::request::Request;
use warpgrid::http::response::Response;
use warpgrid::http::wit::{header_from_wit, header_to_wit, headers_from_wit, headers_to_wit, WitHeader};

fn collect_sync(stream: &mut ChunkedBytesStream) -> Vec<Bytes> {
    let mut chunks = Vec::new();
    while let Some(chunk) = stream.next_chunk() {
        chunks.push(chunk);
    }
    chunks
}

#[test]
fn header_new() {
    let h = Header::new("Content-Type", "application/json");
    assert_eq!(h.name, "Content-Type");
    assert_eq!(h.value, "application/json");
}

#[test]
fn header_map_insert_and_get() {
    let mut map = HeaderMap::new();
    map.insert("Content-Type", "text/html");
    assert_eq!(map.get("content-type"), Some("text/html"));
    assert_eq!(map.get("Content-Type"), Some("text/html"));
}

#[test]
fn header_map_get_missing() {
    let map = HeaderMap::new();
    assert_eq!(map.get("X-Missing"), None);
}

#[test]
fn header_map_duplicate_headers() {
    let mut map = HeaderMap::new();
    map.insert("Set-Cookie", "a=1");
    map.insert("Set-Cookie", "b=2");

    assert_eq!(map.get("Set-Cookie"), Some("a=1"));
    assert_eq!(map.get_all("Set-Cookie"), vec!["a=1", "b=2"]);
}

#[test]
fn header_map_len_and_empty() {
    let mut map = HeaderMap::new();
    assert!(map.is_empty());
    assert_eq!(map.len(), 0);

    map.insert("X-Test", "1");
    assert!(!map.is_empty());
    assert_eq!(map.len(), 1);
}

#[test]
fn header_map_from_iterator() {
    let map = HeaderMap::from_pairs(vec![
        ("Host".to_string(), "example.com".to_string()),
        ("Accept".to_string(), "*/*".to_string()),
    ]);

    assert_eq!(map.len(), 2);
    assert_eq!(map.get("host"), Some("example.com"));
}

#[test]
fn header_map_into_vec() {
    let mut map = HeaderMap::new();
    map.insert("A", "1");
    map.insert("B", "2");

    let vec = map.into_vec();
    assert_eq!(vec.len(), 2);
    assert_eq!(vec[0].name, "A");
    assert_eq!(vec[1].name, "B");
}

#[test]
fn header_lookup_ignores_only_ascii_case() {
    let mut map = HeaderMap::new();
    map.insert("X-ÄB", "1");
    assert_eq!(map.get("x-Äb"), Some("1"));
    assert_eq!(map.get("x-äb"), None);
    let map2 = HeaderMap::from_headers(vec![Header::new("A", "1"), Header::new("a", "2")]);
    assert_eq!(map2.get_all("A"), vec!["1", "2"]);
    assert_eq!(map2.as_slice().len(), 2);
}

#[test]
fn error_from_string() {
    let err = Error::from("test error".to_string());
    assert_eq!(err.message(), "test error");
}

#[test]
fn error_from_str() {
    let err = Error::from("test error");
    assert_eq!(err.message(), "test error");
}

#[test]
fn error_display() {
    let err = Error::new("something failed");
    assert_eq!(err.to_string(), "something failed");
}

#[test]
fn error_is_clone() {
    let err = Error::new("original");
    let cloned = err.clone();
    assert_eq!(err.message(), cloned.message());
}

#[test]
fn chunked_stream_exact_division() {
    let data = Bytes::from(vec![0xAA; 4096]);
    let mut stream = ChunkedBytesStream::new(data, 1024);
    let chunks = collect_sync(&mut stream);

    assert_eq!(chunks.len(), 4);
    for chunk in &chunks {
        assert_eq!(chunk.len(), 1024);
        assert!(chunk.iter().all(|&b| b == 0xAA));
    }
}

#[test]
fn chunked_stream_remainder() {
    let data = Bytes::from(vec![0xBB; 3000]);
    let mut stream = ChunkedBytesStream::new(data, 1024);
    let chunks = collect_sync(&mut stream);

    assert_eq!(chunks.len(), 3);
    assert_eq!(chunks[0].len(), 1024);
    assert_eq!(chunks[1].len(), 1024);
    assert_eq!(chunks[2].len(), 952);
}

#[test]
fn chunked_stream_smaller_than_chunk() {
    let data = Bytes::from(vec![0xCC; 100]);
    let mut stream = ChunkedBytesStream::new(data, 1024);
    let chunks = collect_sync(&mut stream);

    assert_eq!(chunks.len(), 1);
    assert_eq!(chunks[0].len(), 100);
}

#[test]
fn chunked_stream_empty_body() {
    let data = Bytes::new();
    let mut stream = ChunkedBytesStream::new(data, 1024);
    let chunks = collect_sync(&mut stream);

    assert_eq!(chunks.len(), 0);
}

#[test]
fn chunked_stream_single_byte_chunks() {
    let data = Bytes::from(vec![1, 2, 3, 4, 5]);
    let mut stream = ChunkedBytesStream::new(data, 1);
    let chunks = collect_sync(&mut stream);

    assert_eq!(chunks.len(), 5);
    assert_eq!(chunks[0][0], 1);
    assert_eq!(chunks[4][0], 5);
}

#[test]
fn chunked_stream_is_zero_copy() {
    let original = Bytes::from(vec![0xFF; 8192]);
    let ptr_before = original.as_ptr();

    let mut stream = ChunkedBytesStream::new(original, 4096);
    let chunks = collect_sync(&mut stream);

    assert_eq!(chunks[0].as_ptr(), ptr_before);
    assert_eq!(chunks[1].as_ptr(), ptr_before.wrapping_add(4096));
}

#[test]
fn collect_chunks_gives_all_chunks() {
    let data: Vec<u8> = (0..=255u8).cycle().take(2500).collect();
    let mut stream = ChunkedBytesStream::new(Bytes::from(data.clone()), 1000);
    let chunks = stream.collect_chunks();
    assert_eq!(chunks.iter().map(|c| c.len()).collect::<Vec<_>>(), vec![1000, 1000, 500]);
    let joined: Vec<u8> = chunks.iter().flat_map(|c| c.iter().copied()).collect();
    assert_eq!(joined, data);
    assert!(stream.next_chunk().is_none());
}

#[test]
fn request_accessors() {
    let mut headers = HeaderMap::new();
    headers.insert("Host", "example.com");

    let req = Request::new("GET", "/users?page=1", headers, Bytes::from("hello"));
    assert_eq!(req.method(), "GET");
    assert_eq!(req.uri(), "/users?page=1");
    assert_eq!(req.headers().get("host"), Some("example.com"));
    assert_eq!(req.body_bytes().as_ref(), b"hello");
}

#[test]
fn request_empty() {
    let req = Request::empty("HEAD", "/", HeaderMap::new());
    assert!(req.body_bytes().is_empty());
}

#[test]
fn body_stream_empty_body() {
    let req = Request::empty("GET", "/", HeaderMap::new());
    let chunks = collect_sync(&mut req.body_stream());
    assert!(chunks.is_empty());
}

#[test]
fn body_stream_small_body_single_chunk() {
    let req = Request::new("POST", "/", HeaderMap::new(), Bytes::from(vec![1u8; 100]));
    let chunks = collect_sync(&mut req.body_stream());
    assert_eq!(chunks.len(), 1);
    assert_eq!(chunks[0].len(), 100);
}

#[test]
fn body_stream_chunked_yields_correct_sizes() {
    let req = Request::new("POST", "/", HeaderMap::new(), Bytes::from(vec![0xAB; 4096]));
    let chunks = collect_sync(&mut req.body_stream_chunked(1024));

    assert_eq!(chunks.len(), 4);
    for chunk in &chunks {
        assert_eq!(chunk.len(), 1024);
    }
}

#[test]
fn body_stream_preserves_content() {
    let data: Vec<u8> = (0..=255).cycle().take(10_000).collect();
    let req = Request::new("POST", "/", HeaderMap::new(), Bytes::from(data.clone()));

    let chunks = collect_sync(&mut req.body_stream_chunked(1024));
    let reassembled: Vec<u8> = chunks.iter().flat_map(|c| c.iter().copied()).collect();
    assert_eq!(reassembled, data);
}

#[test]
fn body_stream_callable_multiple_times() {
    let req = Request::new("POST", "/", HeaderMap::new(), Bytes::from(vec![1u8; 100]));

    let chunks1 = collect_sync(&mut req.body_stream());
    let chunks2 = collect_sync(&mut req.body_stream());

    assert_eq!(chunks1.len(), 1);
    assert_eq!(chunks2.len(), 1);
    assert_eq!(chunks1[0], chunks2[0]);
}

#[test]
fn default_chunk_size_is_64k() {
    assert_eq!(DEFAULT_CHUNK_SIZE, 64 * 1024);
    let req = Request::new("POST", "/", HeaderMap::new(), Bytes::from(vec![0u8; 70_000]));
    let chunks = collect_sync(&mut req.body_stream());
    assert_eq!(chunks.len(), 2);
    assert_eq!(chunks[1].len(), 70_000 - 65_536);
}

#[test]
fn buffered_response_into_bytes() {
    let mut headers = HeaderMap::new();
    headers.insert("Content-Type", "text/plain");
    let resp = Response::new(200, headers, Bytes::from("hello world"));
    assert_eq!(resp.status(), 200);
    assert_eq!(resp.headers().get("content-type"), Some("text/plain"));
    assert_eq!(resp.into_bytes(), Bytes::from("hello world"));
}

#[test]
fn empty_response_into_bytes() {
    let resp = Response::empty(204, HeaderMap::new());
    assert!(resp.into_bytes().is_empty());
}

#[test]
fn buffered_response_into_body_stream() {
    let resp = Response::new(200, HeaderMap::new(), Bytes::from("abc"));
    let chunks = collect_sync(&mut resp.into_body_stream());
    assert_eq!(chunks, vec![Bytes::from("abc")]);
}

#[test]
fn empty_buffered_response_into_body_stream() {
    let resp = Response::empty(200, HeaderMap::new());
    let chunks = collect_sync(&mut resp.into_body_stream());
    assert!(chunks.is_empty());
}

#[test]
fn header_map_iter_in_order() {
    let mut map = HeaderMap::new();
    map.insert("content-type", "text/plain");
    map.insert("x-a", "1");
    map.insert("x-a", "2");
    let pairs: Vec<(String, String)> = map.iter().map(|h| (h.name.clone(), h.value.clone())).collect();
    assert_eq!(
        pairs,
        vec![
            ("content-type".to_string(), "text/plain".to_string()),
            ("x-a".to_string(), "1".to_string()),
            ("x-a".to_string(), "2".to_string()),
        ]
    );
}

#[test]
fn header_order_preserved() {
    use_wit_round_trip();
}

fn use_wit_round_trip() {
    let map = HeaderMap::from_pairs(vec![
        ("z-last".to_string(), "3".to_string()),
        ("a-first".to_string(), "1".to_string()),
        ("m-middle".to_string(), "2".to_string()),
        ("x-empty".to_string(), "".to_string()),
    ]);
    let records = headers_to_wit(&map);
    assert_eq!(records[0].name, "z-last");
    assert_eq!(records[3].value, "");
    let back = headers_from_wit(&records);
    let pairs: Vec<(String, String)> = back.iter().map(|h| (h.name.clone(), h.value.clone())).collect();
    let orig: Vec<(String, String)> = map.iter().map(|h| (h.name.clone(), h.value.clone())).collect();
    assert_eq!(pairs, orig);
}

#[test]
fn header_round_trip_preserves_empty_values() {
    let h = header_from_wit(header_to_wit(Header::new("x-empty", "")));
    assert_eq!(h.name, "x-empty");
    assert_eq!(h.value, "");
    let w = WitHeader { name: "a".to_string(), value: "b".to_string() };
    let h = header_from_wit(w);
    assert_eq!((h.name.as_str(), h.value.as_str()), ("a", "b"));
}
