use reqwless::body::BodyReader;
use reqwless::client::{HttpClient, HttpConnection, TlsConfig, TlsVerify};
use reqwless::error::{Error, UrlError};
use reqwless::headers::{ContentType, Method};
use reqwless::request::{Request, RequestBody};
use reqwless::response::{body_framing, head_progress, parse_head, read_head_step, BodyFraming, HeadProgress};

fn feed_in_reads(reader: &mut BodyReader, stream: &[u8], cap: usize) -> Result<Vec<u8>, Error> {
    let mut out = Vec::new();
    let mut pos = 0;
    loop {
        let want = reader.wants(cap);
        if want == 0 {
            return Ok(out);
        }
        let n = want.min(stream.len() - pos);
        if n == 0 {
            reader.end_of_stream()?;
            return Ok(out);
        }
        reader.feed(&stream[pos..pos + n], &mut out)?;
        pos += n;
    }
}

#[test]
fn full_request_serialization() {
    let req = Request::new(Method::POST, "/submit")
        .host("example.com")
        .headers(&[("X-One", "1"), ("X-Two", "two")])
        .content_type(ContentType::ApplicationJson)
        .basic_auth("user", "pass")
        .body(RequestBody::Fixed(b"{\"a\":1}".to_vec()))
        .build();
    let mut wire = Vec::new();
    req.write(&mut wire);
    let expected = b"POST /submit HTTP/1.1\r\nHost: example.com\r\nX-One: 1\r\nX-Two: two\r\nContent-Type: application/json\r\nAuthorization: Basic dXNlcjpwYXNz\r\nContent-Length: 7\r\n\r\n{\"a\":1}";
    assert_eq!(wire, expected.to_vec());
}

#[test]
fn request_round_trips_through_header_parser() {
    let req = Request::new(Method::PUT, "/a/b")
        .host("h")
        .headers(&[("K", "v"), ("Other", "x y")])
        .body(RequestBody::Fixed(b"abc".to_vec()))
        .build();
    let mut wire = Vec::new();
    req.write(&mut wire);
    let line_end = wire.windows(2).position(|w| w == b"\r\n").unwrap();
    assert_eq!(&wire[..line_end], b"PUT /a/b HTTP/1.1");
    // The response parser reads the same header syntax.
    let mut as_response = b"HTTP/1.1 200 OK".to_vec();
    as_response.extend_from_slice(&wire[line_end..]);
    let head = parse_head(&as_response, Method::GET).unwrap();
    let names: Vec<Vec<u8>> = head.headers.iter().map(|h| h.name.clone()).collect();
    assert_eq!(names, vec![b"Host".to_vec(), b"K".to_vec(), b"Other".to_vec(), b"Content-Length".to_vec()]);
    assert_eq!(head.headers[2].value, b"x y".to_vec());
    assert_eq!(&as_response[head.head_len..], b"abc");
}

#[test]
fn chunked_request_body_encoding() {
    let big = vec![b'z'; 26];
    let req = Request::new(Method::POST, "/up")
        .body(RequestBody::Chunked(vec![b"ab".to_vec(), Vec::new(), big.clone()]))
        .build();
    let mut wire = Vec::new();
    req.write(&mut wire);
    let mut expected = b"POST /up HTTP/1.1\r\nTransfer-Encoding: chunked\r\n\r\n2\r\nab\r\n1a\r\n".to_vec();
    expected.extend_from_slice(&big);
    expected.extend_from_slice(b"\r\n0\r\n\r\n");
    assert_eq!(wire, expected);
}

#[test]
fn chunked_round_trip_with_odd_splits() {
    let fragments = vec![b"x".to_vec(), Vec::new(), vec![7u8; 40], b"end".to_vec()];
    let req = Request::new(Method::POST, "/").body(RequestBody::Chunked(fragments.clone())).build();
    let mut head = Vec::new();
    req.write_head(&mut head);
    let mut wire = Vec::new();
    req.write(&mut wire);
    let body_wire = &wire[head.len()..];
    let expected: Vec<u8> = fragments.concat();
    for cap in [1usize, 2, 5, 16, 1000] {
        let mut reader = BodyReader::new(BodyFraming::Chunked);
        let got = feed_in_reads(&mut reader, body_wire, cap).unwrap();
        assert_eq!(got, expected, "cap {}", cap);
        assert!(reader.is_done());
    }
}

#[test]
fn fixed_body_any_read_size() {
    let stream = b"0123456789EXTRA";
    for cap in [1usize, 3, 10, 64] {
        let mut reader = BodyReader::new(BodyFraming::Fixed(10));
        let got = feed_in_reads(&mut reader, stream, cap).unwrap();
        assert_eq!(got, b"0123456789".to_vec());
        assert!(reader.is_done());
    }
}

#[test]
fn fixed_body_short_stream_is_error() {
    let mut reader = BodyReader::new(BodyFraming::Fixed(10));
    assert_eq!(feed_in_reads(&mut reader, b"0123", 4), Err(Error::UnexpectedEof));
}

#[test]
fn terminal_reader_is_idempotent() {
    let mut reader = BodyReader::new(BodyFraming::Fixed(2));
    let mut out = Vec::new();
    reader.feed(b"ok", &mut out).unwrap();
    assert!(reader.is_done());
    for _ in 0..3 {
        assert_eq!(reader.wants(100), 0);
        assert_eq!(reader.feed(b"", &mut out), Ok(()));
        assert_eq!(reader.end_of_stream(), Ok(()));
    }
    assert_eq!(out, b"ok".to_vec());
    assert_eq!(reader, BodyReader::Fixed { remaining: 0 });
}

#[test]
fn to_close_body_runs_to_end_of_stream() {
    let head = parse_head(b"HTTP/1.0 200 OK\r\nServer: x\r\n\r\n", Method::GET).unwrap();
    assert_eq!(head.framing, BodyFraming::ToClose);
    let mut reader = BodyReader::new(head.framing);
    let got = feed_in_reads(&mut reader, b"until the end", 4).unwrap();
    assert_eq!(got, b"until the end".to_vec());
    assert!(reader.is_done());
    assert_eq!(reader.wants(10), 0);
}

#[test]
fn head_exactly_fills_buffer() {
    let head = b"HTTP/1.1 204 No Content\r\nA: b\r\n\r\n";
    let mut rx = vec![0u8; head.len()];
    rx.copy_from_slice(head);
    assert_eq!(head_progress(&rx, rx.len()), HeadProgress::Complete(head.len()));
}

#[test]
fn head_one_byte_beyond_buffer() {
    let head = b"HTTP/1.1 204 No Content\r\nA: b\r\n\r\n";
    let cap = head.len() - 1;
    let rx = head[..cap].to_vec();
    assert_eq!(head_progress(&rx, cap), HeadProgress::BufferTooSmall);
    assert_eq!(head_progress(&rx, cap - 1), HeadProgress::NeedMore);
}

#[test]
fn malformed_status_lines() {
    assert_eq!(parse_head(b"HTTP/1.1 20 OK\r\n\r\n", Method::GET).unwrap_err(), Error::MalformedStatus);
    assert_eq!(parse_head(b"HTTX/1.1 200 OK\r\n\r\n", Method::GET).unwrap_err(), Error::MalformedStatus);
    assert_eq!(parse_head(b"HTTP/1.1 2000\r\n\r\n", Method::GET).unwrap_err(), Error::MalformedStatus);
    assert_eq!(parse_head(b"HTTP/1.1 404\r\n\r\n", Method::GET).unwrap().status, 404);
}

#[test]
fn malformed_header_line() {
    assert_eq!(
        parse_head(b"HTTP/1.1 200 OK\r\nNoColonHere\r\n\r\n", Method::GET).unwrap_err(),
        Error::MalformedHeader
    );
}

#[test]
fn header_whitespace_is_trimmed() {
    let head = parse_head(b"HTTP/1.1 200 OK\r\n  Name \t:   some value \r\n\r\n", Method::GET).unwrap();
    assert_eq!(head.headers[0].name, b"Name".to_vec());
    assert_eq!(head.headers[0].value, b"some value".to_vec());
}

#[test]
fn bodiless_statuses() {
    for (status, expect_empty) in [(100u16, true), (204, true), (304, true), (200, false), (404, false)] {
        let text = format!("HTTP/1.1 {} X\r\nContent-Length: 3\r\n\r\n", status);
        let head = parse_head(text.as_bytes(), Method::GET).unwrap();
        let framing = if expect_empty { BodyFraming::Fixed(0) } else { BodyFraming::Fixed(3) };
        assert_eq!(head.framing, framing, "status {}", status);
        assert_eq!(body_framing(Method::GET, status, &head.headers), framing);
    }
}

#[test]
fn chunked_wins_over_content_length() {
    let head = parse_head(
        b"HTTP/1.1 200 OK\r\nContent-Length: 3\r\ntransfer-encoding: gzip, Chunked\r\n\r\n",
        Method::GET,
    )
    .unwrap();
    assert_eq!(head.framing, BodyFraming::Chunked);
}

#[test]
fn unparsable_content_length_reads_to_close() {
    let head = parse_head(b"HTTP/1.1 200 OK\r\nContent-Length: 1x\r\n\r\n", Method::GET).unwrap();
    assert_eq!(head.framing, BodyFraming::ToClose);
    let huge = parse_head(b"HTTP/1.1 200 OK\r\nContent-Length: 99999999999999999999999\r\n\r\n", Method::GET).unwrap();
    assert_eq!(huge.framing, BodyFraming::ToClose);
}

#[test]
fn chunk_size_errors() {
    let mut reader = BodyReader::new(BodyFraming::Chunked);
    assert_eq!(feed_in_reads(&mut reader, b"zz\r\n", 8), Err(Error::ChunkFraming));
    let mut reader2 = BodyReader::new(BodyFraming::Chunked);
    assert_eq!(feed_in_reads(&mut reader2, b"2\r\nabX\r\n", 8), Err(Error::ChunkFraming));
    let mut reader3 = BodyReader::new(BodyFraming::Chunked);
    assert_eq!(feed_in_reads(&mut reader3, b"\r\n", 8), Err(Error::ChunkFraming));
    let mut reader4 = BodyReader::new(BodyFraming::Chunked);
    assert_eq!(feed_in_reads(&mut reader4, b"3\r\nab", 8), Err(Error::UnexpectedEof));
}

#[test]
fn chunked_trailers_are_skipped() {
    let mut reader = BodyReader::new(BodyFraming::Chunked);
    let got = feed_in_reads(&mut reader, b"A\r\n0123456789\r\n0\r\nX-Trailer: 1\r\n\r\nrest", 4).unwrap();
    assert_eq!(got, b"0123456789".to_vec());
    assert!(reader.is_done());
}

#[test]
fn https_without_tls_is_rejected() {
    let mut client = HttpClient::new();
    assert_eq!(
        client.request(Method::GET, "https://example.com/").unwrap_err(),
        Error::InvalidUrl(UrlError::UnsupportedScheme)
    );
}

#[test]
fn https_with_tls_uses_and_advances_seed() {
    let tls = TlsConfig::new(42, vec![0; 16], vec![0; 32], TlsVerify::NoVerify);
    let mut client = HttpClient::new_with_tls(tls);
    let handle = client.request(Method::GET, "https://example.com:8443/x").unwrap();
    assert_eq!(handle.conn, HttpConnection::Tls { handshake_seed: 42 });
    assert_eq!(handle.port, 8443);
    let next = client.tls.as_ref().unwrap().seed;
    assert_ne!(next, 42);
    let again = client.resource("https://example.com/").unwrap();
    assert_eq!(again.conn, HttpConnection::Tls { handshake_seed: next });
    assert_eq!(again.port, 443);
    assert_ne!(client.tls.as_ref().unwrap().seed, next);
}

#[test]
fn http_with_tls_config_is_buffered() {
    let tls = TlsConfig::new(1, vec![0; 16], vec![0; 32], TlsVerify::Psk { identity: b"id".to_vec(), psk: b"k".to_vec() });
    let mut client = HttpClient::new_with_tls(tls);
    let handle = client.request(Method::GET, "http://example.com/").unwrap();
    assert_eq!(handle.conn, HttpConnection::PlainBuffered { tx_capacity: 32 });
    assert_eq!(client.tls.as_ref().unwrap().seed, 1);
}

#[test]
fn into_buffered_only_changes_plain() {
    assert_eq!(HttpConnection::Plain.into_buffered(8), HttpConnection::PlainBuffered { tx_capacity: 8 });
    assert_eq!(
        HttpConnection::PlainBuffered { tx_capacity: 4 }.into_buffered(8),
        HttpConnection::PlainBuffered { tx_capacity: 4 }
    );
    assert_eq!(HttpConnection::Tls { handshake_seed: 3 }.into_buffered(8), HttpConnection::Tls { handshake_seed: 3 });
    let mut client = HttpClient::new();
    let handle = client.request(Method::GET, "http://example.com/").unwrap().into_buffered(16);
    assert_eq!(handle.conn, HttpConnection::PlainBuffered { tx_capacity: 16 });
}

#[test]
fn url_errors_and_ports() {
    let mut client = HttpClient::new();
    assert_eq!(client.request(Method::GET, "example.com/").unwrap_err(), Error::InvalidUrl(UrlError::Malformed));
    assert_eq!(client.request(Method::GET, "ftp://example.com/").unwrap_err(), Error::InvalidUrl(UrlError::UnsupportedScheme));
    assert_eq!(client.request(Method::GET, "http://example.com:/").unwrap_err(), Error::InvalidUrl(UrlError::Malformed));
    let handle = client.request(Method::GET, "http://example.com:8080/p?q=1").unwrap();
    assert_eq!(handle.port, 8080);
    assert_eq!(handle.host, b"example.com".to_vec());
    let mut out = Vec::new();
    let mut handle = handle;
    handle.send(&mut out).unwrap();
    assert!(out.starts_with(b"GET /p?q=1 HTTP/1.1\r\nHost: example.com\r\n"));
}

#[test]
fn handle_builder_methods() {
    let mut client = HttpClient::new();
    let mut handle = client
        .request(Method::POST, "http://example.com/")
        .unwrap()
        .path("/other")
        .host("alias.example")
        .headers(&[("A", "1")])
        .content_type(ContentType::TextPlain)
        .body(RequestBody::Fixed(b"hi".to_vec()));
    let mut out = Vec::new();
    handle.send(&mut out).unwrap();
    assert_eq!(
        out,
        b"POST /other HTTP/1.1\r\nHost: alias.example\r\nA: 1\r\nContent-Type: text/plain\r\nContent-Length: 2\r\n\r\nhi".to_vec()
    );
}

#[test]
fn retry_safety_classification() {
    assert!(Error::Dns.is_retry_safe());
    assert!(Error::AlreadySent.is_retry_safe());
    assert!(!Error::MalformedStatus.is_retry_safe());
    assert!(!Error::Network(reqwless::error::IoErrorKind::BrokenPipe).is_retry_safe());
}

#[test]
fn head_step_outcomes() {
    let text = b"HTTP/1.1 301 Moved\r\nLocation: /x\r\n\r\nbody";
    let mut rx = vec![0u8; 64];
    rx[..text.len()].copy_from_slice(text);
    assert!(read_head_step(&rx, 10, Method::GET).unwrap().is_none());
    let head = read_head_step(&rx, text.len(), Method::GET).unwrap().unwrap();
    assert_eq!(head.status, 301);
    assert_eq!(head.head_len, text.len() - 4);
    assert_eq!(head.header(b"LOCATION").unwrap(), &b"/x".to_vec());
    let small = text[..20].to_vec();
    assert_eq!(read_head_step(&small, 20, Method::GET).unwrap_err(), Error::BufferTooSmall);
    let bad = b"HTTP/1.1 abc\r\n\r\n".to_vec();
    assert_eq!(read_head_step(&bad, bad.len(), Method::GET).unwrap_err(), Error::MalformedStatus);
}
