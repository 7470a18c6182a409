use reqwless::body::BodyReader;
use reqwless::client::{HttpClient, HttpConnection, TlsConfig, TlsVerify};
use reqwless::error::{Error, UrlError};
use reqwless::headers::{ContentType, Method};
use reqwless::request::{Request, RequestBody};
use reqwless::response::{head_progress, parse_head, BodyFraming, HeadProgress};

/// Feeds `stream` to `reader` in reads of at most `cap` bytes, as a
/// transport loop would, and returns the body bytes and the unread rest.
fn drain(reader: &mut BodyReader, stream: &[u8], cap: usize) -> Result<(Vec<u8>, usize), Error> {
    let mut out = Vec::new();
    let mut pos = 0;
    loop {
        let want = reader.wants(cap);
        if want == 0 {
            return Ok((out, pos));
        }
        let n = want.min(stream.len() - pos);
        if n == 0 {
            reader.end_of_stream()?;
            return Ok((out, pos));
        }
        reader.feed(&stream[pos..pos + n], &mut out)?;
        pos += n;
    }
}

#[test]
fn simple_get() {
    let req = Request::new(Method::GET, "/").host("example.com").build();
    let mut wire = Vec::new();
    req.write(&mut wire);
    assert_eq!(wire, b"GET / HTTP/1.1\r\nHost: example.com\r\n\r\n".to_vec());

    let resp = b"HTTP/1.1 200 OK\r\nContent-Length: 5\r\n\r\nhello";
    let mut rx = [0u8; 64];
    rx[..resp.len()].copy_from_slice(resp);
    let head_len = match head_progress(&rx, resp.len()) {
        HeadProgress::Complete(n) => n,
        other => panic!("unexpected {:?}", other),
    };
    let head = parse_head(&rx[..head_len], Method::GET).unwrap();
    assert_eq!(head.status, 200);
    assert_eq!(head.framing, BodyFraming::Fixed(5));
    assert_eq!(head.header(b"content-length").unwrap(), &b"5".to_vec());
    let mut reader = BodyReader::new(head.framing);
    let (body, used) = drain(&mut reader, &resp[head_len..], 64).unwrap();
    assert_eq!(body, b"hello".to_vec());
    assert_eq!(used, 5);
    assert!(reader.is_done());
    assert_eq!(reader.wants(64), 0);
}

#[test]
fn chunked_body() {
    let resp = b"HTTP/1.1 200 OK\r\nTransfer-Encoding: chunked\r\n\r\n4\r\nWiki\r\n5\r\npedia\r\n0\r\n\r\nNEXT";
    let head = parse_head(resp, Method::GET).unwrap();
    assert_eq!(head.framing, BodyFraming::Chunked);
    let mut reader = BodyReader::new(head.framing);
    let (body, used) = drain(&mut reader, &resp[head.head_len..], 3).unwrap();
    assert_eq!(body, b"Wikipedia".to_vec());
    assert!(reader.is_done());
    assert_eq!(&resp[head.head_len + used..], b"NEXT");
}

#[test]
fn head_suppresses_body() {
    let resp = b"HTTP/1.1 200 OK\r\nContent-Length: 100\r\n\r\n";
    let head = parse_head(resp, Method::HEAD).unwrap();
    assert_eq!(head.framing, BodyFraming::Fixed(0));
    let reader = BodyReader::new(head.framing);
    assert!(reader.is_done());
    assert_eq!(reader.wants(100), 0);
}

#[test]
fn scoped_resource() {
    let mut client = HttpClient::new();
    let mut resource = client.resource("http://example.com/api").unwrap();
    assert_eq!(resource.conn, HttpConnection::Plain);
    assert_eq!(resource.port, 80);
    let mut out = Vec::new();
    let method = resource.get("/users").send(&mut out);
    assert_eq!(method, Method::GET);
    assert_eq!(out, b"GET /api/users HTTP/1.1\r\nHost: example.com\r\n\r\n".to_vec());

    let mut out2 = Vec::new();
    let req = Request::new(Method::DELETE, "items/7").build();
    resource.send(req, &mut out2);
    assert_eq!(out2, b"DELETE /api/items/7 HTTP/1.1\r\n\r\n".to_vec());
}

#[test]
fn resource_base_path_with_trailing_slash() {
    let mut client = HttpClient::new();
    let mut resource = client.resource("http://example.com/api/").unwrap();
    let mut out = Vec::new();
    resource.post("/users").send(&mut out);
    assert!(out.starts_with(b"POST /api/users HTTP/1.1\r\n"));
    let mut root = client.resource("http://example.com").unwrap();
    let mut out2 = Vec::new();
    root.put("/x").send(&mut out2);
    assert!(out2.starts_with(b"PUT /x HTTP/1.1\r\n"));
}

#[test]
fn reuse_after_send_rejected() {
    let mut client = HttpClient::new();
    let mut handle = client.request(Method::GET, "http://example.com/").unwrap();
    let mut out = Vec::new();
    assert_eq!(handle.send(&mut out), Ok(Method::GET));
    assert_eq!(out, b"GET / HTTP/1.1\r\nHost: example.com\r\n\r\n".to_vec());
    let before = out.clone();
    assert_eq!(handle.send(&mut out), Err(Error::AlreadySent));
    assert_eq!(out, before);
}

