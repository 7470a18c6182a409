//! Requests: their parts, the builder that assembles them, and their
//! serialization onto the wire.
use base64::Engine;
use vstd::prelude::*;
use vstd::string::StringSliceAdditionalSpecFns;
use crate::bytes::{copy_range, decimal, hex, push_all, push_decimal, push_hex};
use crate::headers::{headers_view, ContentType, Header, Method};


verus! {

/// The bytes of `Host: `.
pub open spec fn host_prefix() -> Seq<u8> {
    seq![72u8, 111u8, 115u8, 116u8, 58u8, 32u8]
}

fn host_prefix_exec() -> (r: Vec<u8>)
    ensures
        r@ == host_prefix(),
{
    let r = vec![72u8, 111u8, 115u8, 116u8, 58u8, 32u8];
    assert(r@ =~= host_prefix());
    r
}

/// The bytes of `Content-Type: `.
pub open spec fn content_type_prefix() -> Seq<u8> {
    seq![67u8, 111u8, 110u8, 116u8, 101u8, 110u8, 116u8, 45u8, 84u8, 121u8, 112u8, 101u8, 58u8, 32u8]
}

fn content_type_prefix_exec() -> (r: Vec<u8>)
    ensures
        r@ == content_type_prefix(),
{
    let r = vec![67u8, 111u8, 110u8, 116u8, 101u8, 110u8, 116u8, 45u8, 84u8, 121u8, 112u8, 101u8, 58u8, 32u8];
    assert(r@ =~= content_type_prefix());
    r
}

/// The bytes of `Authorization: Basic `.
pub open spec fn authorization_prefix() -> Seq<u8> {
    seq![65u8, 117u8, 116u8, 104u8, 111u8, 114u8, 105u8, 122u8, 97u8, 116u8, 105u8, 111u8, 110u8, 58u8, 32u8, 66u8, 97u8, 115u8, 105u8, 99u8, 32u8]
}

fn authorization_prefix_exec() -> (r: Vec<u8>)
    ensures
        r@ == authorization_prefix(),
{
    let r = vec![65u8, 117u8, 116u8, 104u8, 111u8, 114u8, 105u8, 122u8, 97u8, 116u8, 105u8, 111u8, 110u8, 58u8, 32u8, 66u8, 97u8, 115u8, 105u8, 99u8, 32u8];
    assert(r@ =~= authorization_prefix());
    r
}

/// The bytes of `Content-Length: `.
pub open spec fn content_length_prefix() -> Seq<u8> {
    seq![67u8, 111u8, 110u8, 116u8, 101u8, 110u8, 116u8, 45u8, 76u8, 101u8, 110u8, 103u8, 116u8, 104u8, 58u8, 32u8]
}

fn content_length_prefix_exec() -> (r: Vec<u8>)
    ensures
        r@ == content_length_prefix(),
{
    let r = vec![67u8, 111u8, 110u8, 116u8, 101u8, 110u8, 116u8, 45u8, 76u8, 101u8, 110u8, 103u8, 116u8, 104u8, 58u8, 32u8];
    assert(r@ =~= content_length_prefix());
    r
}

/// The bytes of the `Transfer-Encoding: chunked` header line.
pub open spec fn chunked_header() -> Seq<u8> {
    seq![84u8, 114u8, 97u8, 110u8, 115u8, 102u8, 101u8, 114u8, 45u8, 69u8, 110u8, 99u8, 111u8, 100u8, 105u8, 110u8, 103u8, 58u8, 32u8, 99u8, 104u8, 117u8, 110u8, 107u8, 101u8, 100u8, 13u8, 10u8]
}

fn chunked_header_exec() -> (r: Vec<u8>)
    ensures
        r@ == chunked_header(),
{
    let r = vec![84u8, 114u8, 97u8, 110u8, 115u8, 102u8, 101u8, 114u8, 45u8, 69u8, 110u8, 99u8, 111u8, 100u8, 105u8, 110u8, 103u8, 58u8, 32u8, 99u8, 104u8, 117u8, 110u8, 107u8, 101u8, 100u8, 13u8, 10u8];
    assert(r@ =~= chunked_header());
    r
}

/// The bytes of the protocol version that ends a request line, with its line end.
pub open spec fn version_suffix() -> Seq<u8> {
    seq![32u8, 72u8, 84u8, 84u8, 80u8, 47u8, 49u8, 46u8, 49u8, 13u8, 10u8]
}

fn version_suffix_exec() -> (r: Vec<u8>)
    ensures
        r@ == version_suffix(),
{
    let r = vec![32u8, 72u8, 84u8, 84u8, 80u8, 47u8, 49u8, 46u8, 49u8, 13u8, 10u8];
    assert(r@ =~= version_suffix());
    r
}

/// The bytes of the zero-size chunk and the blank line that end a chunked body.
pub open spec fn last_chunk() -> Seq<u8> {
    seq![48u8, 13u8, 10u8, 13u8, 10u8]
}

fn last_chunk_exec() -> (r: Vec<u8>)
    ensures
        r@ == last_chunk(),
{
    let r = vec![48u8, 13u8, 10u8, 13u8, 10u8];
    assert(r@ =~= last_chunk());
    r
}

/// The bytes of a line end.
pub open spec fn crlf() -> Seq<u8> {
    seq![13u8, 10u8]
}

fn crlf_exec() -> (r: Vec<u8>)
    ensures
        r@ == crlf(),
{
    let r = vec![13u8, 10u8];
    assert(r@ =~= crlf());
    r
}

/// What base64's standard engine (with padding) makes of these bytes.
pub uninterp spec fn base64_of(s: Seq<u8>) -> Seq<u8>;

/// Relies on base64's `Engine::encode` on the standard engine: it encodes
/// the given bytes, and its result depends on them alone.
#[verifier::external_body]
fn base64_encode(input: &[u8]) -> (r: Vec<u8>)
    ensures
        r@ == base64_of(input@),
{
    base64::engine::general_purpose::STANDARD.encode(input).into_bytes()
}

/// The payload of a request.
#[derive(Debug)]
pub enum RequestBody {
    /// No body: neither `Content-Length` nor `Transfer-Encoding` is sent.
    Empty,
    /// A body of known length, sent with `Content-Length`.
    Fixed(Vec<u8>),
    /// A body sent in chunks with `Transfer-Encoding: chunked`; empty
    /// fragments are skipped, since a zero-size chunk ends the body.
    Chunked(Vec<Vec<u8>>),
}

pub open spec fn chunks_view(cs: Seq<Vec<u8>>) -> Seq<Seq<u8>> {
    cs.map_values(|c: Vec<u8>| c@)
}

/// One fragment in the chunked coding: hexadecimal size, line end, data, line end.
pub open spec fn chunk_piece(c: Seq<u8>) -> Seq<u8> {
    if c.len() == 0 {
        Seq::<u8>::empty()
    } else {
        hex(c.len()) + crlf() + c + crlf()
    }
}

pub open spec fn chunks_encoding(cs: Seq<Seq<u8>>) -> Seq<u8>
    decreases cs.len(),
{
    if cs.len() == 0 {
        Seq::<u8>::empty()
    } else {
        chunks_encoding(cs.drop_last()) + chunk_piece(cs.last())
    }
}

/// The fragments `cs` in the chunked transfer coding, closed by the last chunk.
pub open spec fn chunked_encoding(cs: Seq<Seq<u8>>) -> Seq<u8> {
    chunks_encoding(cs) + last_chunk()
}

/// The fragments `cs` one after another.
pub open spec fn concat_chunks(cs: Seq<Seq<u8>>) -> Seq<u8>
    decreases cs.len(),
{
    if cs.len() == 0 {
        Seq::<u8>::empty()
    } else {
        concat_chunks(cs.drop_last()) + cs.last()
    }
}

/// `base` and `path` joined by exactly one `/`.
pub open spec fn join_path(base: Seq<u8>, path: Seq<u8>) -> Seq<u8> {
    let b = if base.len() > 0 && base.last() == 47u8 {
        base.drop_last()
    } else {
        base
    };
    let p = if path.len() > 0 && path[0] == 47u8 {
        path.drop_first()
    } else {
        path
    };
    b + seq![47u8] + p
}

pub open spec fn opt_view(o: Option<Vec<u8>>) -> Option<Seq<u8>> {
    match o {
        Some(v) => Some(v@),
        None => None,
    }
}

/// The path that goes on the request line: the request's own, behind the
/// base path when there is one.
pub open spec fn effective_path(base: Option<Seq<u8>>, path: Seq<u8>) -> Seq<u8> {
    match base {
        Some(b) => join_path(b, path),
        None => path,
    }
}

pub open spec fn header_line(name: Seq<u8>, value: Seq<u8>) -> Seq<u8> {
    name + seq![58u8, 32u8] + value + crlf()
}

pub open spec fn header_lines(hs: Seq<(Seq<u8>, Seq<u8>)>) -> Seq<u8>
    decreases hs.len(),
{
    if hs.len() == 0 {
        Seq::<u8>::empty()
    } else {
        header_lines(hs.drop_last()) + header_line(hs.last().0, hs.last().1)
    }
}

/// A request ready to be written.
#[derive(Debug)]
pub struct Request {
    pub method: Method,
    pub path: Vec<u8>,
    /// Set by a resource scope: the request line carries it before `path`.
    pub base_path: Option<Vec<u8>>,
    pub host: Option<Vec<u8>>,
    /// Extra headers, sent in this order.
    pub headers: Vec<Header>,
    pub content_type: Option<ContentType>,
    /// User name and password for basic authentication.
    pub basic_auth: Option<(Vec<u8>, Vec<u8>)>,
    pub body: RequestBody,
}

impl Request {
    pub open spec fn spec_request_line(&self) -> Seq<u8> {
        self.method.spec_token() + seq![32u8] + effective_path(opt_view(self.base_path), self.path@)
            + version_suffix()
    }

    pub open spec fn spec_host_line(&self) -> Seq<u8> {
        match self.host {
            Some(h) => host_prefix() + h@ + crlf(),
            None => Seq::<u8>::empty(),
        }
    }

    pub open spec fn spec_content_type_line(&self) -> Seq<u8> {
        match self.content_type {
            Some(ct) => content_type_prefix() + ct.spec_token() + crlf(),
            None => Seq::<u8>::empty(),
        }
    }

    pub open spec fn spec_auth_line(&self) -> Seq<u8> {
        match self.basic_auth {
            Some((u, p)) => authorization_prefix() + base64_of(u@ + seq![58u8] + p@) + crlf(),
            None => Seq::<u8>::empty(),
        }
    }

    pub open spec fn spec_framing_line(&self) -> Seq<u8> {
        match self.body {
            RequestBody::Empty => Seq::<u8>::empty(),
            RequestBody::Fixed(b) => content_length_prefix() + decimal(b@.len()) + crlf(),
            RequestBody::Chunked(_) => chunked_header(),
        }
    }

    /// The request line and the header block, blank line included.
    pub open spec fn spec_head(&self) -> Seq<u8> {
        self.spec_request_line() + self.spec_host_line() + header_lines(
            headers_view(self.headers@),
        ) + self.spec_content_type_line() + self.spec_auth_line() + self.spec_framing_line()
            + crlf()
    }

    /// The body as it goes on the wire.
    pub open spec fn spec_body(&self) -> Seq<u8> {
        match self.body {
            RequestBody::Empty => Seq::<u8>::empty(),
            RequestBody::Fixed(b) => b@,
            RequestBody::Chunked(cs) => chunked_encoding(chunks_view(cs@)),
        }
    }

    pub open spec fn spec_wire(&self) -> Seq<u8> {
        self.spec_head() + self.spec_body()
    }
}

fn push_effective_path(out: &mut Vec<u8>, base: &Option<Vec<u8>>, path: &Vec<u8>)
    ensures
        final(out)@ == old(out)@ + effective_path(opt_view(*base), path@),
{
    match base {
        None => push_all(out, path.as_slice()),
        Some(b) => {
            let bl = b.len();
            let bend: usize = if bl > 0 && b[bl - 1] == 47u8 {
                bl - 1
            } else {
                bl
            };
            let pl = path.len();
            let pstart: usize = if pl > 0 && path[0] == 47u8 {
                1
            } else {
                0
            };
            let bs = copy_range(b.as_slice(), 0, bend);
            let ps = copy_range(path.as_slice(), pstart, pl);
            let ghost o0 = out@;
            push_all(out, bs.as_slice());
            out.push(47u8);
            push_all(out, ps.as_slice());
            proof {
                if bl > 0 && b@.last() == 47u8 {
                    assert(bs@ =~= b@.drop_last());
                } else {
                    assert(bs@ =~= b@);
                }
                if pl > 0 && path@[0] == 47u8 {
                    assert(ps@ =~= path@.drop_first());
                } else {
                    assert(ps@ =~= path@);
                }
                assert(out@ =~= o0 + join_path(b@, path@));
            }
        },
    }
}

fn push_header_lines(out: &mut Vec<u8>, headers: &Vec<Header>)
    ensures
        final(out)@ == old(out)@ + header_lines(headers_view(headers@)),
{
    let ghost hv = headers_view(headers@);
    let mut i: usize = 0;
    while i < headers.len()
        invariant
            i <= headers@.len(),
            hv == headers_view(headers@),
            out@ == old(out)@ + header_lines(hv.subrange(0, i as int)),
        decreases headers@.len() - i,
    {
        let ghost o0 = out@;
        push_all(out, headers[i].name.as_slice());
        out.push(58u8);
        out.push(32u8);
        push_all(out, headers[i].value.as_slice());
        out.push(13u8);
        out.push(10u8);
        proof {
            assert(hv.subrange(0, i + 1).drop_last() =~= hv.subrange(0, i as int));
            assert(hv.subrange(0, i + 1).last() == headers@[i as int]@);
            assert(out@ =~= o0 + header_line(headers@[i as int].name@, headers@[i as int].value@));
            assert(out@ =~= old(out)@ + header_lines(hv.subrange(0, i + 1)));
        }
        i = i + 1;
    }
    assert(hv.subrange(0, headers@.len() as int) =~= hv);
}

fn push_chunks(out: &mut Vec<u8>, chunks: &Vec<Vec<u8>>)
    ensures
        final(out)@ == old(out)@ + chunked_encoding(chunks_view(chunks@)),
{
    let ghost cv = chunks_view(chunks@);
    let mut i: usize = 0;
    while i < chunks.len()
        invariant
            i <= chunks@.len(),
            cv == chunks_view(chunks@),
            out@ == old(out)@ + chunks_encoding(cv.subrange(0, i as int)),
        decreases chunks@.len() - i,
    {
        let ghost o0 = out@;
        let c = &chunks[i];
        if c.len() > 0 {
            push_hex(out, c.len());
            out.push(13u8);
            out.push(10u8);
            push_all(out, c.as_slice());
            out.push(13u8);
            out.push(10u8);
        }
        proof {
            assert(cv.subrange(0, i + 1).drop_last() =~= cv.subrange(0, i as int));
            assert(cv.subrange(0, i + 1).last() == chunks@[i as int]@);
            assert(out@ =~= o0 + chunk_piece(chunks@[i as int]@));
            assert(out@ =~= old(out)@ + chunks_encoding(cv.subrange(0, i + 1)));
        }
        i = i + 1;
    }
    assert(cv.subrange(0, chunks@.len() as int) =~= cv);
    let ghost o1 = out@;
    let lc = last_chunk_exec();
    push_all(out, lc.as_slice());
    assert(out@ =~= old(out)@ + chunked_encoding(cv));
}

impl Request {
    fn write_request_line(&self, out: &mut Vec<u8>)
        ensures
            final(out)@ == old(out)@ + self.spec_request_line(),
    {
        let m = self.method.token();
        push_all(out, m.as_slice());
        out.push(32u8);
        push_effective_path(out, &self.base_path, &self.path);
        let v = version_suffix_exec();
        push_all(out, v.as_slice());
        assert(final(out)@ =~= old(out)@ + self.spec_request_line());
    }

    fn write_host_line(&self, out: &mut Vec<u8>)
        ensures
            final(out)@ == old(out)@ + self.spec_host_line(),
    {
        match &self.host {
            Some(h) => {
                let k = host_prefix_exec();
                push_all(out, k.as_slice());
                push_all(out, h.as_slice());
                let e = crlf_exec();
                push_all(out, e.as_slice());
            },
            None => {},
        }
        assert(final(out)@ =~= old(out)@ + self.spec_host_line());
    }

    fn write_content_type_line(&self, out: &mut Vec<u8>)
        ensures
            final(out)@ == old(out)@ + self.spec_content_type_line(),
    {
        match &self.content_type {
            Some(ct) => {
                let k = content_type_prefix_exec();
                push_all(out, k.as_slice());
                let t = ct.token();
                push_all(out, t.as_slice());
                let e = crlf_exec();
                push_all(out, e.as_slice());
            },
            None => {},
        }
        assert(final(out)@ =~= old(out)@ + self.spec_content_type_line());
    }

    fn write_auth_line(&self, out: &mut Vec<u8>)
        ensures
            final(out)@ == old(out)@ + self.spec_auth_line(),
    {
        match &self.basic_auth {
            Some((u, p)) => {
                let mut creds: Vec<u8> = Vec::new();
                push_all(&mut creds, u.as_slice());
                creds.push(58u8);
                push_all(&mut creds, p.as_slice());
                assert(creds@ =~= u@ + seq![58u8] + p@);
                let enc = base64_encode(creds.as_slice());
                let k = authorization_prefix_exec();
                push_all(out, k.as_slice());
                push_all(out, enc.as_slice());
                let e = crlf_exec();
                push_all(out, e.as_slice());
            },
            None => {},
        }
        assert(final(out)@ =~= old(out)@ + self.spec_auth_line());
    }

    fn write_framing_line(&self, out: &mut Vec<u8>)
        ensures
            final(out)@ == old(out)@ + self.spec_framing_line(),
    {
        match &self.body {
            RequestBody::Empty => {},
            RequestBody::Fixed(b) => {
                let k = content_length_prefix_exec();
                push_all(out, k.as_slice());
                push_decimal(out, b.len());
                let e = crlf_exec();
                push_all(out, e.as_slice());
            },
            RequestBody::Chunked(_) => {
                let k = chunked_header_exec();
                push_all(out, k.as_slice());
            },
        }
        assert(final(out)@ =~= old(out)@ + self.spec_framing_line());
    }

    /// Writes the request line and the header block, blank line included.
    pub fn write_head(&self, out: &mut Vec<u8>)
        ensures
            final(out)@ == old(out)@ + self.spec_head(),
    {
        let ghost o0 = out@;
        self.write_request_line(out);
        self.write_host_line(out);
        push_header_lines(out, &self.headers);
        self.write_content_type_line(out);
        self.write_auth_line(out);
        self.write_framing_line(out);
        let e = crlf_exec();
        push_all(out, e.as_slice());
        assert(out@ =~= o0 + self.spec_head());
    }

    /// Writes the request onto `out`: request line, headers, blank line and body.
    pub fn write(&self, out: &mut Vec<u8>)
        ensures
            final(out)@ == old(out)@ + self.spec_wire(),
    {
        let ghost o0 = out@;
        self.write_head(out);
        let ghost o1 = out@;
        match &self.body {
            RequestBody::Empty => {},
            RequestBody::Fixed(b) => push_all(out, b.as_slice()),
            RequestBody::Chunked(cs) => push_chunks(out, cs),
        }
        assert(out@ =~= o1 + self.spec_body());
        assert(out@ =~= o0 + self.spec_wire());
    }
}

/// A request body as plain values.
pub enum BodyModel {
    Empty,
    Fixed(Seq<u8>),
    Chunked(Seq<Seq<u8>>),
}

/// A request as plain values.
pub struct RequestModel {
    pub method: Method,
    pub path: Seq<u8>,
    pub base_path: Option<Seq<u8>>,
    pub host: Option<Seq<u8>>,
    pub headers: Seq<(Seq<u8>, Seq<u8>)>,
    pub content_type: Option<ContentType>,
    pub basic_auth: Option<(Seq<u8>, Seq<u8>)>,
    pub body: BodyModel,
}

impl RequestBody {
    pub open spec fn model(&self) -> BodyModel {
        match self {
            RequestBody::Empty => BodyModel::Empty,
            RequestBody::Fixed(b) => BodyModel::Fixed(b@),
            RequestBody::Chunked(cs) => BodyModel::Chunked(chunks_view(cs@)),
        }
    }
}

pub open spec fn auth_view(a: Option<(Vec<u8>, Vec<u8>)>) -> Option<(Seq<u8>, Seq<u8>)> {
    match a {
        Some((u, p)) => Some((u@, p@)),
        None => None,
    }
}

impl Request {
    pub open spec fn model(&self) -> RequestModel {
        RequestModel {
            method: self.method,
            path: self.path@,
            base_path: opt_view(self.base_path),
            host: opt_view(self.host),
            headers: headers_view(self.headers@),
            content_type: self.content_type,
            basic_auth: auth_view(self.basic_auth),
            body: self.body.model(),
        }
    }

    /// Starts a request with `method` for `path`, with no host, headers or body.
    pub fn new(method: Method, path: &str) -> (r: DefaultRequestBuilder)
        ensures
            r.request.model() == (RequestModel {
                method,
                path: path.spec_bytes(),
                base_path: None,
                host: None,
                headers: Seq::empty(),
                content_type: None,
                basic_auth: None,
                body: BodyModel::Empty,
            }),
    {
        let r = DefaultRequestBuilder {
            request: Request {
                method,
                path: bytes_of(path),
                base_path: None,
                host: None,
                headers: Vec::new(),
                content_type: None,
                basic_auth: None,
                body: RequestBody::Empty,
            },
        };
        assert(headers_view(r.request.headers@) =~= Seq::empty());
        r
    }
}

/// The UTF-8 bytes of `s`.
pub fn bytes_of(s: &str) -> (r: Vec<u8>)
    ensures
        r@ == s.spec_bytes(),
{
    let b = s.as_bytes();
    let r = copy_range(b, 0, b.len());
    assert(b@.subrange(0, b@.len() as int) =~= b@);
    r
}

pub open spec fn pairs_view(hs: Seq<(&str, &str)>) -> Seq<(Seq<u8>, Seq<u8>)> {
    hs.map_values(|p: (&str, &str)| (p.0.spec_bytes(), p.1.spec_bytes()))
}

/// Copies header name and value pairs into headers.
pub fn headers_of(hs: &[(&str, &str)]) -> (r: Vec<Header>)
    ensures
        headers_view(r@) == pairs_view(hs@),
{
    let mut r: Vec<Header> = Vec::new();
    let mut i: usize = 0;
    while i < hs.len()
        invariant
            i <= hs@.len(),
            headers_view(r@) == pairs_view(hs@.subrange(0, i as int)),
        decreases hs@.len() - i,
    {
        let n: &str = hs[i].0;
        let v: &str = hs[i].1;
        let h = Header { name: bytes_of(n), value: bytes_of(v) };
        let ghost before = r@;
        r.push(h);
        assert(headers_view(r@) =~= headers_view(before).push(h@));
        assert(pairs_view(hs@.subrange(0, i + 1)) =~= pairs_view(hs@.subrange(0, i as int)).push(
            (n.spec_bytes(), v.spec_bytes()),
        ));
        i = i + 1;
    }
    assert(hs@.subrange(0, hs@.len() as int) =~= hs@);
    r
}

/// Assembles a request step by step.
#[derive(Debug)]
pub struct DefaultRequestBuilder {
    pub request: Request,
}

impl DefaultRequestBuilder {
    /// Replaces the extra headers.
    pub fn headers(self, headers: &[(&str, &str)]) -> (r: Self)
        ensures
            r.request.model() == (RequestModel { headers: pairs_view(headers@), ..self.request.model() }),
    {
        let mut r = self;
        r.request.headers = headers_of(headers);
        r
    }

    /// Replaces the path.
    pub fn path(self, path: &str) -> (r: Self)
        ensures
            r.request.model() == (RequestModel { path: path.spec_bytes(), ..self.request.model() }),
    {
        let mut r = self;
        r.request.path = bytes_of(path);
        r
    }

    /// Replaces the body.
    pub fn body(self, body: RequestBody) -> (r: Self)
        ensures
            r.request.model() == (RequestModel { body: body.model(), ..self.request.model() }),
    {
        let mut r = self;
        r.request.body = body;
        r
    }

    /// Sets the host announced in the `Host` header.
    pub fn host(self, host: &str) -> (r: Self)
        ensures
            r.request.model() == (RequestModel { host: Some(host.spec_bytes()), ..self.request.model() }),
    {
        let mut r = self;
        r.request.host = Some(bytes_of(host));
        r
    }

    /// Sets the `Content-Type` header.
    pub fn content_type(self, content_type: ContentType) -> (r: Self)
        ensures
            r.request.model() == (RequestModel { content_type: Some(content_type), ..self.request.model() }),
    {
        let mut r = self;
        r.request.content_type = Some(content_type);
        r
    }

    /// Sets the credentials for basic authentication.
    pub fn basic_auth(self, username: &str, password: &str) -> (r: Self)
        ensures
            r.request.model() == (RequestModel {
                basic_auth: Some((username.spec_bytes(), password.spec_bytes())),
                ..self.request.model()
            }),
    {
        let mut r = self;
        r.request.basic_auth = Some((bytes_of(username), bytes_of(password)));
        r
    }

    /// The finished request.
    pub fn build(self) -> (r: Request)
        ensures
            r == self.request,
    {
        self.request
    }
}

} // verus!
