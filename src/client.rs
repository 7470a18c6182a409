//! The client façade: from a URL to a connection plan and a pending request,
//! single-use request handles, and resource scopes that put a base path in
//! front of every request they send.
use rand_core::{RngCore, SeedableRng};
use vstd::prelude::*;
use vstd::string::StringSliceAdditionalSpecFns;
use crate::bytes::copy_range;
use crate::error::{Error, UrlError};
use crate::headers::{headers_view, ContentType, Method};
use crate::request::{
    pairs_view, BodyModel, DefaultRequestBuilder, Request, RequestBody, RequestModel,
};
use crate::url::{parse_url, parsed_url_of, spec_port_or_default, Scheme, UrlParts};

verus! {

/// The first word drawn from a ChaCha8 generator seeded with `seed`.
pub uninterp spec fn chacha8_first_u64_of(seed: u64) -> u64;

/// Relies on rand_chacha's `ChaCha8Rng::seed_from_u64` followed by one
/// `RngCore::next_u64`: the word depends on the seed alone.
#[verifier::external_body]
fn chacha8_first_u64(seed: u64) -> (r: u64)
    ensures
        r == chacha8_first_u64_of(seed),
{
    rand_chacha::ChaCha8Rng::seed_from_u64(seed).next_u64()
}

/// How the TLS peer is verified.
#[derive(Debug)]
pub enum TlsVerify {
    /// No verification of the remote host.
    NoVerify,
    /// A pre-shared key and its identity.
    Psk { identity: Vec<u8>, psk: Vec<u8> },
}

/// The TLS settings of a client: the seed of the handshake's generator,
/// the record buffers and the verification mode.
#[derive(Debug)]
pub struct TlsConfig {
    pub seed: u64,
    pub read_buffer: Vec<u8>,
    pub write_buffer: Vec<u8>,
    pub verify: TlsVerify,
}

impl TlsConfig {
    pub fn new(seed: u64, read_buffer: Vec<u8>, write_buffer: Vec<u8>, verify: TlsVerify) -> (r: Self)
        ensures
            r.seed == seed,
            r.read_buffer@ == read_buffer@,
            r.write_buffer@ == write_buffer@,
            r.verify == verify,
    {
        TlsConfig { seed, read_buffer, write_buffer, verify }
    }

    /// Hands out the seed for a handshake and replaces it with the first word
    /// of the stream it seeds, so that no two handshakes share a stream.
    pub fn take_seed(&mut self) -> (r: u64)
        ensures
            r == old(self).seed,
            final(self).seed == chacha8_first_u64_of(old(self).seed),
            final(self).read_buffer == old(self).read_buffer,
            final(self).write_buffer == old(self).write_buffer,
            final(self).verify == old(self).verify,
    {
        let s = self.seed;
        self.seed = chacha8_first_u64(s);
        s
    }
}

/// The form of a connection's transport.
#[derive(Clone, Copy, Debug, PartialEq, Eq, Structural)]
pub enum HttpConnection {
    /// Bytes go straight to the transport.
    Plain,
    /// Writes are gathered in a transmit buffer of this many bytes.
    PlainBuffered { tx_capacity: usize },
    /// The transport runs in a TLS session whose handshake draws from the
    /// generator seeded with `handshake_seed`.
    Tls { handshake_seed: u64 },
}

impl HttpConnection {
    pub open spec fn spec_into_buffered(self, tx_capacity: usize) -> HttpConnection {
        match self {
            HttpConnection::Plain => HttpConnection::PlainBuffered { tx_capacity },
            _ => self,
        }
    }

    /// Puts a plain connection behind a transmit buffer of `tx_capacity`
    /// bytes; a buffered or TLS connection already buffers and stays as it is.
    pub fn into_buffered(self, tx_capacity: usize) -> (r: HttpConnection)
        ensures
            r == self.spec_into_buffered(tx_capacity),
    {
        match self {
            HttpConnection::Plain => HttpConnection::PlainBuffered { tx_capacity },
            _ => self,
        }
    }

    /// Writes `request` as it stands, without any base path of a resource.
    pub fn send(&mut self, request: &Request, out: &mut Vec<u8>)
        ensures
            *final(self) == *old(self),
            final(out)@ == old(out)@ + request.spec_wire(),
    {
        request.write(out);
    }
}

/// The connection form chosen for a URL with `scheme`, given the client's
/// TLS settings (the seed is the one the handshake will use).
pub open spec fn spec_connection(tls: Option<TlsConfig>, scheme: Scheme) -> Result<HttpConnection, Error> {
    match scheme {
        Scheme::Https => match tls {
            Some(t) => Ok(HttpConnection::Tls { handshake_seed: t.seed }),
            None => Err(Error::InvalidUrl(UrlError::UnsupportedScheme)),
        },
        Scheme::Http => match tls {
            Some(t) => Ok(HttpConnection::PlainBuffered { tx_capacity: t.write_buffer@.len() as usize }),
            None => Ok(HttpConnection::Plain),
        },
        _ => Err(Error::InvalidUrl(UrlError::UnsupportedScheme)),
    }
}

/// The client's seed after a connection of form `c`: advanced by a handshake.
pub open spec fn seed_after(seed: u64, c: HttpConnection) -> u64 {
    match c {
        HttpConnection::Tls { .. } => chacha8_first_u64_of(seed),
        _ => seed,
    }
}

/// The request a handle starts with: `method` for `path` on `host`.
pub open spec fn initial_request(method: Method, path: Seq<u8>, host: Seq<u8>) -> RequestModel {
    RequestModel {
        method,
        path,
        base_path: None,
        host: Some(host),
        headers: Seq::empty(),
        content_type: None,
        basic_auth: None,
        body: BodyModel::Empty,
    }
}

/// An HTTP client: it turns URLs into connection plans and requests.
/// Name resolution and the transport itself are left to the caller.
#[derive(Debug)]
pub struct HttpClient {
    pub tls: Option<TlsConfig>,
}

impl HttpClient {
    /// A client without TLS.
    pub fn new() -> (r: Self)
        ensures
            r.tls is None,
    {
        HttpClient { tls: None }
    }

    /// A client with TLS settings.
    pub fn new_with_tls(tls: TlsConfig) -> (r: Self)
        ensures
            r.tls == Some(tls),
    {
        HttpClient { tls: Some(tls) }
    }

    /// Chooses the connection form for `url`, drawing a handshake seed when
    /// the URL needs TLS.
    fn connect(&mut self, url: &UrlParts) -> (r: Result<HttpConnection, Error>)
        ensures
            r == spec_connection(old(self).tls, url.scheme),
            match old(self).tls {
                Some(t) => final(self).tls is Some && final(self).tls.unwrap().seed == match r {
                    Ok(c) => seed_after(t.seed, c),
                    Err(_) => t.seed,
                } && final(self).tls.unwrap().write_buffer == t.write_buffer,
                None => final(self).tls is None,
            },
    {
        match url.scheme {
            Scheme::Https => match &mut self.tls {
                Some(t) => {
                    let s = t.take_seed();
                    Ok(HttpConnection::Tls { handshake_seed: s })
                },
                None => Err(Error::InvalidUrl(UrlError::UnsupportedScheme)),
            },
            Scheme::Http => match &self.tls {
                Some(t) => Ok(HttpConnection::PlainBuffered { tx_capacity: t.write_buffer.len() }),
                None => Ok(HttpConnection::Plain),
            },
            _ => Err(Error::InvalidUrl(UrlError::UnsupportedScheme)),
        }
    }

    /// Parses `url`, chooses its connection, and returns a handle holding
    /// one pending request with `method` for the URL's path and host.
    pub fn request(&mut self, method: Method, url: &str) -> (r: Result<HttpRequestHandle, Error>)
        ensures
            match parsed_url_of(url@) {
                Err(e) => r == Err::<HttpRequestHandle, Error>(Error::InvalidUrl(e)),
                Ok(m) => match spec_connection(old(self).tls, m.scheme) {
                    Err(e) => r == Err::<HttpRequestHandle, Error>(e),
                    Ok(c) => r is Ok && r.unwrap().conn == c && r.unwrap().host@ == m.host
                        && r.unwrap().port == spec_port_or_default(m) && r.unwrap().request is Some
                        && r.unwrap().request.unwrap().request.model() == initial_request(method, m.path, m.host),
                },
            },
    {
        let parts = match parse_url(url) {
            Ok(p) => p,
            Err(e) => return Err(Error::InvalidUrl(e)),
        };
        let conn = match self.connect(&parts) {
            Ok(c) => c,
            Err(e) => return Err(e),
        };
        let port = parts.port_or_default();
        let host = copy_range(parts.host.as_slice(), 0, parts.host.len());
        let request = DefaultRequestBuilder {
            request: Request {
                method,
                path: parts.path,
                base_path: None,
                host: Some(parts.host),
                headers: Vec::new(),
                content_type: None,
                basic_auth: None,
                body: RequestBody::Empty,
            },
        };
        assert(headers_view(request.request.headers@) =~= Seq::empty());
        assert(parts.host@.subrange(0, parts.host@.len() as int) =~= parts.host@);
        Ok(HttpRequestHandle { conn, host, port, request: Some(request) })
    }

    /// Parses `resource_url` and chooses its connection; the URL's path
    /// becomes the base path of every request sent through the resource.
    pub fn resource(&mut self, resource_url: &str) -> (r: Result<HttpResource, Error>)
        ensures
            match parsed_url_of(resource_url@) {
                Err(e) => r == Err::<HttpResource, Error>(Error::InvalidUrl(e)),
                Ok(m) => match spec_connection(old(self).tls, m.scheme) {
                    Err(e) => r == Err::<HttpResource, Error>(e),
                    Ok(c) => r is Ok && r.unwrap().conn == c && r.unwrap().host@ == m.host
                        && r.unwrap().port == spec_port_or_default(m) && r.unwrap().base_path@ == m.path,
                },
            },
    {
        let parts = match parse_url(resource_url) {
            Ok(p) => p,
            Err(e) => return Err(Error::InvalidUrl(e)),
        };
        let conn = match self.connect(&parts) {
            Ok(c) => c,
            Err(e) => return Err(e),
        };
        let port = parts.port_or_default();
        Ok(HttpResource { conn, host: parts.host, port, base_path: parts.path })
    }
}

/// A connection with one pending request, which can be sent once.
#[derive(Debug)]
pub struct HttpRequestHandle {
    pub conn: HttpConnection,
    /// The host and port to connect to.
    pub host: Vec<u8>,
    pub port: u16,
    /// The request still to be sent; `None` once it was.
    pub request: Option<DefaultRequestBuilder>,
}

impl HttpRequestHandle {
    /// Whether `self` talks to the same endpoint over the same connection as `other`.
    pub open spec fn same_target(&self, other: &Self) -> bool {
        self.conn == other.conn && self.host@ == other.host@ && self.port == other.port
    }

    /// Puts a plain connection behind a transmit buffer of `tx_capacity` bytes.
    pub fn into_buffered(self, tx_capacity: usize) -> (r: Self)
        ensures
            r.conn == self.conn.spec_into_buffered(tx_capacity),
            r.host == self.host,
            r.port == self.port,
            r.request == self.request,
    {
        let HttpRequestHandle { conn, host, port, request } = self;
        HttpRequestHandle { conn: conn.into_buffered(tx_capacity), host, port, request }
    }

    /// Writes the pending request onto `out` and returns its method, which
    /// the response parser needs; a second call fails and writes nothing.
    pub fn send(&mut self, out: &mut Vec<u8>) -> (r: Result<Method, Error>)
        ensures
            final(self).same_target(old(self)),
            final(self).request is None,
            match old(self).request {
                None => r == Err::<Method, Error>(Error::AlreadySent) && final(out)@ == old(out)@,
                Some(b) => r == Ok::<Method, Error>(b.request.method) && final(out)@ == old(out)@
                    + b.request.spec_wire(),
            },
    {
        match self.request.take() {
            None => Err(Error::AlreadySent),
            Some(b) => {
                let request = b.build();
                request.write(out);
                Ok(request.method)
            },
        }
    }

    /// Replaces the extra headers.
    pub fn headers(self, headers: &[(&str, &str)]) -> (r: Self)
        requires
            self.request is Some,
        ensures
            r.same_target(&self),
            r.request is Some,
            r.request.unwrap().request.model() == (RequestModel { headers: pairs_view(headers@), ..self.request.unwrap().request.model() }),
    {
        let HttpRequestHandle { conn, host: endpoint, port, request } = self;
        let b = request.unwrap();
        HttpRequestHandle { conn, host: endpoint, port, request: Some(b.headers(headers)) }
    }

    /// Replaces the path.
    pub fn path(self, path: &str) -> (r: Self)
        requires
            self.request is Some,
        ensures
            r.same_target(&self),
            r.request is Some,
            r.request.unwrap().request.model() == (RequestModel { path: path.spec_bytes(), ..self.request.unwrap().request.model() }),
    {
        let HttpRequestHandle { conn, host: endpoint, port, request } = self;
        let b = request.unwrap();
        HttpRequestHandle { conn, host: endpoint, port, request: Some(b.path(path)) }
    }

    /// Replaces the body.
    pub fn body(self, body: RequestBody) -> (r: Self)
        requires
            self.request is Some,
        ensures
            r.same_target(&self),
            r.request is Some,
            r.request.unwrap().request.model() == (RequestModel { body: body.model(), ..self.request.unwrap().request.model() }),
    {
        let HttpRequestHandle { conn, host: endpoint, port, request } = self;
        let b = request.unwrap();
        HttpRequestHandle { conn, host: endpoint, port, request: Some(b.body(body)) }
    }

    /// Sets the host announced in the `Host` header.
    pub fn host(self, host: &str) -> (r: Self)
        requires
            self.request is Some,
        ensures
            r.same_target(&self),
            r.request is Some,
            r.request.unwrap().request.model() == (RequestModel { host: Some(host.spec_bytes()), ..self.request.unwrap().request.model() }),
    {
        let HttpRequestHandle { conn, host: endpoint, port, request } = self;
        let b = request.unwrap();
        HttpRequestHandle { conn, host: endpoint, port, request: Some(b.host(host)) }
    }

    /// Sets the `Content-Type` header.
    pub fn content_type(self, content_type: ContentType) -> (r: Self)
        requires
            self.request is Some,
        ensures
            r.same_target(&self),
            r.request is Some,
            r.request.unwrap().request.model() == (RequestModel { content_type: Some(content_type), ..self.request.unwrap().request.model() }),
    {
        let HttpRequestHandle { conn, host: endpoint, port, request } = self;
        let b = request.unwrap();
        HttpRequestHandle { conn, host: endpoint, port, request: Some(b.content_type(content_type)) }
    }

    /// Sets the credentials for basic authentication.
    pub fn basic_auth(self, username: &str, password: &str) -> (r: Self)
        requires
            self.request is Some,
        ensures
            r.same_target(&self),
            r.request is Some,
            r.request.unwrap().request.model() == (RequestModel {
                basic_auth: Some((username.spec_bytes(), password.spec_bytes())),
                ..self.request.unwrap().request.model()
            }),
    {
        let HttpRequestHandle { conn, host: endpoint, port, request } = self;
        let b = request.unwrap();
        HttpRequestHandle { conn, host: endpoint, port, request: Some(b.basic_auth(username, password)) }
    }

    /// The pending request.
    pub fn build(self) -> (r: Request)
        requires
            self.request is Some,
        ensures
            r == self.request.unwrap().request,
    {
        self.request.unwrap().build()
    }
}

/// A connection scoped to a base path, through which requests are sent one
/// after another.
#[derive(Debug)]
pub struct HttpResource {
    pub conn: HttpConnection,
    pub host: Vec<u8>,
    pub port: u16,
    pub base_path: Vec<u8>,
}

impl HttpResource {
    /// Puts a plain connection behind a transmit buffer of `tx_capacity` bytes.
    pub fn into_buffered(self, tx_capacity: usize) -> (r: Self)
        ensures
            r.conn == self.conn.spec_into_buffered(tx_capacity),
            r.host == self.host,
            r.port == self.port,
            r.base_path == self.base_path,
    {
        let HttpResource { conn, host, port, base_path } = self;
        HttpResource { conn: conn.into_buffered(tx_capacity), host, port, base_path }
    }

    /// Starts a request with `method` for `path` below the base path.
    pub fn request(&mut self, method: Method, path: &str) -> (r: HttpResourceRequestBuilder)
        ensures
            *final(self) == *old(self),
            r.base_path@ == old(self).base_path@,
            r.request.request.model() == initial_request(method, path.spec_bytes(), old(self).host@),
    {
        let host = copy_range(self.host.as_slice(), 0, self.host.len());
        let base_path = copy_range(self.base_path.as_slice(), 0, self.base_path.len());
        let b = Request::new(method, path);
        let request = DefaultRequestBuilder { request: Request { host: Some(host), ..b.request } };
        assert(self.host@.subrange(0, self.host@.len() as int) =~= self.host@);
        assert(self.base_path@.subrange(0, self.base_path@.len() as int) =~= self.base_path@);
        HttpResourceRequestBuilder { base_path, request }
    }

    /// Starts a `GET` request for `path` below the base path.
    pub fn get(&mut self, path: &str) -> (r: HttpResourceRequestBuilder)
        ensures
            *final(self) == *old(self),
            r.base_path@ == old(self).base_path@,
            r.request.request.model() == initial_request(Method::GET, path.spec_bytes(), old(self).host@),
    {
        self.request(Method::GET, path)
    }

    /// Starts a `POST` request for `path` below the base path.
    pub fn post(&mut self, path: &str) -> (r: HttpResourceRequestBuilder)
        ensures
            *final(self) == *old(self),
            r.base_path@ == old(self).base_path@,
            r.request.request.model() == initial_request(Method::POST, path.spec_bytes(), old(self).host@),
    {
        self.request(Method::POST, path)
    }

    /// Starts a `PUT` request for `path` below the base path.
    pub fn put(&mut self, path: &str) -> (r: HttpResourceRequestBuilder)
        ensures
            *final(self) == *old(self),
            r.base_path@ == old(self).base_path@,
            r.request.request.model() == initial_request(Method::PUT, path.spec_bytes(), old(self).host@),
    {
        self.request(Method::PUT, path)
    }

    /// Starts a `DELETE` request for `path` below the base path.
    pub fn delete(&mut self, path: &str) -> (r: HttpResourceRequestBuilder)
        ensures
            *final(self) == *old(self),
            r.base_path@ == old(self).base_path@,
            r.request.request.model() == initial_request(Method::DELETE, path.spec_bytes(), old(self).host@),
    {
        self.request(Method::DELETE, path)
    }

    /// Starts a `HEAD` request for `path` below the base path.
    pub fn head(&mut self, path: &str) -> (r: HttpResourceRequestBuilder)
        ensures
            *final(self) == *old(self),
            r.base_path@ == old(self).base_path@,
            r.request.request.model() == initial_request(Method::HEAD, path.spec_bytes(), old(self).host@),
    {
        self.request(Method::HEAD, path)
    }

    /// Writes `request` onto `out` below the base path and returns its method.
    pub fn send(&mut self, request: Request, out: &mut Vec<u8>) -> (r: Method)
        ensures
            *final(self) == *old(self),
            r == request.method,
            final(out)@ == old(out)@ + (Request { base_path: Some(old(self).base_path), ..request }).spec_wire(),
    {
        let mut request = request;
        request.base_path = Some(copy_range(self.base_path.as_slice(), 0, self.base_path.len()));
        assert(self.base_path@.subrange(0, self.base_path@.len() as int) =~= self.base_path@);
        request.write(out);
        request.method
    }
}

/// A request being assembled for a resource; sending it puts the resource's
/// base path in front of its path.
#[derive(Debug)]
pub struct HttpResourceRequestBuilder {
    pub base_path: Vec<u8>,
    pub request: DefaultRequestBuilder,
}

impl HttpResourceRequestBuilder {
    /// Writes the request onto `out` below the base path and returns its method.
    pub fn send(self, out: &mut Vec<u8>) -> (r: Method)
        ensures
            r == self.request.request.method,
            final(out)@ == old(out)@ + (Request {
                base_path: Some(self.base_path),
                ..self.request.request
            }).spec_wire(),
    {
        let HttpResourceRequestBuilder { base_path, request } = self;
        let mut request = request.build();
        request.base_path = Some(base_path);
        request.write(out);
        request.method
    }

    /// Replaces the extra headers.
    pub fn headers(self, headers: &[(&str, &str)]) -> (r: Self)
        ensures
            r.base_path == self.base_path,
            r.request.request.model() == (RequestModel { headers: pairs_view(headers@), ..self.request.request.model() }),
    {
        let HttpResourceRequestBuilder { base_path, request } = self;
        HttpResourceRequestBuilder { base_path, request: request.headers(headers) }
    }

    /// Replaces the path.
    pub fn path(self, path: &str) -> (r: Self)
        ensures
            r.base_path == self.base_path,
            r.request.request.model() == (RequestModel { path: path.spec_bytes(), ..self.request.request.model() }),
    {
        let HttpResourceRequestBuilder { base_path, request } = self;
        HttpResourceRequestBuilder { base_path, request: request.path(path) }
    }

    /// Replaces the body.
    pub fn body(self, body: RequestBody) -> (r: Self)
        ensures
            r.base_path == self.base_path,
            r.request.request.model() == (RequestModel { body: body.model(), ..self.request.request.model() }),
    {
        let HttpResourceRequestBuilder { base_path, request } = self;
        HttpResourceRequestBuilder { base_path, request: request.body(body) }
    }

    /// Sets the host announced in the `Host` header.
    pub fn host(self, host: &str) -> (r: Self)
        ensures
            r.base_path == self.base_path,
            r.request.request.model() == (RequestModel { host: Some(host.spec_bytes()), ..self.request.request.model() }),
    {
        let HttpResourceRequestBuilder { base_path, request } = self;
        HttpResourceRequestBuilder { base_path, request: request.host(host) }
    }

    /// Sets the `Content-Type` header.
    pub fn content_type(self, content_type: ContentType) -> (r: Self)
        ensures
            r.base_path == self.base_path,
            r.request.request.model() == (RequestModel { content_type: Some(content_type), ..self.request.request.model() }),
    {
        let HttpResourceRequestBuilder { base_path, request } = self;
        HttpResourceRequestBuilder { base_path, request: request.content_type(content_type) }
    }

    /// Sets the credentials for basic authentication.
    pub fn basic_auth(self, username: &str, password: &str) -> (r: Self)
        ensures
            r.base_path == self.base_path,
            r.request.request.model() == (RequestModel {
                basic_auth: Some((username.spec_bytes(), password.spec_bytes())),
                ..self.request.request.model()
            }),
    {
        let HttpResourceRequestBuilder { base_path, request } = self;
        HttpResourceRequestBuilder { base_path, request: request.basic_auth(username, password) }
    }

    /// The request without the base path.
    pub fn build(self) -> (r: Request)
        ensures
            r == self.request.request,
    {
        self.request.build()
    }
}

} // verus!
