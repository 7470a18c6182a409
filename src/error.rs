use vstd::prelude::*;

verus! {

/// The kind of a failure reported by the byte-stream transport.
#[derive(Clone, Copy, Debug, PartialEq, Eq, Structural)]
pub enum IoErrorKind {
    Other,
    NotFound,
    PermissionDenied,
    ConnectionRefused,
    ConnectionReset,
    ConnectionAborted,
    NotConnected,
    AddrInUse,
    AddrNotAvailable,
    BrokenPipe,
    AlreadyExists,
    InvalidInput,
    InvalidData,
    TimedOut,
    Interrupted,
    Unsupported,
    OutOfMemory,
    WriteZero,
}

/// Why a URL could not be used.
#[derive(Clone, Copy, Debug, PartialEq, Eq, Structural)]
pub enum UrlError {
    /// The scheme is unknown, or needs TLS where the client has none.
    UnsupportedScheme,
    /// The URL has no scheme, or a malformed host, port or scope.
    Malformed,
}

/// Errors returned by the client.
#[derive(Clone, Copy, Debug, PartialEq, Eq, Structural)]
pub enum Error {
    /// The transport failed.
    Network(IoErrorKind),
    /// The host name could not be resolved.
    Dns,
    /// The TLS handshake or a TLS record failed.
    Tls,
    /// The URL could not be parsed or names a scheme that cannot be served.
    InvalidUrl(UrlError),
    /// The status line or the header block does not fit in the receive buffer.
    BufferTooSmall,
    /// The status line is not `HTTP/<version> <3 digits>[ <reason>]`.
    MalformedStatus,
    /// A header line has no `:`.
    MalformedHeader,
    /// A chunk size line or the line end after a chunk is malformed.
    ChunkFraming,
    /// The transport ended inside the response head or a framed body.
    UnexpectedEof,
    /// The request of this handle was already sent.
    AlreadySent,
}

impl Error {
    /// Whether the error surfaced before any byte of the request was written,
    /// so that the whole exchange may be retried on a fresh connection.
    pub open spec fn spec_is_retry_safe(self) -> bool {
        match self {
            Error::Dns | Error::InvalidUrl(_) | Error::AlreadySent => true,
            _ => false,
        }
    }

    pub fn is_retry_safe(&self) -> (r: bool)
        ensures
            r == self.spec_is_retry_safe(),
    {
        match self {
            Error::Dns | Error::InvalidUrl(_) | Error::AlreadySent => true,
            _ => false,
        }
    }
}

} // verus!
