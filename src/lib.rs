//! An HTTP/1.1 client protocol engine for constrained targets: request
//! serialization, response head parsing and body framing, verified with Verus.

pub mod body;
pub mod bytes;
pub mod chunked;
pub mod client;
pub mod error;
pub mod headers;
pub mod request;
pub mod response;
pub mod url;
pub mod wire;
