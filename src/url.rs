//! URLs as the client uses them: scheme, host, port and path, as read by the
//! `nourl` parser.
use vstd::prelude::*;
use crate::error::UrlError;

verus! {

/// A URL scheme that the parser knows.
#[derive(Clone, Copy, Debug, PartialEq, Eq, Structural)]
pub enum Scheme {
    Http,
    Https,
    Mqtt,
    Mqtts,
}

/// The parts of a parsed URL.
#[derive(Debug)]
pub struct UrlParts {
    pub scheme: Scheme,
    pub host: Vec<u8>,
    pub port: Option<u16>,
    pub path: Vec<u8>,
}

/// The parts of a parsed URL, as plain values.
pub struct UrlModel {
    pub scheme: Scheme,
    pub host: Seq<u8>,
    pub port: Option<u16>,
    pub path: Seq<u8>,
}

impl UrlParts {
    pub open spec fn model(&self) -> UrlModel {
        UrlModel { scheme: self.scheme, host: self.host@, port: self.port, path: self.path@ }
    }
}

/// What `nourl::Url::parse` makes of a URL.
pub uninterp spec fn parsed_url_of(url: Seq<char>) -> Result<UrlModel, UrlError>;

/// Relies on `nourl::Url::parse` and its getters `scheme`, `host`, `port`
/// and `path`: the parts, or the parser's error, depend on the URL alone.
/// The parser's errors other than an unknown scheme all become `Malformed`.
#[verifier::external_body]
pub(crate) fn parse_url(url: &str) -> (r: Result<UrlParts, UrlError>)
    ensures
        match (r, parsed_url_of(url@)) {
            (Ok(p), Ok(m)) => p.model() == m,
            (Err(e1), Err(e2)) => e1 == e2,
            _ => false,
        },
{
    let u = match nourl::Url::parse(url) {
        Ok(u) => u,
        Err(nourl::Error::UnsupportedScheme) => return Err(UrlError::UnsupportedScheme),
        Err(_) => return Err(UrlError::Malformed),
    };
    let scheme = match u.scheme() {
        nourl::UrlScheme::HTTP => Scheme::Http,
        nourl::UrlScheme::HTTPS => Scheme::Https,
        nourl::UrlScheme::MQTT => Scheme::Mqtt,
        nourl::UrlScheme::MQTTS => Scheme::Mqtts,
    };
    let (host, path) = (u.host().as_bytes().to_vec(), u.path().as_bytes().to_vec());
    Ok(UrlParts { scheme, host, port: u.port(), path })
}

pub open spec fn spec_default_port(scheme: Scheme) -> u16 {
    match scheme {
        Scheme::Http => 80,
        Scheme::Https => 443,
        Scheme::Mqtt => 1883,
        Scheme::Mqtts => 8883,
    }
}

/// The port a URL names, or its scheme's default.
pub open spec fn spec_port_or_default(m: UrlModel) -> u16 {
    match m.port {
        Some(p) => p,
        None => spec_default_port(m.scheme),
    }
}

impl UrlParts {
    pub fn port_or_default(&self) -> (r: u16)
        ensures
            r == spec_port_or_default(self.model()),
    {
        match self.port {
            Some(p) => p,
            None => match self.scheme {
                Scheme::Http => 80,
                Scheme::Https => 443,
                Scheme::Mqtt => 1883,
                Scheme::Mqtts => 8883,
            },
        }
    }
}

} // verus!
