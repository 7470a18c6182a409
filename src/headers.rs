//! Request methods, content types and header fields, with the bytes each
//! puts on the wire.
use vstd::prelude::*;

verus! {

/// An HTTP request method.
#[allow(non_camel_case_types)]
#[derive(Clone, Copy, Debug, PartialEq, Eq, Structural)]
pub enum Method {
    GET,
    POST,
    PUT,
    DELETE,
    HEAD,
    OPTIONS,
    CONNECT,
    TRACE,
    PATCH,
}

impl Method {
    /// The method's token in a request line.
    pub open spec fn spec_token(self) -> Seq<u8> {
        match self {
            Method::GET => seq![71u8, 69u8, 84u8],
            Method::POST => seq![80u8, 79u8, 83u8, 84u8],
            Method::PUT => seq![80u8, 85u8, 84u8],
            Method::DELETE => seq![68u8, 69u8, 76u8, 69u8, 84u8, 69u8],
            Method::HEAD => seq![72u8, 69u8, 65u8, 68u8],
            Method::OPTIONS => seq![79u8, 80u8, 84u8, 73u8, 79u8, 78u8, 83u8],
            Method::CONNECT => seq![67u8, 79u8, 78u8, 78u8, 69u8, 67u8, 84u8],
            Method::TRACE => seq![84u8, 82u8, 65u8, 67u8, 69u8],
            Method::PATCH => seq![80u8, 65u8, 84u8, 67u8, 72u8],
        }
    }

    /// The method's token as bytes.
    pub fn token(&self) -> (r: Vec<u8>)
        ensures
            r@ == self.spec_token(),
    {
        let r = match self {
            Method::GET => vec![71u8, 69u8, 84u8],
            Method::POST => vec![80u8, 79u8, 83u8, 84u8],
            Method::PUT => vec![80u8, 85u8, 84u8],
            Method::DELETE => vec![68u8, 69u8, 76u8, 69u8, 84u8, 69u8],
            Method::HEAD => vec![72u8, 69u8, 65u8, 68u8],
            Method::OPTIONS => vec![79u8, 80u8, 84u8, 73u8, 79u8, 78u8, 83u8],
            Method::CONNECT => vec![67u8, 79u8, 78u8, 78u8, 69u8, 67u8, 84u8],
            Method::TRACE => vec![84u8, 82u8, 65u8, 67u8, 69u8],
            Method::PATCH => vec![80u8, 65u8, 84u8, 67u8, 72u8],
        };
        assert(r@ =~= self.spec_token());
        r
    }
}

/// A MIME type announced in the `Content-Type` header.
#[derive(Clone, Copy, Debug, PartialEq, Eq, Structural)]
pub enum ContentType {
    TextPlain,
    ApplicationJson,
    ApplicationCbor,
    ApplicationOctetStream,
    ApplicationXWwwFormUrlencoded,
}

impl ContentType {
    /// The header value naming this type.
    pub open spec fn spec_token(self) -> Seq<u8> {
        match self {
            ContentType::TextPlain => seq![116u8, 101u8, 120u8, 116u8, 47u8, 112u8, 108u8, 97u8, 105u8, 110u8],
            ContentType::ApplicationJson => seq![97u8, 112u8, 112u8, 108u8, 105u8, 99u8, 97u8, 116u8, 105u8, 111u8, 110u8, 47u8, 106u8, 115u8, 111u8, 110u8],
            ContentType::ApplicationCbor => seq![97u8, 112u8, 112u8, 108u8, 105u8, 99u8, 97u8, 116u8, 105u8, 111u8, 110u8, 47u8, 99u8, 98u8, 111u8, 114u8],
            ContentType::ApplicationOctetStream => seq![97u8, 112u8, 112u8, 108u8, 105u8, 99u8, 97u8, 116u8, 105u8, 111u8, 110u8, 47u8, 111u8, 99u8, 116u8, 101u8, 116u8, 45u8, 115u8, 116u8, 114u8, 101u8, 97u8, 109u8],
            ContentType::ApplicationXWwwFormUrlencoded => seq![97u8, 112u8, 112u8, 108u8, 105u8, 99u8, 97u8, 116u8, 105u8, 111u8, 110u8, 47u8, 120u8, 45u8, 119u8, 119u8, 119u8, 45u8, 102u8, 111u8, 114u8, 109u8, 45u8, 117u8, 114u8, 108u8, 101u8, 110u8, 99u8, 111u8, 100u8, 101u8, 100u8],
        }
    }

    /// The header value naming this type, as bytes.
    pub fn token(&self) -> (r: Vec<u8>)
        ensures
            r@ == self.spec_token(),
    {
        let r = match self {
            ContentType::TextPlain => vec![116u8, 101u8, 120u8, 116u8, 47u8, 112u8, 108u8, 97u8, 105u8, 110u8],
            ContentType::ApplicationJson => vec![97u8, 112u8, 112u8, 108u8, 105u8, 99u8, 97u8, 116u8, 105u8, 111u8, 110u8, 47u8, 106u8, 115u8, 111u8, 110u8],
            ContentType::ApplicationCbor => vec![97u8, 112u8, 112u8, 108u8, 105u8, 99u8, 97u8, 116u8, 105u8, 111u8, 110u8, 47u8, 99u8, 98u8, 111u8, 114u8],
            ContentType::ApplicationOctetStream => vec![97u8, 112u8, 112u8, 108u8, 105u8, 99u8, 97u8, 116u8, 105u8, 111u8, 110u8, 47u8, 111u8, 99u8, 116u8, 101u8, 116u8, 45u8, 115u8, 116u8, 114u8, 101u8, 97u8, 109u8],
            ContentType::ApplicationXWwwFormUrlencoded => vec![97u8, 112u8, 112u8, 108u8, 105u8, 99u8, 97u8, 116u8, 105u8, 111u8, 110u8, 47u8, 120u8, 45u8, 119u8, 119u8, 119u8, 45u8, 102u8, 111u8, 114u8, 109u8, 45u8, 117u8, 114u8, 108u8, 101u8, 110u8, 99u8, 111u8, 100u8, 101u8, 100u8],
        };
        assert(r@ =~= self.spec_token());
        r
    }
}

/// A header as a name and a value, both cut of surrounding whitespace.
#[derive(Debug)]
pub struct Header {
    pub name: Vec<u8>,
    pub value: Vec<u8>,
}

impl View for Header {
    type V = (Seq<u8>, Seq<u8>);

    open spec fn view(&self) -> (Seq<u8>, Seq<u8>) {
        (self.name@, self.value@)
    }
}

pub open spec fn headers_view(hs: Seq<Header>) -> Seq<(Seq<u8>, Seq<u8>)> {
    hs.map_values(|h: Header| h@)
}

} // verus!
