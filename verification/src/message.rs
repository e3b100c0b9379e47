//! The parts of a message head: method, request target, status code and
//! protocol version, each held as the plain value that the protocol reads,
//! and checked by the `http` crate when it is made from bytes.
use vstd::prelude::*;
use http::uri::InvalidUri;
use crate::error::Error;
use crate::text::{ascii, extend, is_token, lit};

verus! {

/// A copy of `s` in a new vector.
pub fn copy_bytes(s: &[u8]) -> (r: Vec<u8>)
    ensures
        r@ == s@,
{
    let mut r: Vec<u8> = Vec::new();
    extend(&mut r, s);
    r
}

/// Whether `http::Method::from_bytes` accepts `b`: it takes any non-empty token.
#[verifier::external_body]
fn http_method_accepts(b: &[u8]) -> (r: bool)
    ensures
        r == is_token(b@),
{
    http::Method::from_bytes(b).is_ok()
}

/// Whether `http::StatusCode::from_u16` accepts `code`: codes from 100 to 999.
#[verifier::external_body]
fn http_status_accepts(code: u16) -> (r: bool)
    ensures
        r == (100 <= code && code < 1000),
{
    http::StatusCode::from_u16(code).is_ok()
}

/// The reason phrase that the `http` crate knows for a status code.
pub uninterp spec fn canonical_reason_bytes(code: u16) -> Option<Seq<u8>>;

/// `http::StatusCode::canonical_reason`, as bytes.
#[verifier::external_body]
fn http_canonical_reason(code: u16) -> (r: Option<&'static [u8]>)
    requires
        100 <= code < 1000,
    ensures
        match r {
            Some(t) => canonical_reason_bytes(code) == Some(t@),
            None => canonical_reason_bytes(code) is None,
        },
{
    http::StatusCode::from_u16(code).ok().and_then(|s| s.canonical_reason()).map(str::as_bytes)
}

/// The text by which the `http` crate writes the URI that it reads from `b`,
/// or `None` where it rejects `b`.
pub uninterp spec fn uri_text(b: Seq<u8>) -> Option<Seq<u8>>;

/// `http::Uri::try_from` on bytes, and the text the parsed URI is written as.
#[verifier::external_body]
fn http_parse_uri(b: &[u8]) -> (r: Result<Vec<u8>, InvalidUri>)
    ensures
        match r {
            Ok(t) => uri_text(b@) == Some(t@),
            Err(_) => uri_text(b@) is None,
        },
{
    http::Uri::try_from(b).map(|u| u.to_string().into_bytes())
}

/// The version of the HTTP protocol of a message.
#[derive(Clone, Copy, Debug, PartialEq, Eq, Structural)]
pub enum Version {
    Http09,
    Http10,
    Http11,
    H2,
    H3,
}

/// A request method: a non-empty token, compared byte for byte.
#[derive(Debug, PartialEq, Eq)]
pub struct Method {
    bytes: Vec<u8>,
}

impl View for Method {
    type V = Seq<u8>;

    closed spec fn view(&self) -> Seq<u8> {
        self.bytes@
    }
}

impl Method {
    #[verifier::type_invariant]
    closed spec fn inv(self) -> bool {
        is_token(self.bytes@)
    }

    /// A method from its bytes, as `http::Method::from_bytes` accepts them.
    pub fn from_bytes(b: &[u8]) -> (r: Result<Method, Error>)
        ensures
            r is Ok <==> is_token(b@),
            r matches Ok(m) ==> m@ == b@,
            r matches Err(e) ==> e is Method,
    {
        if http_method_accepts(b) {
            Ok(Method { bytes: copy_bytes(b) })
        } else {
            Err(Error::Method)
        }
    }

    pub fn as_bytes(&self) -> (r: &[u8])
        ensures
            r@ == self@,
            is_token(r@),
    {
        proof {
            use_type_invariant(self);
        }
        self.bytes.as_slice()
    }

    /// A copy of this method.
    pub fn duplicate(&self) -> (r: Method)
        ensures
            r@ == self@,
    {
        proof {
            use_type_invariant(self);
        }
        Method { bytes: copy_bytes(self.bytes.as_slice()) }
    }

    fn of_literal(s: &str) -> (r: Method)
        requires
            vstd::string::is_ascii(s),
            is_token(ascii(s@)),
        ensures
            r@ == ascii(s@),
    {
        Method { bytes: copy_bytes(lit(s)) }
    }

    pub fn get() -> (r: Method)
        ensures
            r@ == ascii("GET"@),
    {
        proof {
            reveal_strlit("GET");
        }
        Method::of_literal("GET")
    }

    pub fn post() -> (r: Method)
        ensures
            r@ == ascii("POST"@),
    {
        proof {
            reveal_strlit("POST");
        }
        Method::of_literal("POST")
    }

    pub fn head() -> (r: Method)
        ensures
            r@ == ascii("HEAD"@),
    {
        proof {
            reveal_strlit("HEAD");
        }
        Method::of_literal("HEAD")
    }

    pub fn connect() -> (r: Method)
        ensures
            r@ == ascii("CONNECT"@),
    {
        proof {
            reveal_strlit("CONNECT");
        }
        Method::of_literal("CONNECT")
    }

    pub fn put() -> (r: Method)
        ensures
            r@ == ascii("PUT"@),
    {
        proof {
            reveal_strlit("PUT");
        }
        Method::of_literal("PUT")
    }
}

/// An HTTP status code, from 100 to 999.
#[derive(Clone, Copy, Debug, PartialEq, Eq)]
pub struct StatusCode {
    code: u16,
}

impl View for StatusCode {
    type V = u16;

    closed spec fn view(&self) -> u16 {
        self.code
    }
}

impl StatusCode {
    #[verifier::type_invariant]
    closed spec fn inv(self) -> bool {
        100 <= self.code < 1000
    }

    /// A status code from a number, as `http::StatusCode::from_u16` accepts it.
    pub fn from_u16(code: u16) -> (r: Result<StatusCode, Error>)
        ensures
            r is Ok <==> 100 <= code < 1000,
            r matches Ok(s) ==> s@ == code,
            r matches Err(e) ==> e is Status,
    {
        if http_status_accepts(code) {
            Ok(StatusCode { code })
        } else {
            Err(Error::Status)
        }
    }

    pub fn as_u16(&self) -> (r: u16)
        ensures
            r == self@,
            100 <= r < 1000,
    {
        proof {
            use_type_invariant(self);
        }
        self.code
    }

    /// Whether the code is in the 2xx range.
    pub fn is_success(&self) -> (r: bool)
        ensures
            r == (200 <= self@ < 300),
    {
        200 <= self.code && self.code < 300
    }

    /// The reason phrase known for this code, if any.
    pub fn canonical_reason(&self) -> (r: Option<&'static [u8]>)
        ensures
            match r {
                Some(t) => canonical_reason_bytes(self@) == Some(t@),
                None => canonical_reason_bytes(self@) is None,
            },
    {
        proof {
            use_type_invariant(self);
        }
        http_canonical_reason(self.code)
    }

    pub fn ok() -> (r: StatusCode)
        ensures
            r@ == 200,
    {
        StatusCode { code: 200 }
    }
}

/// A request target, held as the text in which it is written.
#[derive(Debug, PartialEq, Eq)]
pub struct Uri {
    text: Vec<u8>,
}

impl View for Uri {
    type V = Seq<u8>;

    closed spec fn view(&self) -> Seq<u8> {
        self.text@
    }
}

impl Uri {
    /// A URI parsed from bytes by `http::Uri`.
    pub fn from_bytes(b: &[u8]) -> (r: Result<Uri, Error>)
        ensures
            r is Ok <==> uri_text(b@) is Some,
            r matches Ok(u) ==> uri_text(b@) == Some(u@),
            r matches Err(e) ==> e is Uri,
    {
        match http_parse_uri(b) {
            Ok(t) => Ok(Uri { text: t }),
            Err(e) => Err(Error::Uri(e)),
        }
    }

    /// The URI `/`.
    pub fn root() -> (r: Uri)
        ensures
            r@ == seq![47u8],
    {
        let mut t: Vec<u8> = Vec::new();
        t.push(47);
        Uri { text: t }
    }

    pub fn as_bytes(&self) -> (r: &[u8])
        ensures
            r@ == self@,
    {
        self.text.as_slice()
    }
}

} // verus!
