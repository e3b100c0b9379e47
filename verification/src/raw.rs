//! The read buffer (`bytes::BytesMut`) and the HTTP/1 head parser
//! (`httparse`), seen as functions on plain bytes.
use vstd::prelude::*;
use bytes::BytesMut;
use httparse::Error as ParserError;
use crate::error::HttparseError;
use crate::headers::pair_list;

verus! {

#[verifier::external_type_specification]
#[verifier::external_body]
pub struct ExBytesMut(BytesMut);

#[verifier::external_type_specification]
#[verifier::external_body]
pub struct ExParserError(ParserError);

/// The bytes that a read buffer holds.
pub uninterp spec fn buffer_contents(b: BytesMut) -> Seq<u8>;

/// The bytes of the buffer (`BytesMut::as_ref`).
#[verifier::external_body]
pub fn buffer_bytes(b: &BytesMut) -> (r: &[u8])
    ensures
        r@ == buffer_contents(*b),
{
    b.as_ref()
}

/// Drops the first `n` bytes of the buffer (`BytesMut::split_to`).
#[verifier::external_body]
pub fn buffer_consume(b: &mut BytesMut, n: usize)
    requires
        n <= buffer_contents(*old(b)).len(),
    ensures
        buffer_contents(*final(b)) == buffer_contents(*old(b)).skip(n as int),
{
    let _ = b.split_to(n);
}

/// What the head parser reads from a complete request head.
pub struct RawRequest {
    /// The length of the head, up to and including its final empty line.
    pub len: usize,
    pub method: Vec<u8>,
    pub path: Vec<u8>,
    /// The minor version: 1 for HTTP/1.1, 0 for HTTP/1.0.
    pub version: u8,
    pub headers: Vec<(Vec<u8>, Vec<u8>)>,
}

/// What the head parser reads from a complete response head.
pub struct RawResponse {
    pub len: usize,
    pub version: u8,
    pub code: u16,
    pub headers: Vec<(Vec<u8>, Vec<u8>)>,
}

pub struct RawRequestView {
    pub len: nat,
    pub method: Seq<u8>,
    pub path: Seq<u8>,
    pub version: u8,
    pub headers: Seq<(Seq<u8>, Seq<u8>)>,
}

pub struct RawResponseView {
    pub len: nat,
    pub version: u8,
    pub code: u16,
    pub headers: Seq<(Seq<u8>, Seq<u8>)>,
}

impl View for RawRequest {
    type V = RawRequestView;

    open spec fn view(&self) -> RawRequestView {
        RawRequestView {
            len: self.len as nat,
            method: self.method@,
            path: self.path@,
            version: self.version,
            headers: pair_list(self.headers@),
        }
    }
}

impl View for RawResponse {
    type V = RawResponseView;

    open spec fn view(&self) -> RawResponseView {
        RawResponseView {
            len: self.len as nat,
            version: self.version,
            code: self.code,
            headers: pair_list(self.headers@),
        }
    }
}

pub open spec fn request_result_view(r: Result<Option<RawRequest>, HttparseError>) -> Result<
    Option<RawRequestView>,
    HttparseError,
> {
    match r {
        Ok(Some(raw)) => Ok(Some(raw@)),
        Ok(None) => Ok(None),
        Err(e) => Err(e),
    }
}

pub open spec fn response_result_view(r: Result<Option<RawResponse>, HttparseError>) -> Result<
    Option<RawResponseView>,
    HttparseError,
> {
    match r {
        Ok(Some(raw)) => Ok(Some(raw@)),
        Ok(None) => Ok(None),
        Err(e) => Err(e),
    }
}

/// What `httparse::Request::parse` makes of `buf` with room for
/// `max_headers` headers: a rejection, an incomplete head (`None`), or the
/// parts of a complete head.
pub uninterp spec fn parsed_request(buf: Seq<u8>, max_headers: usize) -> Result<
    Option<RawRequestView>,
    HttparseError,
>;

/// What `httparse::Response::parse` makes of `buf` with room for
/// `max_headers` headers.
pub uninterp spec fn parsed_response(buf: Seq<u8>, max_headers: usize) -> Result<
    Option<RawResponseView>,
    HttparseError,
>;

/// The variant of `httparse::Error` that the parser returned.
#[verifier::external_body]
fn rejection(e: ParserError) -> HttparseError {
    match e {
        ParserError::HeaderName => HttparseError::HeaderName,
        ParserError::HeaderValue => HttparseError::HeaderValue,
        ParserError::NewLine => HttparseError::NewLine,
        ParserError::Status => HttparseError::Status,
        ParserError::Token => HttparseError::Token,
        ParserError::TooManyHeaders => HttparseError::TooManyHeaders,
        ParserError::Version => HttparseError::Version,
    }
}

/// `httparse::Request::parse`. A complete head lies within the buffer and
/// has no more headers than there was room for.
#[verifier::external_body]
pub fn parse_request_head(buf: &[u8], max_headers: usize) -> (r: Result<Option<RawRequest>, HttparseError>)
    ensures
        request_result_view(r) == parsed_request(buf@, max_headers),
        r matches Ok(Some(raw)) ==> raw.len <= buf@.len() && raw.headers@.len() <= max_headers,
{
    let mut hs = vec![httparse::EMPTY_HEADER; max_headers];
    let mut req = httparse::Request::new(&mut hs);
    let len = match req.parse(buf).map_err(rejection)? {
        httparse::Status::Complete(n) => n,
        httparse::Status::Partial => return Ok(None),
    };
    let text = |s: Option<&str>| s.unwrap_or("").as_bytes().to_vec();
    let headers = req.headers.iter().map(|h| (h.name.as_bytes().to_vec(), h.value.to_vec()));
    Ok(Some(RawRequest { len, method: text(req.method), path: text(req.path), version: req.version.unwrap_or(0), headers: headers.collect() }))
}

/// `httparse::Response::parse`. A complete head lies within the buffer and
/// has no more headers than there was room for.
#[verifier::external_body]
pub fn parse_response_head(buf: &[u8], max_headers: usize) -> (r: Result<Option<RawResponse>, HttparseError>)
    ensures
        response_result_view(r) == parsed_response(buf@, max_headers),
        r matches Ok(Some(raw)) ==> raw.len <= buf@.len() && raw.headers@.len() <= max_headers,
{
    let mut hs = vec![httparse::EMPTY_HEADER; max_headers];
    let mut res = httparse::Response::new(&mut hs);
    let len = match res.parse(buf).map_err(rejection)? {
        httparse::Status::Complete(n) => n,
        httparse::Status::Partial => return Ok(None),
    };
    let headers = res.headers.iter().map(|h| (h.name.as_bytes().to_vec(), h.value.to_vec()));
    Ok(Some(RawResponse { len, version: res.version.unwrap_or(0), code: res.code.unwrap_or(0), headers: headers.collect() }))
}

} // verus!
