//! HTTP/1 message heads: reading them, choosing how their bodies are
//! delimited, and writing them.
use vstd::prelude::*;
use vstd::slice::slice_subrange;
use std::time::{Duration, SystemTime, UNIX_EPOCH};
use bytes::BytesMut;
use http::header::{HeaderMap, HeaderValue};
use crate::error::{httparse_error_kind, Error, ErrorKind};
use crate::headers::{
    append_model, bytes_list, flatten, groups_wf, header_append, header_groups, header_insert,
    header_pairs, header_remove, header_replace_last, header_values, insert_model, lemma_append,
    lemma_remove, new_header_map, pair_list, remove_model, replace_last_model, room_for_name,
    values_of,
};
use crate::message::{canonical_reason_bytes, uri_text, Method, StatusCode, Uri, Version};
use crate::raw::{
    buffer_bytes, buffer_consume, buffer_contents, parse_request_head, parse_response_head,
    parsed_request, parsed_response, RawRequest, RawRequestView, RawResponse, RawResponseView,
};
use crate::text::{
    after_last_comma, after_last_comma_start, ascii, bytes_eq, check_header_value,
    check_lower_token, check_visible_text, eq_ignore_case, extend, is_header_value, is_lower_token,
    is_token, is_visible_text, lit, lower_seq, parse_u64, parse_u64_range, to_lower_bytes, trim,
    trim_bounds,
};
use super::{
    ClientTransaction, Http1Transaction, ParseResult, RequestHead, ResponseHead, ServerTransaction,
};

verus! {

/// The most headers that a message head may have.
pub const MAX_HEADERS: usize = 100;

pub open spec fn transfer_encoding_name() -> Seq<u8> {
    ascii("transfer-encoding"@)
}

pub open spec fn content_length_name() -> Seq<u8> {
    ascii("content-length"@)
}

pub open spec fn date_name() -> Seq<u8> {
    ascii("date"@)
}

/// The name `transfer-encoding`.
pub fn transfer_encoding() -> (r: &'static [u8])
    ensures
        r@ == transfer_encoding_name(),
        is_lower_token(r@),
{
    proof {
        reveal_strlit("transfer-encoding");
    }
    lit("transfer-encoding")
}

/// The name `content-length`.
pub fn content_length() -> (r: &'static [u8])
    ensures
        r@ == content_length_name(),
        is_lower_token(r@),
{
    proof {
        reveal_strlit("content-length");
    }
    lit("content-length")
}

/// The name `date`.
pub fn date() -> (r: &'static [u8])
    ensures
        r@ == date_name(),
        is_lower_token(r@),
{
    proof {
        reveal_strlit("date");
    }
    lit("date")
}

/// How the body of an incoming message is delimited.
#[derive(Clone, Copy, Debug, PartialEq, Eq, Structural)]
pub enum Decoder {
    /// A body of exactly this many bytes.
    Length(u64),
    /// A body in chunked transfer coding.
    Chunked,
    /// A body that lasts until the connection closes.
    Eof,
}

impl Decoder {
    pub fn length(n: u64) -> (d: Decoder)
        ensures
            d == Decoder::Length(n),
    {
        Decoder::Length(n)
    }

    pub fn chunked() -> (d: Decoder)
        ensures
            d == Decoder::Chunked,
    {
        Decoder::Chunked
    }

    pub fn eof() -> (d: Decoder)
        ensures
            d == Decoder::Eof,
    {
        Decoder::Eof
    }
}

/// How the body of an outgoing message is to be written.
#[derive(Clone, Copy, Debug, PartialEq, Eq, Structural)]
pub enum Encoder {
    /// A body of exactly this many bytes.
    Length(u64),
    /// A body in chunked transfer coding.
    Chunked,
}

impl Encoder {
    pub fn length(n: u64) -> (e: Encoder)
        ensures
            e == Encoder::Length(n),
    {
        Encoder::Length(n)
    }

    pub fn chunked() -> (e: Encoder)
        ensures
            e == Encoder::Chunked,
    {
        Encoder::Chunked
    }
}

// ---------------------------------------------------------------------------
// Transfer-Encoding and Content-Length values
// ---------------------------------------------------------------------------

/// Whether a `Transfer-Encoding` value names `chunked` as its last coding:
/// the value is visible text, and what follows its last comma is
/// `chunked` in any case, apart from spaces and tabs around it.
pub open spec fn is_chunked(v: Seq<u8>) -> bool {
    is_visible_text(v) && eq_ignore_case(trim(after_last_comma(v)), ascii("chunked"@))
}

/// ASCII case-insensitive equality of two texts (`unicase::eq_ascii`).
#[verifier::external_body]
fn ascii_eq_ignore_case(a: &[u8], b: &[u8]) -> (r: bool)
    requires
        is_visible_text(a@),
        is_visible_text(b@),
    ensures
        r == eq_ignore_case(a@, b@),
{
    let a = std::str::from_utf8(a).expect("visible ASCII text");
    let b = std::str::from_utf8(b).expect("visible ASCII text");
    unicase::eq_ascii(a, b)
}

/// Whether the last coding of a `Transfer-Encoding` value is `chunked`.
pub fn find_chunked(value: &[u8]) -> (r: bool)
    ensures
        r == is_chunked(value@),
{
    if !check_visible_text(value) {
        return false;
    }
    let start = after_last_comma_start(value);
    let (a, b) = trim_bounds(value, start, value.len());
    let seg = slice_subrange(value, a, b);
    proof {
        reveal_strlit("chunked");
        assert(is_visible_text(seg@)) by {
            assert forall|i: int| 0 <= i < seg@.len() implies crate::text::is_visible(
                #[trigger] seg@[i],
            ) by {
                assert(seg@[i] == value@[a + i]);
            }
        }
    }
    let chunked = lit("chunked");
    ascii_eq_ignore_case(seg, chunked)
}

/// The length that a `Content-Length` value gives, if it is a valid one.
pub open spec fn content_length_value(v: Seq<u8>) -> Option<u64> {
    if is_visible_text(v) {
        parse_u64(v)
    } else {
        None
    }
}

/// The length on which all `Content-Length` values agree; `None` if one of
/// them is invalid or two of them differ.
pub open spec fn agreed_length(vs: Seq<Seq<u8>>) -> Option<u64> {
    if vs.len() > 0 && content_length_value(vs[0]) is Some && forall|i: int|
        0 <= i < vs.len() ==> #[trigger] content_length_value(vs[i]) == content_length_value(vs[0]) {
        content_length_value(vs[0])
    } else {
        None
    }
}

fn content_length_of(v: &[u8]) -> (r: Option<u64>)
    ensures
        r == content_length_value(v@),
{
    if !check_visible_text(v) {
        return None;
    }
    assert(v@.subrange(0, v@.len() as int) =~= v@);
    parse_u64_range(v, 0, v.len())
}

/// Content-Length values that are invalid or disagree.
#[derive(Clone, Copy, Debug)]
pub struct InvalidContentLength;

/// The length given by a list of `Content-Length` values, which must all be
/// valid and equal.
pub fn parse_content_length(values: &Vec<Vec<u8>>) -> (r: Result<u64, InvalidContentLength>)
    requires
        values@.len() > 0,
    ensures
        match r {
            Ok(n) => agreed_length(bytes_list(values@)) == Some(n),
            Err(_) => agreed_length(bytes_list(values@)) is None,
        },
{
    let ghost vs = bytes_list(values@);
    let mut prev: Option<u64> = None;
    let mut i: usize = 0;
    while i < values.len()
        invariant
            vs == bytes_list(values@),
            vs.len() > 0,
            i <= vs.len(),
            i == 0 ==> prev is None,
            i > 0 ==> prev == content_length_value(vs[0]) && prev is Some,
            forall|j: int| 0 <= j < i ==> #[trigger] content_length_value(vs[j]) == content_length_value(vs[0]),
        decreases vs.len() - i,
    {
        let len = match content_length_of(values[i].as_slice()) {
            Some(n) => n,
            None => {
                assert(content_length_value(vs[i as int]) is None);
                return Err(InvalidContentLength);
            },
        };
        match prev {
            Some(p) => {
                if p != len {
                    assert(content_length_value(vs[i as int]) != content_length_value(vs[0]));
                    return Err(InvalidContentLength);
                }
            },
            None => {
                prev = Some(len);
            },
        }
        i = i + 1;
    }
    match prev {
        Some(p) => Ok(p),
        None => Err(InvalidContentLength),
    }
}

// ---------------------------------------------------------------------------
// Choosing the decoder of an incoming body (RFC 7230, section 3.3.3)
// ---------------------------------------------------------------------------

/// How a request body with these headers is delimited: `chunked` if it is
/// the last transfer coding (any other coding makes the request bad); else
/// the agreed `Content-Length` (none agreed makes it bad); else no body.
/// `None` stands for a bad request.
pub open spec fn request_decoder(g: Seq<(Seq<u8>, Seq<Seq<u8>>)>) -> Option<Decoder> {
    let te = values_of(g, transfer_encoding_name());
    let cl = values_of(g, content_length_name());
    if te.len() > 0 {
        if is_chunked(te.last()) {
            Some(Decoder::Chunked)
        } else {
            None
        }
    } else if cl.len() > 0 {
        match agreed_length(cl) {
            Some(n) => Some(Decoder::Length(n)),
            None => None,
        }
    } else {
        Some(Decoder::Length(0))
    }
}

/// How a response body is delimited, given the method of the request it
/// answers, its status and its headers: no body after `HEAD`, after a 2xx
/// to `CONNECT`, or with status 1xx, 204 or 304; else `chunked` if it is
/// the last transfer coding, and reading to the end of the connection for
/// any other coding; else the agreed `Content-Length` (none agreed makes
/// the response bad, `None`); else reading to the end of the connection.
pub open spec fn response_decoder(
    method: Option<Seq<u8>>,
    status: u16,
    g: Seq<(Seq<u8>, Seq<Seq<u8>>)>,
) -> Option<Decoder> {
    let te = values_of(g, transfer_encoding_name());
    let cl = values_of(g, content_length_name());
    if method == Some(ascii("HEAD"@)) {
        Some(Decoder::Length(0))
    } else if method == Some(ascii("CONNECT"@)) && 200 <= status < 300 {
        Some(Decoder::Length(0))
    } else if (100 <= status < 200) || status == 204 || status == 304 {
        Some(Decoder::Length(0))
    } else if te.len() > 0 {
        if is_chunked(te.last()) {
            Some(Decoder::Chunked)
        } else {
            Some(Decoder::Eof)
        }
    } else if cl.len() > 0 {
        match agreed_length(cl) {
            Some(n) => Some(Decoder::Length(n)),
            None => None,
        }
    } else {
        Some(Decoder::Eof)
    }
}

/// The body delimitation that the framing headers give, shared by both
/// directions: `Some(Some(d))` for a decoder, `Some(None)` where neither
/// header is present, `None` for a bad message.
fn framing_from_headers(headers: &HeaderMap<HeaderValue>, eof_if_not_chunked: bool) -> (r: Option<Option<Decoder>>)
    ensures
        ({
            let g = header_groups(*headers);
            let te = values_of(g, transfer_encoding_name());
            let cl = values_of(g, content_length_name());
            r == if te.len() > 0 {
                if is_chunked(te.last()) {
                    Some(Some(Decoder::Chunked))
                } else if eof_if_not_chunked {
                    Some(Some(Decoder::Eof))
                } else {
                    None
                }
            } else if cl.len() > 0 {
                match agreed_length(cl) {
                    Some(n) => Some(Some(Decoder::Length(n))),
                    None => None,
                }
            } else {
                Some(None)
            }
        }),
{
    let te = header_values(headers, transfer_encoding());
    if te.len() > 0 {
        let last = te[te.len() - 1].as_slice();
        if find_chunked(last) {
            Some(Some(Decoder::Chunked))
        } else if eof_if_not_chunked {
            Some(Some(Decoder::Eof))
        } else {
            None
        }
    } else {
        let cl = header_values(headers, content_length());
        if cl.len() > 0 {
            match parse_content_length(&cl) {
                Ok(len) => Some(Some(Decoder::Length(len))),
                Err(_) => None,
            }
        } else {
            Some(None)
        }
    }
}

// ---------------------------------------------------------------------------
// Framing an outgoing body
// ---------------------------------------------------------------------------

/// What `encode_length_or_chunked` makes of a header map, and the encoder
/// it chooses: a valid first `Content-Length` gives a body of that length,
/// and any `Transfer-Encoding` is dropped; otherwise the body is chunked,
/// and `chunked` is made the last transfer coding (added to the last value,
/// or set as the only value when there is none).
pub open spec fn length_or_chunked(g: Seq<(Seq<u8>, Seq<Seq<u8>>)>) -> (
    Seq<(Seq<u8>, Seq<Seq<u8>>)>,
    Encoder,
) {
    let cl = values_of(g, content_length_name());
    let len = if cl.len() > 0 {
        content_length_value(cl[0])
    } else {
        None
    };
    match len {
        Some(n) => (remove_model(g, transfer_encoding_name()), Encoder::Length(n)),
        None => {
            let te = values_of(g, transfer_encoding_name());
            if te.len() > 0 {
                if is_chunked(te.last()) {
                    (g, Encoder::Chunked)
                } else {
                    (
                        replace_last_model(
                            g,
                            transfer_encoding_name(),
                            te.last() + ascii(", chunked"@),
                        ),
                        Encoder::Chunked,
                    )
                }
            } else {
                (insert_model(g, transfer_encoding_name(), ascii("chunked"@)), Encoder::Chunked)
            }
        },
    }
}

proof fn lemma_suffix_is_value(v: Seq<u8>)
    requires
        is_header_value(v),
    ensures
        is_header_value(v + ascii(", chunked"@)),
{
    reveal_strlit(", chunked");
    let w = v + ascii(", chunked"@);
    assert forall|i: int| 0 <= i < w.len() implies crate::text::is_value_byte(#[trigger] w[i]) by {
        if i < v.len() {
            assert(w[i] == v[i]);
        }
    }
}

/// Whether `length_or_chunked` writes `chunked` into `Transfer-Encoding`:
/// when the first `Content-Length` value is missing or invalid, and
/// `chunked` is not already the last transfer coding.
pub open spec fn adds_chunked(g: Seq<(Seq<u8>, Seq<Seq<u8>>)>) -> bool {
    let cl = values_of(g, content_length_name());
    let te = values_of(g, transfer_encoding_name());
    &&& !(cl.len() > 0 && content_length_value(cl[0]) is Some)
    &&& !(te.len() > 0 && is_chunked(te.last()))
}

/// Frames a body whose length is not known in advance: by its
/// `Content-Length` when that is valid, else in chunks.
pub fn encode_length_or_chunked(headers: &mut HeaderMap<HeaderValue>) -> (e: Encoder)
    requires
        adds_chunked(header_groups(*old(headers))) ==> room_for_name(header_groups(*old(headers))),
    ensures
        (header_groups(*final(headers)), e) == length_or_chunked(header_groups(*old(headers))),
{
    let cl = header_values(headers, content_length());
    let len = if cl.len() > 0 {
        content_length_of(cl[0].as_slice())
    } else {
        None
    };
    match len {
        Some(n) => {
            header_remove(headers, transfer_encoding());
            Encoder::Length(n)
        },
        None => {
            let te = header_values(headers, transfer_encoding());
            if te.len() > 0 {
                let last = te[te.len() - 1].as_slice();
                if !find_chunked(last) {
                    proof {
                        reveal_strlit(", chunked");
                    }
                    let mut new = crate::message::copy_bytes(last);
                    extend(&mut new, lit(", chunked"));
                    proof {
                        lemma_suffix_is_value(last@);
                    }
                    header_replace_last(headers, transfer_encoding(), new.as_slice());
                }
            } else {
                proof {
                    reveal_strlit("chunked");
                }
                let chunked = lit("chunked");
                assert(is_header_value(chunked@));
                header_insert(headers, transfer_encoding(), chunked);
            }
            Encoder::Chunked
        },
    }
}

/// Whether a response may have a body: not one to `HEAD`, nor a 2xx to
/// `CONNECT`, nor one with status 204 or 304.
pub open spec fn can_have_body(method: Seq<u8>, status: u16) -> bool {
    if method == ascii("HEAD"@) {
        false
    } else if method == ascii("CONNECT"@) && 200 <= status < 300 {
        false
    } else {
        status != 204 && status != 304
    }
}

/// The headers and encoder with which a response is written: a body it
/// has and may have is framed by `length_or_chunked`; otherwise any
/// `Transfer-Encoding` goes, `Content-Length: 0` is set where a body could
/// have been, and the body is empty.
pub open spec fn response_framing(
    g: Seq<(Seq<u8>, Seq<Seq<u8>>)>,
    has_body: bool,
    method: Seq<u8>,
    status: u16,
) -> (Seq<(Seq<u8>, Seq<Seq<u8>>)>, Encoder) {
    let may = can_have_body(method, status);
    if has_body && may {
        length_or_chunked(g)
    } else {
        let g1 = remove_model(g, transfer_encoding_name());
        (
            if may {
                insert_model(g1, content_length_name(), ascii("0"@))
            } else {
                g1
            },
            Encoder::Length(0),
        )
    }
}

/// The headers and encoder with which a request is written: a body is
/// framed by `length_or_chunked`; without one, both framing headers go.
pub open spec fn request_framing(g: Seq<(Seq<u8>, Seq<Seq<u8>>)>, has_body: bool) -> (
    Seq<(Seq<u8>, Seq<Seq<u8>>)>,
    Encoder,
) {
    if has_body {
        length_or_chunked(g)
    } else {
        (
            remove_model(remove_model(g, content_length_name()), transfer_encoding_name()),
            Encoder::Length(0),
        )
    }
}

// ---------------------------------------------------------------------------
// Writing a head
// ---------------------------------------------------------------------------

/// The header lines `name: value\r\n` of a list of pairs.
pub open spec fn header_lines(p: Seq<(Seq<u8>, Seq<u8>)>) -> Seq<u8>
    decreases p.len(),
{
    if p.len() == 0 {
        Seq::empty()
    } else {
        header_lines(p.drop_last()) + p.last().0 + ascii(": "@) + p.last().1 + ascii("\r\n"@)
    }
}

/// Writes each header of the map as a line `name: value\r\n`, in the order
/// of the map.
pub fn write_headers(dst: &mut Vec<u8>, headers: &HeaderMap<HeaderValue>)
    ensures
        final(dst)@ == old(dst)@ + header_lines(flatten(header_groups(*headers))),
{
    let pairs = header_pairs(headers);
    let ghost p = pair_list(pairs@);
    let ghost start = dst@;
    let mut i: usize = 0;
    while i < pairs.len()
        invariant
            p == pair_list(pairs@),
            i <= p.len(),
            dst@ == start + header_lines(p.subrange(0, i as int)),
        decreases p.len() - i,
    {
        proof {
            reveal_strlit(": ");
            reveal_strlit("\r\n");
        }
        extend(dst, pairs[i].0.as_slice());
        extend(dst, lit(": "));
        extend(dst, pairs[i].1.as_slice());
        extend(dst, lit("\r\n"));
        proof {
            let q = p.subrange(0, i + 1);
            assert(q.drop_last() =~= p.subrange(0, i as int));
            assert(dst@ =~= start + header_lines(q));
        }
        i = i + 1;
    }
    assert(p.subrange(0, p.len() as int) =~= p);
}

// ---------------------------------------------------------------------------
// The status line and the date
// ---------------------------------------------------------------------------

/// The three decimal digits of a status code.
pub open spec fn three_digits(c: u16) -> Seq<u8> {
    seq![(48 + c / 100) as u8, (48 + (c / 10) % 10) as u8, (48 + c % 10) as u8]
}

/// The reason phrase written after a status code.
pub open spec fn reason_phrase(c: u16) -> Seq<u8> {
    match canonical_reason_bytes(c) {
        Some(r) => r,
        None => ascii("<unknown status code>"@),
    }
}

/// The status line of a response (always labelled HTTP/1.1).
pub open spec fn status_line(v: Version, c: u16) -> Seq<u8> {
    if v == Version::Http11 && c == 200 {
        ascii("HTTP/1.1 200 OK\r\n"@)
    } else {
        ascii("HTTP/1.1 "@) + three_digits(c) + seq![32u8] + reason_phrase(c) + ascii("\r\n"@)
    }
}

fn write_status_line(dst: &mut Vec<u8>, version: Version, status: &StatusCode)
    requires
        version == Version::Http10 || version == Version::Http11,
    ensures
        final(dst)@ == old(dst)@ + status_line(version, status@),
{
    proof {
        reveal_strlit("HTTP/1.1 200 OK\r\n");
        reveal_strlit("HTTP/1.1 ");
        reveal_strlit("<unknown status code>");
        reveal_strlit("\r\n");
    }
    let c = status.as_u16();
    if version == Version::Http11 && c == 200 {
        extend(dst, lit("HTTP/1.1 200 OK\r\n"));
    } else {
        let ghost start = dst@;
        extend(dst, lit("HTTP/1.1 "));
        dst.push((48 + c / 100) as u8);
        dst.push((48 + (c / 10) % 10) as u8);
        dst.push((48 + c % 10) as u8);
        dst.push(32);
        match status.canonical_reason() {
            Some(r) => extend(dst, r),
            None => extend(dst, lit("<unknown status code>")),
        }
        extend(dst, lit("\r\n"));
        assert(dst@ =~= start + status_line(version, c));
    }
}

/// The text of an HTTP date (IMF-fixdate) for a number of seconds since
/// the Unix epoch.
pub uninterp spec fn http_date_text(secs: u64) -> Seq<u8>;

/// The latest second that an HTTP date can show (the end of year 9999).
pub open spec fn last_date_second() -> u64 {
    253402300799
}

/// `httpdate::fmt_http_date` at `secs` seconds after the epoch: always
/// 29 bytes of visible text, such as `Sun, 06 Nov 1994 08:49:37 GMT`.
#[verifier::external_body]
fn http_date(secs: u64) -> (r: Vec<u8>)
    requires
        secs <= last_date_second(),
    ensures
        r@ == http_date_text(secs),
        r@.len() == 29,
        is_visible_text(r@),
{
    httpdate::fmt_http_date(UNIX_EPOCH + Duration::from_secs(secs)).into_bytes()
}

/// Seconds since the Unix epoch by the system clock (0 for a clock set
/// before it). The value depends on the time of the call.
#[verifier::external_body]
fn unix_time_now() -> (r: u64) {
    SystemTime::now().duration_since(UNIX_EPOCH).map_or(0, |d| d.as_secs())
}

/// The HTTP date of a clock reading, in seconds since the Unix epoch; a
/// reading past the year 9999 shows the last second of that year.
pub fn date_of_second(now: u64) -> (r: Vec<u8>)
    ensures
        r@ == http_date_text(if now <= last_date_second() { now } else { last_date_second() }),
        r@.len() == 29,
        is_visible_text(r@),
{
    let secs = if now <= 253402300799 {
        now
    } else {
        253402300799
    };
    http_date(secs)
}

/// The date of the current second by the system clock, as an HTTP date
/// (`date_of_second` of the clock's reading).
pub fn current_date() -> (r: Vec<u8>)
    ensures
        r@.len() == 29,
        is_visible_text(r@),
        exists|secs: u64| secs <= last_date_second() && r@ == http_date_text(secs),
{
    let now = unix_time_now();
    date_of_second(now)
}

// ---------------------------------------------------------------------------
// Writing message heads
// ---------------------------------------------------------------------------

/// The bytes of a response head: status line, header lines, a `Date` line
/// unless the headers have one, and the empty line.
pub open spec fn response_head_bytes(
    v: Version,
    c: u16,
    g: Seq<(Seq<u8>, Seq<Seq<u8>>)>,
    date: Seq<u8>,
) -> Seq<u8> {
    status_line(v, c) + header_lines(flatten(g)) + (if values_of(g, date_name()).len() > 0 {
        Seq::empty()
    } else {
        ascii("Date: "@) + date + ascii("\r\n"@)
    }) + ascii("\r\n"@)
}

/// The bytes of a request head: request line, header lines, empty line.
pub open spec fn request_head_bytes(
    method: Seq<u8>,
    uri: Seq<u8>,
    g: Seq<(Seq<u8>, Seq<Seq<u8>>)>,
) -> Seq<u8> {
    method + seq![32u8] + uri + seq![32u8] + ascii("HTTP/1.1\r\n"@) + header_lines(flatten(g))
        + ascii("\r\n"@)
}

impl ServerTransaction {
    /// Sets the framing headers of a response, given whether it has a body
    /// and the method of the request it answers.
    pub fn set_length(head: &mut ResponseHead, has_body: bool, method: &Method) -> (e: Encoder)
        requires
            can_have_body(method@, old(head).status@) ==> room_for_name(header_groups(old(head).headers)),
        ensures
            (header_groups(final(head).headers), e) == response_framing(
                header_groups(old(head).headers),
                has_body,
                method@,
                old(head).status@,
            ),
            final(head).status == old(head).status,
            final(head).version == old(head).version,
    {
        proof {
            reveal_strlit("HEAD");
            reveal_strlit("CONNECT");
            reveal_strlit("0");
        }
        let m = method.as_bytes();
        let c = head.status.as_u16();
        let can_have_body = if bytes_eq(m, lit("HEAD")) {
            false
        } else if bytes_eq(m, lit("CONNECT")) && head.status.is_success() {
            false
        } else {
            c != 204 && c != 304
        };
        if has_body && can_have_body {
            encode_length_or_chunked(&mut head.headers)
        } else {
            header_remove(&mut head.headers, transfer_encoding());
            if can_have_body {
                proof {
                    lemma_remove(header_groups(old(head).headers), transfer_encoding_name());
                }
                let zero = lit("0");
                assert(is_header_value(zero@));
                header_insert(&mut head.headers, content_length(), zero);
            }
            Encoder::Length(0)
        }
    }

    /// Writes a response head to `dst`, with `date` as the value of the
    /// `Date` header when the head has none, and says how its body is to be
    /// written.
    pub fn encode_with_date(
        head: ResponseHead,
        has_body: bool,
        method: &Method,
        date: &[u8],
        dst: &mut Vec<u8>,
    ) -> (e: Encoder)
        requires
            head.version == Version::Http10 || head.version == Version::Http11,
            can_have_body(method@, head.status@) ==> room_for_name(header_groups(head.headers)),
        ensures
            e == response_framing(header_groups(head.headers), has_body, method@, head.status@).1,
            final(dst)@ == old(dst)@ + response_head_bytes(
                head.version,
                head.status@,
                response_framing(header_groups(head.headers), has_body, method@, head.status@).0,
                date@,
            ),
    {
        proof {
            reveal_strlit("Date: ");
            reveal_strlit("\r\n");
        }
        let mut head = head;
        let body = ServerTransaction::set_length(&mut head, has_body, method);
        let ghost start = dst@;
        write_status_line(dst, head.version, &head.status);
        write_headers(dst, &head.headers);
        let has_date = header_values(&head.headers, self::date()).len() > 0;
        if !has_date {
            extend(dst, lit("Date: "));
            extend(dst, date);
            extend(dst, lit("\r\n"));
        }
        extend(dst, lit("\r\n"));
        assert(dst@ =~= start + response_head_bytes(
            head.version,
            head.status@,
            header_groups(head.headers),
            date@,
        ));
        body
    }
}

impl ClientTransaction {
    /// Sets the framing headers of a request, given whether it has a body.
    pub fn set_length(head: &mut RequestHead, has_body: bool) -> (e: Encoder)
        requires
            has_body ==> room_for_name(header_groups(old(head).headers)),
        ensures
            (header_groups(final(head).headers), e) == request_framing(
                header_groups(old(head).headers),
                has_body,
            ),
            final(head).method == old(head).method,
            final(head).uri == old(head).uri,
            final(head).version == old(head).version,
    {
        if has_body {
            encode_length_or_chunked(&mut head.headers)
        } else {
            header_remove(&mut head.headers, content_length());
            header_remove(&mut head.headers, transfer_encoding());
            Encoder::Length(0)
        }
    }

    /// Writes a request head to `dst`, and says how its body is to be written.
    pub fn encode_request(head: RequestHead, has_body: bool, dst: &mut Vec<u8>) -> (e: Encoder)
        requires
            has_body ==> room_for_name(header_groups(head.headers)),
        ensures
            e == request_framing(header_groups(head.headers), has_body).1,
            final(dst)@ == old(dst)@ + request_head_bytes(
                head.method@,
                head.uri@,
                request_framing(header_groups(head.headers), has_body).0,
            ),
    {
        proof {
            reveal_strlit("HTTP/1.1\r\n");
            reveal_strlit("\r\n");
        }
        let mut head = head;
        let body = ClientTransaction::set_length(&mut head, has_body);
        let ghost start = dst@;
        extend(dst, head.method.as_bytes());
        dst.push(32);
        extend(dst, head.uri.as_bytes());
        dst.push(32);
        extend(dst, lit("HTTP/1.1\r\n"));
        write_headers(dst, &head.headers);
        extend(dst, lit("\r\n"));
        assert(dst@ =~= start + request_head_bytes(
            head.method@,
            head.uri@,
            header_groups(head.headers),
        ));
        body
    }
}

// ---------------------------------------------------------------------------
// Reading message heads
// ---------------------------------------------------------------------------

/// The header map that a head's header lines make, names taken in lower
/// case and values appended in order; `None` when a name is not a token or
/// a value holds a byte that a header value may not hold.
pub open spec fn headers_model(raw: Seq<(Seq<u8>, Seq<u8>)>) -> Option<Seq<(Seq<u8>, Seq<Seq<u8>>)>>
    decreases raw.len(),
{
    if raw.len() == 0 {
        Some(Seq::empty())
    } else {
        match headers_model(raw.drop_last()) {
            None => None,
            Some(g) => {
                let k = lower_seq(raw.last().0);
                let v = raw.last().1;
                if is_lower_token(k) && is_header_value(v) {
                    Some(append_model(g, k, v))
                } else {
                    None
                }
            },
        }
    }
}

proof fn lemma_headers_model_wf(raw: Seq<(Seq<u8>, Seq<u8>)>)
    ensures
        headers_model(raw) matches Some(g) ==> groups_wf(g) && g.len() <= raw.len(),
    decreases raw.len(),
{
    if raw.len() > 0 {
        lemma_headers_model_wf(raw.drop_last());
        if let Some(g) = headers_model(raw.drop_last()) {
            let k = lower_seq(raw.last().0);
            let v = raw.last().1;
            if is_lower_token(k) && is_header_value(v) {
                lemma_append(g, k, v);
            }
        }
    }
}

proof fn lemma_headers_model_prefix(raw: Seq<(Seq<u8>, Seq<u8>)>, j: int)
    requires
        0 <= j <= raw.len(),
        headers_model(raw.subrange(0, j)) is None,
    ensures
        headers_model(raw) is None,
    decreases raw.len(),
{
    if j < raw.len() {
        assert(raw.drop_last().subrange(0, j) =~= raw.subrange(0, j));
        lemma_headers_model_prefix(raw.drop_last(), j);
    } else {
        assert(raw.subrange(0, j) =~= raw);
    }
}

/// Builds the header map of a head from its header lines.
fn headers_from_raw(raw: &Vec<(Vec<u8>, Vec<u8>)>) -> (r: Result<HeaderMap<HeaderValue>, Error>)
    requires
        raw@.len() <= MAX_HEADERS,
    ensures
        match r {
            Ok(m) => headers_model(pair_list(raw@)) == Some(header_groups(m)) && header_groups(m).len()
                <= raw@.len(),
            Err(e) => headers_model(pair_list(raw@)) is None && e is Header,
        },
{
    let ghost p = pair_list(raw@);
    let mut map = new_header_map();
    let mut i: usize = 0;
    while i < raw.len()
        invariant
            p == pair_list(raw@),
            p.len() <= MAX_HEADERS,
            i <= p.len(),
            headers_model(p.subrange(0, i as int)) == Some(header_groups(map)),
        decreases p.len() - i,
    {
        let ghost q = p.subrange(0, i + 1);
        proof {
            assert(q.drop_last() =~= p.subrange(0, i as int));
            lemma_headers_model_wf(p.subrange(0, i as int));
        }
        let name = to_lower_bytes(raw[i].0.as_slice());
        let value = raw[i].1.as_slice();
        if !check_lower_token(name.as_slice()) || !check_header_value(value) {
            proof {
                lemma_headers_model_prefix(p, i + 1);
            }
            return Err(Error::Header);
        }
        header_append(&mut map, name.as_slice(), value);
        i = i + 1;
    }
    assert(p.subrange(0, p.len() as int) =~= p);
    proof {
        lemma_headers_model_wf(p);
    }
    Ok(map)
}

/// The outcome of reading a message head from a buffer.
pub enum ReadHead<H> {
    /// More bytes are needed.
    Incomplete,
    /// The bytes are not a valid head.
    Rejected(ErrorKind),
    /// A head, and the number of bytes it took.
    Complete(H, nat),
}

pub struct RequestHeadView {
    pub method: Seq<u8>,
    pub uri: Seq<u8>,
    pub version: Version,
    pub headers: Seq<(Seq<u8>, Seq<Seq<u8>>)>,
}

pub struct ResponseHeadView {
    pub status: u16,
    pub version: Version,
    pub headers: Seq<(Seq<u8>, Seq<Seq<u8>>)>,
}

pub open spec fn request_head_view(h: RequestHead) -> RequestHeadView {
    RequestHeadView {
        method: h.method@,
        uri: h.uri@,
        version: h.version,
        headers: header_groups(h.headers),
    }
}

pub open spec fn response_head_view(h: ResponseHead) -> ResponseHeadView {
    ResponseHeadView { status: h.status@, version: h.version, headers: header_groups(h.headers) }
}

/// The version that a head's minor version number stands for.
pub open spec fn minor_version(v: u8) -> Version {
    if v == 1 {
        Version::Http11
    } else {
        Version::Http10
    }
}

/// What becomes of a complete request head that the parser read from
/// `input`, and what is left of the input: a head with an invalid method
/// leaves the input as it is; otherwise the head is consumed, even when its
/// target or headers turn out to be invalid.
pub open spec fn complete_request(input: Seq<u8>, raw: RawRequestView) -> (ReadHead<RequestHeadView>, Seq<u8>) {
    if !is_token(raw.method) {
        (ReadHead::Rejected(ErrorKind::Method), input)
    } else {
        let rest = input.skip(raw.len as int);
        match uri_text(raw.path) {
            None => (ReadHead::Rejected(ErrorKind::Uri), rest),
            Some(u) => match headers_model(raw.headers) {
                None => (ReadHead::Rejected(ErrorKind::Header), rest),
                Some(g) => (
                    ReadHead::Complete(
                        RequestHeadView {
                            method: raw.method,
                            uri: u,
                            version: minor_version(raw.version),
                            headers: g,
                        },
                        raw.len,
                    ),
                    rest,
                ),
            },
        }
    }
}

/// What reading a request head from `input` gives, and what is left of the
/// input: nothing is consumed unless the head is complete.
pub open spec fn read_request(input: Seq<u8>) -> (ReadHead<RequestHeadView>, Seq<u8>) {
    if input.len() == 0 {
        (ReadHead::Incomplete, input)
    } else {
        match parsed_request(input, MAX_HEADERS) {
            Err(e) => (ReadHead::Rejected(httparse_error_kind(e)), input),
            Ok(None) => (ReadHead::Incomplete, input),
            Ok(Some(raw)) => complete_request(input, raw),
        }
    }
}

/// What becomes of a complete response head that the parser read from
/// `input`, and what is left of the input: a head with a status code
/// outside 100..=999 leaves the input as it is; otherwise the head is
/// consumed, even when its headers turn out to be invalid.
pub open spec fn complete_response(input: Seq<u8>, raw: RawResponseView) -> (ReadHead<ResponseHeadView>, Seq<u8>) {
    if !(100 <= raw.code < 1000) {
        (ReadHead::Rejected(ErrorKind::Status), input)
    } else {
        let rest = input.skip(raw.len as int);
        match headers_model(raw.headers) {
            None => (ReadHead::Rejected(ErrorKind::Header), rest),
            Some(g) => (
                ReadHead::Complete(
                    ResponseHeadView { status: raw.code, version: minor_version(raw.version), headers: g },
                    raw.len,
                ),
                rest,
            ),
        }
    }
}

/// What reading a response head from `input` gives, and what is left of
/// the input: nothing is consumed unless the head is complete.
pub open spec fn read_response(input: Seq<u8>) -> (ReadHead<ResponseHeadView>, Seq<u8>) {
    if input.len() == 0 {
        (ReadHead::Incomplete, input)
    } else {
        match parsed_response(input, MAX_HEADERS) {
            Err(e) => (ReadHead::Rejected(httparse_error_kind(e)), input),
            Ok(None) => (ReadHead::Incomplete, input),
            Ok(Some(raw)) => complete_response(input, raw),
        }
    }
}

/// Whether a parse result is the outcome described.
pub open spec fn request_outcome(r: Result<Option<(RequestHead, usize)>, Error>, o: ReadHead<RequestHeadView>) -> bool {
    match o {
        ReadHead::Incomplete => r matches Ok(None),
        ReadHead::Rejected(k) => r matches Err(e) && e.kind() == k,
        ReadHead::Complete(h, n) => r matches Ok(Some((head, len))) && request_head_view(head) == h && len == n,
    }
}

pub open spec fn response_outcome(r: Result<Option<(ResponseHead, usize)>, Error>, o: ReadHead<ResponseHeadView>) -> bool {
    match o {
        ReadHead::Incomplete => r matches Ok(None),
        ReadHead::Rejected(k) => r matches Err(e) && e.kind() == k,
        ReadHead::Complete(h, n) => r matches Ok(Some((head, len))) && response_head_view(head) == h && len == n,
    }
}

fn version_of(v: u8) -> (r: Version)
    ensures
        r == minor_version(v),
{
    if v == 1 {
        Version::Http11
    } else {
        Version::Http10
    }
}

/// The method of an exchange, as bytes.
pub open spec fn method_view(m: Option<Method>) -> Option<Seq<u8>> {
    match m {
        Some(m) => Some(m@),
        None => None,
    }
}

/// Turns a complete request head, read from the front of `buf`, into a
/// `RequestHead`, consuming the head from the buffer.
pub fn finish_request(buf: &mut BytesMut, raw: RawRequest) -> (r: ParseResult<RequestHead>)
    requires
        raw.len <= buffer_contents(*old(buf)).len(),
        raw.headers@.len() <= MAX_HEADERS,
    ensures
        request_outcome(r, complete_request(buffer_contents(*old(buf)), raw@).0),
        buffer_contents(*final(buf)) == complete_request(buffer_contents(*old(buf)), raw@).1,
        r matches Ok(Some((h, n))) ==> n <= buffer_contents(*old(buf)).len()
            && header_groups(h.headers).len() <= raw.headers@.len(),
{
    let method = match Method::from_bytes(raw.method.as_slice()) {
        Ok(m) => m,
        Err(e) => return Err(e),
    };
    let version = version_of(raw.version);
    let len = raw.len;
    buffer_consume(buf, len);
    let uri = match Uri::from_bytes(raw.path.as_slice()) {
        Ok(u) => u,
        Err(e) => return Err(e),
    };
    let headers = match headers_from_raw(&raw.headers) {
        Ok(h) => h,
        Err(e) => return Err(e),
    };
    Ok(Some((RequestHead { method, uri, version, headers }, len)))
}

/// Turns a complete response head, read from the front of `buf`, into a
/// `ResponseHead`, consuming the head from the buffer.
pub fn finish_response(buf: &mut BytesMut, raw: RawResponse) -> (r: ParseResult<ResponseHead>)
    requires
        raw.len <= buffer_contents(*old(buf)).len(),
        raw.headers@.len() <= MAX_HEADERS,
    ensures
        response_outcome(r, complete_response(buffer_contents(*old(buf)), raw@).0),
        buffer_contents(*final(buf)) == complete_response(buffer_contents(*old(buf)), raw@).1,
        r matches Ok(Some((h, n))) ==> n <= buffer_contents(*old(buf)).len()
            && header_groups(h.headers).len() <= raw.headers@.len(),
{
    let status = match StatusCode::from_u16(raw.code) {
        Ok(s) => s,
        Err(e) => return Err(e),
    };
    let version = version_of(raw.version);
    let len = raw.len;
    buffer_consume(buf, len);
    let headers = match headers_from_raw(&raw.headers) {
        Ok(h) => h,
        Err(e) => return Err(e),
    };
    Ok(Some((ResponseHead { status, version, headers }, len)))
}

impl Http1Transaction for ServerTransaction {
    type Incoming = RequestHead;
    type Outgoing = ResponseHead;

    open spec fn can_encode(head: ResponseHead, has_body: bool, method: Option<Method>) -> bool {
        &&& method is Some
        &&& head.version == Version::Http10 || head.version == Version::Http11
        &&& can_have_body(method.unwrap()@, head.status@) ==> room_for_name(header_groups(head.headers))
    }

    fn parse(buf: &mut BytesMut) -> (r: ParseResult<RequestHead>)
        ensures
            request_outcome(r, read_request(buffer_contents(*old(buf))).0),
            buffer_contents(*final(buf)) == read_request(buffer_contents(*old(buf))).1,
            r matches Ok(Some((h, n))) ==> n <= buffer_contents(*old(buf)).len()
                && header_groups(h.headers).len() <= MAX_HEADERS,
    {
        let data = buffer_bytes(buf);
        if data.len() == 0 {
            return Ok(None);
        }
        let raw = match parse_request_head(data, MAX_HEADERS) {
            Err(e) => return Err(Error::from_httparse(e)),
            Ok(None) => return Ok(None),
            Ok(Some(raw)) => raw,
        };
        finish_request(buf, raw)
    }

    fn decoder(head: &RequestHead, method: &mut Option<Method>) -> (r: Result<Decoder, Error>)
        ensures
            method_view(*final(method)) == Some(head.method@),
            match request_decoder(header_groups(head.headers)) {
                Some(d) => r matches Ok(d2) && d2 == d,
                None => r matches Err(e) && e is Header,
            },
    {
        *method = Some(head.method.duplicate());
        match framing_from_headers(&head.headers, false) {
            Some(Some(d)) => Ok(d),
            Some(None) => Ok(Decoder::Length(0)),
            None => Err(Error::Header),
        }
    }

    fn encode(
        head: ResponseHead,
        has_body: bool,
        method: &mut Option<Method>,
        dst: &mut Vec<u8>,
    ) -> (e: Encoder)
        ensures
            *final(method) == *old(method),
            e == response_framing(
                header_groups(head.headers),
                has_body,
                old(method).unwrap()@,
                head.status@,
            ).1,
            exists|secs: u64|
                secs <= last_date_second() && final(dst)@ == old(dst)@ + response_head_bytes(
                    head.version,
                    head.status@,
                    response_framing(
                        header_groups(head.headers),
                        has_body,
                        old(method).unwrap()@,
                        head.status@,
                    ).0,
                    http_date_text(secs),
                ),
    {
        let now = current_date();
        match method {
            Some(m) => ServerTransaction::encode_with_date(head, has_body, m, now.as_slice(), dst),
            None => Encoder::Length(0),
        }
    }
}

impl Http1Transaction for ClientTransaction {
    type Incoming = ResponseHead;
    type Outgoing = RequestHead;

    open spec fn can_encode(head: RequestHead, has_body: bool, method: Option<Method>) -> bool {
        has_body ==> room_for_name(header_groups(head.headers))
    }

    fn parse(buf: &mut BytesMut) -> (r: ParseResult<ResponseHead>)
        ensures
            response_outcome(r, read_response(buffer_contents(*old(buf))).0),
            buffer_contents(*final(buf)) == read_response(buffer_contents(*old(buf))).1,
            r matches Ok(Some((h, n))) ==> n <= buffer_contents(*old(buf)).len()
                && header_groups(h.headers).len() <= MAX_HEADERS,
    {
        let data = buffer_bytes(buf);
        if data.len() == 0 {
            return Ok(None);
        }
        let raw = match parse_response_head(data, MAX_HEADERS) {
            Err(e) => return Err(Error::from_httparse(e)),
            Ok(None) => return Ok(None),
            Ok(Some(raw)) => raw,
        };
        finish_response(buf, raw)
    }

    fn decoder(inc: &ResponseHead, method: &mut Option<Method>) -> (r: Result<Decoder, Error>)
        ensures
            *final(method) == *old(method),
            match response_decoder(method_view(*old(method)), inc.status@, header_groups(inc.headers)) {
                Some(d) => r matches Ok(d2) && d2 == d,
                None => r matches Err(e) && e is Header,
            },
    {
        proof {
            reveal_strlit("HEAD");
            reveal_strlit("CONNECT");
        }
        let code = inc.status.as_u16();
        let skip = match method {
            Some(m) => {
                let b = m.as_bytes();
                bytes_eq(b, lit("HEAD")) || (bytes_eq(b, lit("CONNECT")) && 200 <= code && code
                    <= 299)
            },
            None => false,
        };
        if skip {
            return Ok(Decoder::Length(0));
        }
        if (100 <= code && code <= 199) || code == 204 || code == 304 {
            return Ok(Decoder::Length(0));
        }
        match framing_from_headers(&inc.headers, true) {
            Some(Some(d)) => Ok(d),
            Some(None) => Ok(Decoder::Eof),
            None => Err(Error::Header),
        }
    }

    fn encode(
        head: RequestHead,
        has_body: bool,
        method: &mut Option<Method>,
        dst: &mut Vec<u8>,
    ) -> (e: Encoder)
        ensures
            method_view(*final(method)) == Some(head.method@),
            e == request_framing(header_groups(head.headers), has_body).1,
            final(dst)@ == old(dst)@ + request_head_bytes(
                head.method@,
                head.uri@,
                request_framing(header_groups(head.headers), has_body).0,
            ),
    {
        *method = Some(head.method.duplicate());
        ClientTransaction::encode_request(head, has_body, dst)
    }
}

} // verus!
