//! Pieces pertaining to the HTTP message protocol.
use vstd::prelude::*;
use bytes::BytesMut;
use http::header::{HeaderMap, HeaderValue};
use crate::error::Error;
use crate::headers::{bytes_list, header_groups, header_values, new_header_map, values_of};
use crate::message::{Method, StatusCode, Uri, Version};
use crate::text::{ascii, bytes_eq, extend, is_lower_token, lit};

pub mod h1;
pub mod http2;
pub mod head_laws;
pub mod laws;

verus! {

pub open spec fn connection_name() -> Seq<u8> {
    ascii("connection"@)
}

pub open spec fn expect_name() -> Seq<u8> {
    ascii("expect"@)
}

/// The name `connection`.
pub fn connection() -> (r: &'static [u8])
    ensures
        r@ == connection_name(),
        is_lower_token(r@),
{
    proof {
        reveal_strlit("connection");
    }
    lit("connection")
}

/// The name `expect`.
pub fn expect() -> (r: &'static [u8])
    ensures
        r@ == expect_name(),
        is_lower_token(r@),
{
    proof {
        reveal_strlit("expect");
    }
    lit("expect")
}

/// The first value of a name, if it has one.
pub open spec fn first_value(g: Seq<(Seq<u8>, Seq<Seq<u8>>)>, k: Seq<u8>) -> Option<Seq<u8>> {
    if values_of(g, k).len() > 0 {
        Some(values_of(g, k)[0])
    } else {
        None
    }
}

/// Whether a connection stays open after a message of version `v` whose
/// first `Connection` value is `conn`: an HTTP/1.0 message asks for it with
/// `keep-alive`, an HTTP/1.1 message refuses it with `close`.
pub open spec fn keeps_alive(v: Version, conn: Option<Seq<u8>>) -> bool {
    if v == Version::Http10 {
        match conn {
            Some(c) => c == ascii("keep-alive"@),
            None => false,
        }
    } else if v == Version::Http11 {
        match conn {
            Some(c) => c != ascii("close"@),
            None => true,
        }
    } else {
        true
    }
}

/// Whether a message of version `v` whose first `Expect` value is `expect`
/// waits for a `100 Continue` before sending its body.
pub open spec fn expects_100(v: Version, expect: Option<Seq<u8>>) -> bool {
    v == Version::Http11 && expect == Some(ascii("100-continue"@))
}

fn first_of(values: &Vec<Vec<u8>>) -> (r: Option<&[u8]>)
    ensures
        r matches Some(v) ==> bytes_list(values@).len() > 0 && v@ == bytes_list(values@)[0],
        r is None ==> bytes_list(values@).len() == 0,
{
    if values.len() > 0 {
        Some(values[0].as_slice())
    } else {
        None
    }
}

/// Checks if a connection should be kept alive.
pub fn should_keep_alive(version: Version, headers: &HeaderMap<HeaderValue>) -> (r: bool)
    ensures
        r == keeps_alive(version, first_value(header_groups(*headers), connection_name())),
{
    let values = header_values(headers, connection());
    let conn = first_of(&values);
    proof {
        reveal_strlit("keep-alive");
        reveal_strlit("close");
    }
    match version {
        Version::Http10 => match conn {
            None => false,
            Some(val) => bytes_eq(val, lit("keep-alive")),
        },
        Version::Http11 => match conn {
            Some(val) => !bytes_eq(val, lit("close")),
            None => true,
        },
        _ => true,
    }
}

/// Checks if a connection is expecting a `100 Continue` before sending its body.
pub fn expecting_continue(version: Version, headers: &HeaderMap<HeaderValue>) -> (r: bool)
    ensures
        r == expects_100(version, first_value(header_groups(*headers), expect_name())),
{
    let values = header_values(headers, expect());
    let value = first_of(&values);
    proof {
        reveal_strlit("100-continue");
    }
    match (version, value) {
        (Version::Http11, Some(v)) => bytes_eq(v, lit("100-continue")),
        _ => false,
    }
}

/// The decimal digits of a number.
pub open spec fn decimal(n: nat) -> Seq<u8>
    decreases n,
{
    if n < 10 {
        seq![(48 + n) as u8]
    } else {
        decimal(n / 10).push((48 + n % 10) as u8)
    }
}

/// The numbers of a byte list, separated by `, `.
pub open spec fn list_items(b: Seq<u8>) -> Seq<u8>
    decreases b.len(),
{
    if b.len() == 0 {
        Seq::empty()
    } else if b.len() == 1 {
        decimal(b[0] as nat)
    } else {
        list_items(b.drop_last()) + ascii(", "@) + decimal(b.last() as nat)
    }
}

/// The numbers of a byte list, each followed by `, `.
pub open spec fn leading_items(b: Seq<u8>) -> Seq<u8>
    decreases b.len(),
{
    if b.len() == 0 {
        Seq::empty()
    } else {
        leading_items(b.drop_last()) + decimal(b.last() as nat) + ascii(", "@)
    }
}

/// How a byte string is shown in debug output: as a list of numbers, and,
/// when it is longer than 32 bytes, as its first 32 numbers and its length.
pub open spec fn debug_truncated(b: Seq<u8>) -> Seq<u8> {
    if b.len() > 32 {
        ascii("["@) + leading_items(b.take(32)) + ascii("... "@) + decimal(b.len()) + ascii("]"@)
    } else {
        ascii("["@) + list_items(b) + ascii("]"@)
    }
}

/// Appends the decimal digits of `n`.
pub fn push_decimal(dst: &mut Vec<u8>, n: u64)
    ensures
        final(dst)@ == old(dst)@ + decimal(n as nat),
    decreases n,
{
    if n < 10 {
        dst.push((48 + n) as u8);
    } else {
        push_decimal(dst, n / 10);
        dst.push((48 + n % 10) as u8);
    }
}

/// A byte string shown in debug output with at most 32 of its bytes.
pub struct DebugTruncate<'a>(pub &'a [u8]);

impl<'a> DebugTruncate<'a> {
    /// The debug text of the byte string.
    pub fn text(&self) -> (r: Vec<u8>)
        ensures
            r@ == debug_truncated(self.0@),
    {
        proof {
            reveal_strlit("[");
            reveal_strlit("]");
            reveal_strlit(", ");
            reveal_strlit("... ");
        }
        let bytes = self.0;
        let mut out: Vec<u8> = Vec::new();
        extend(&mut out, lit("["));
        if bytes.len() > 32 {
            let mut i: usize = 0;
            while i < 32
                invariant
                    bytes@.len() > 32,
                    i <= 32,
                    out@ == ascii("["@) + leading_items(bytes@.take(i as int)),
                decreases 32 - i,
            {
                proof {
                    reveal_strlit(", ");
                }
                push_decimal(&mut out, bytes[i] as u64);
                extend(&mut out, lit(", "));
                proof {
                    assert(bytes@.take(i + 1).drop_last() =~= bytes@.take(i as int));
                }
                i = i + 1;
            }
            extend(&mut out, lit("... "));
            push_decimal(&mut out, bytes.len() as u64);
        } else {
            let mut i: usize = 0;
            while i < bytes.len()
                invariant
                    i <= bytes@.len(),
                    out@ == ascii("["@) + list_items(bytes@.take(i as int)),
                decreases bytes@.len() - i,
            {
                proof {
                    reveal_strlit(", ");
                }
                if i > 0 {
                    extend(&mut out, lit(", "));
                }
                push_decimal(&mut out, bytes[i] as u64);
                proof {
                    assert(bytes@.take(i + 1).drop_last() =~= bytes@.take(i as int));
                }
                i = i + 1;
            }
            assert(bytes@.take(bytes@.len() as int) =~= bytes@);
        }
        extend(&mut out, lit("]"));
        out
    }
}

/// The head of a request: its method, target, version and headers.
#[derive(Debug)]
pub struct RequestHead {
    pub method: Method,
    pub uri: Uri,
    pub version: Version,
    pub headers: HeaderMap<HeaderValue>,
}

/// The head of a response: its status, version and headers.
#[derive(Debug)]
pub struct ResponseHead {
    pub status: StatusCode,
    pub version: Version,
    pub headers: HeaderMap<HeaderValue>,
}

impl RequestHead {
    /// The head of `GET / HTTP/1.1` with no headers.
    pub fn new() -> (r: RequestHead)
        ensures
            r.method@ == ascii("GET"@),
            r.uri@ == seq![47u8],
            r.version == Version::Http11,
            header_groups(r.headers) == Seq::<(Seq<u8>, Seq<Seq<u8>>)>::empty(),
    {
        RequestHead {
            method: Method::get(),
            uri: Uri::root(),
            version: Version::Http11,
            headers: new_header_map(),
        }
    }
}

impl ResponseHead {
    /// The head of `HTTP/1.1 200 OK` with no headers.
    pub fn new() -> (r: ResponseHead)
        ensures
            r.status@ == 200,
            r.version == Version::Http11,
            header_groups(r.headers) == Seq::<(Seq<u8>, Seq<Seq<u8>>)>::empty(),
    {
        ResponseHead { status: StatusCode::ok(), version: Version::Http11, headers: new_header_map() }
    }
}

/// What both kinds of message head can tell about the connection.
pub trait Head {
    fn expects_continue(&self) -> bool;

    fn keep_alive(&self) -> bool;
}

impl Head for RequestHead {
    fn expects_continue(&self) -> (r: bool)
        ensures
            r == expects_100(self.version, first_value(header_groups(self.headers), expect_name())),
    {
        expecting_continue(self.version, &self.headers)
    }

    fn keep_alive(&self) -> (r: bool)
        ensures
            r == keeps_alive(self.version, first_value(header_groups(self.headers), connection_name())),
    {
        should_keep_alive(self.version, &self.headers)
    }
}

impl Head for ResponseHead {
    fn expects_continue(&self) -> (r: bool)
        ensures
            r == expects_100(self.version, first_value(header_groups(self.headers), expect_name())),
    {
        expecting_continue(self.version, &self.headers)
    }

    fn keep_alive(&self) -> (r: bool)
        ensures
            r == keeps_alive(self.version, first_value(header_groups(self.headers), connection_name())),
    {
        should_keep_alive(self.version, &self.headers)
    }
}

/// The result of reading a message head: `None` while it is incomplete,
/// else the head and the number of bytes it took.
pub type ParseResult<T> = Result<Option<(T, usize)>, Error>;

/// The server side of an HTTP/1 connection: it reads requests and writes responses.
#[derive(Debug)]
pub struct ServerTransaction;

/// The client side of an HTTP/1 connection: it writes requests and reads responses.
#[derive(Debug)]
pub struct ClientTransaction;

/// The three steps of one side of an HTTP/1 exchange.
pub trait Http1Transaction {
    type Incoming: Head;
    type Outgoing: Head;

    /// What `encode` needs of its head, of whether it has a body, and of the
    /// method of the exchange.
    spec fn can_encode(head: Self::Outgoing, has_body: bool, method: Option<Method>) -> bool;

    /// Reads a message head from the front of `bytes`, consuming it.
    fn parse(bytes: &mut BytesMut) -> ParseResult<Self::Incoming>;

    /// How the body of a message with this head is delimited.
    fn decoder(head: &Self::Incoming, method: &mut Option<Method>) -> Result<h1::Decoder, Error>;

    /// Writes a message head to `dst`, and says how its body is to be written.
    fn encode(
        head: Self::Outgoing,
        has_body: bool,
        method: &mut Option<Method>,
        dst: &mut Vec<u8>,
    ) -> h1::Encoder
        requires
            Self::can_encode(head, has_body, *old(method)),
    ;
}

} // verus!
