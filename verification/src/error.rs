//! Error and Result module.
use vstd::prelude::*;
use std::io::Error as IoError;
use std::str::Utf8Error;
use http::uri::InvalidUri;
use h2::Error as H2Error;

verus! {

#[verifier::external_type_specification]
#[verifier::external_body]
pub struct ExIoError(IoError);

#[verifier::external_type_specification]
#[verifier::external_body]
pub struct ExUtf8Error(Utf8Error);

#[verifier::external_type_specification]
#[verifier::external_body]
pub struct ExInvalidUri(InvalidUri);

#[verifier::external_type_specification]
#[verifier::external_body]
pub struct ExH2Error(H2Error);

/// Result type often returned from methods that can have `Error`s.
pub type Result<T> = std::result::Result<T, Error>;

/// A set of errors that can occur parsing HTTP streams.
#[derive(Debug)]
pub enum Error {
    /// An invalid `Method`, such as `GE,T`.
    Method,
    /// An invalid `Uri`, such as `exam ple.domain`.
    Uri(InvalidUri),
    /// An invalid `HttpVersion`, such as `HTP/1.1`
    Version,
    /// An invalid `Header`.
    Header,
    /// A message head is too large to be reasonable.
    TooLarge,
    /// A message reached EOF, but is not complete.
    Incomplete,
    /// An invalid `Status`, such as `1337 ELITE`.
    Status,
    /// A timeout occurred waiting for an IO event.
    Timeout,
    /// A protocol upgrade was encountered, but not yet supported.
    Upgrade,
    /// An HTTP/2 error.
    Http2(Http2),
    /// An `io::Error` that occurred while trying to read or write to a network stream.
    Io(IoError),
    /// Parsing a field as string failed
    Utf8(Utf8Error),
    __Nonexhaustive(Void),
}

/// Wraps an `h2::Error`: a mostly opaque type, kept for what it prints.
#[derive(Debug)]
pub struct Http2 {
    pub inner: H2Error,
}

/// A type with no value outside this crate.
#[derive(Debug)]
pub struct Void(());

/// The kinds of `Error`, without the values that some of them carry.
#[derive(Clone, Copy, Debug, PartialEq, Eq, Structural)]
pub enum ErrorKind {
    Method,
    Uri,
    Version,
    Header,
    TooLarge,
    Incomplete,
    Status,
    Timeout,
    Upgrade,
    Http2,
    Io,
    Utf8,
    Nonexhaustive,
}

/// The ways in which the HTTP/1 head parser can reject its input
/// (the variants of `httparse::Error`).
#[derive(Clone, Copy, Debug, PartialEq, Eq, Structural)]
pub enum HttparseError {
    /// Invalid byte in header name.
    HeaderName,
    /// Invalid byte in header value.
    HeaderValue,
    /// Invalid byte in new line.
    NewLine,
    /// Invalid byte in Response status.
    Status,
    /// Invalid byte where token is required.
    Token,
    /// Parsed more headers than provided buffer can contain.
    TooManyHeaders,
    /// Invalid byte in HTTP version.
    Version,
}

/// The kind of error that a parser rejection becomes.
pub open spec fn httparse_error_kind(e: HttparseError) -> ErrorKind {
    match e {
        HttparseError::HeaderName => ErrorKind::Header,
        HttparseError::HeaderValue => ErrorKind::Header,
        HttparseError::NewLine => ErrorKind::Header,
        HttparseError::Token => ErrorKind::Header,
        HttparseError::Status => ErrorKind::Status,
        HttparseError::TooManyHeaders => ErrorKind::TooLarge,
        HttparseError::Version => ErrorKind::Version,
    }
}

/// The text that `Error::description` gives for the kinds that carry no value.
pub open spec fn description_text(k: ErrorKind) -> Seq<char> {
    match k {
        ErrorKind::Method => "invalid Method specified"@,
        ErrorKind::Version => "invalid HTTP version specified"@,
        ErrorKind::Header => "invalid Header provided"@,
        ErrorKind::TooLarge => "message head is too large"@,
        ErrorKind::Status => "invalid Status provided"@,
        ErrorKind::Incomplete => "message is incomplete"@,
        ErrorKind::Timeout => "timeout"@,
        ErrorKind::Upgrade => "unsupported protocol upgrade"@,
        _ => Seq::empty(),
    }
}

pub open spec fn carries_value(k: ErrorKind) -> bool {
    k == ErrorKind::Uri || k == ErrorKind::Http2 || k == ErrorKind::Io || k == ErrorKind::Utf8
}

/// What `std::error::Error::description` gives for a UTF-8 error.
pub uninterp spec fn utf8_description_text(e: Utf8Error) -> Seq<char>;

/// What `std::error::Error::description` gives for an invalid URI.
pub uninterp spec fn uri_description_text(e: InvalidUri) -> Seq<char>;

/// `std::error::Error::description` of an `std::io::Error`. Nothing is
/// claimed of the text: for an error made with a payload of the caller's
/// own type, it is whatever that payload's `description` gives.
#[verifier::external_body]
#[allow(deprecated)]
fn io_description(e: &IoError) -> &str {
    std::error::Error::description(e)
}

/// `std::error::Error::description` of an `std::str::Utf8Error`: a text
/// that depends on the error alone, left unsaid.
#[verifier::external_body]
#[allow(deprecated)]
fn utf8_description(e: &Utf8Error) -> (r: &str)
    ensures
        r@ == utf8_description_text(*e),
{
    std::error::Error::description(e)
}

/// `std::error::Error::description` of an `http::uri::InvalidUri` (std's
/// default text, the same for every value): a text that depends on the
/// error alone, left unsaid.
#[verifier::external_body]
#[allow(deprecated)]
fn uri_description(e: &InvalidUri) -> (r: &str)
    ensures
        r@ == uri_description_text(*e),
{
    std::error::Error::description(e)
}

/// `std::error::Error::description` of an `h2::Error`. Nothing is claimed
/// of the text: for an I/O error inside, it is that error's description,
/// which a payload of the caller's own type decides.
#[verifier::external_body]
#[allow(deprecated)]
fn h2_description(e: &H2Error) -> &str {
    std::error::Error::description(e)
}

/// The `Display` text of an `std::io::Error`. Nothing is claimed of it.
#[verifier::external_body]
fn io_display(e: &IoError) -> String {
    format!("{}", e)
}

/// The `Display` text of an `http::uri::InvalidUri`. Nothing is claimed of it.
#[verifier::external_body]
fn uri_display(e: &InvalidUri) -> String {
    format!("{}", e)
}

/// The `Display` text of an `std::str::Utf8Error`. Nothing is claimed of it.
#[verifier::external_body]
fn utf8_display(e: &Utf8Error) -> String {
    format!("{}", e)
}

/// The error that an `Error` reports as its cause.
#[derive(Debug)]
pub enum Cause<'a> {
    Io(&'a IoError),
    Uri(&'a InvalidUri),
    Utf8(&'a Utf8Error),
}

impl Error {
    pub open spec fn kind(&self) -> ErrorKind {
        match self {
            Error::Method => ErrorKind::Method,
            Error::Uri(_) => ErrorKind::Uri,
            Error::Version => ErrorKind::Version,
            Error::Header => ErrorKind::Header,
            Error::TooLarge => ErrorKind::TooLarge,
            Error::Incomplete => ErrorKind::Incomplete,
            Error::Status => ErrorKind::Status,
            Error::Timeout => ErrorKind::Timeout,
            Error::Upgrade => ErrorKind::Upgrade,
            Error::Http2(_) => ErrorKind::Http2,
            Error::Io(_) => ErrorKind::Io,
            Error::Utf8(_) => ErrorKind::Utf8,
            Error::__Nonexhaustive(_) => ErrorKind::Nonexhaustive,
        }
    }

    /// The error's kind.
    pub fn error_kind(&self) -> (k: ErrorKind)
        ensures
            k == self.kind(),
    {
        match self {
            Error::Method => ErrorKind::Method,
            Error::Uri(_) => ErrorKind::Uri,
            Error::Version => ErrorKind::Version,
            Error::Header => ErrorKind::Header,
            Error::TooLarge => ErrorKind::TooLarge,
            Error::Incomplete => ErrorKind::Incomplete,
            Error::Status => ErrorKind::Status,
            Error::Timeout => ErrorKind::Timeout,
            Error::Upgrade => ErrorKind::Upgrade,
            Error::Http2(_) => ErrorKind::Http2,
            Error::Io(_) => ErrorKind::Io,
            Error::Utf8(_) => ErrorKind::Utf8,
            Error::__Nonexhaustive(_) => ErrorKind::Nonexhaustive,
        }
    }

    /// A short description of the error. For the kinds that carry a value it
    /// is that value's description; for the others it is a fixed text, at
    /// least five characters long.
    pub fn description(&self) -> (r: &str)
        requires
            self.kind() != ErrorKind::Nonexhaustive,
        ensures
            !carries_value(self.kind()) ==> r@ == description_text(self.kind()),
            !carries_value(self.kind()) ==> r@.len() >= 5,
            *self matches Error::Uri(x) ==> r@ == uri_description_text(x),
            *self matches Error::Utf8(x) ==> r@ == utf8_description_text(x),
    {
        proof {
            reveal_strlit("invalid Method specified");
            reveal_strlit("invalid HTTP version specified");
            reveal_strlit("invalid Header provided");
            reveal_strlit("message head is too large");
            reveal_strlit("invalid Status provided");
            reveal_strlit("message is incomplete");
            reveal_strlit("timeout");
            reveal_strlit("unsupported protocol upgrade");
        }
        match self {
            Error::Method => "invalid Method specified",
            Error::Version => "invalid HTTP version specified",
            Error::Header => "invalid Header provided",
            Error::TooLarge => "message head is too large",
            Error::Status => "invalid Status provided",
            Error::Incomplete => "message is incomplete",
            Error::Timeout => "timeout",
            Error::Upgrade => "unsupported protocol upgrade",
            Error::Http2(e) => h2_description(&e.inner),
            Error::Uri(e) => uri_description(e),
            Error::Io(e) => io_description(e),
            Error::Utf8(e) => utf8_description(e),
            Error::__Nonexhaustive(_) => "",
        }
    }

    /// The text that the error displays: the wrapped error's own display for
    /// a URI, I/O or UTF-8 error, and the description for the other kinds.
    pub fn display_text(&self) -> (r: String)
        requires
            self.kind() != ErrorKind::Nonexhaustive,
        ensures
            !carries_value(self.kind()) ==> r@ == description_text(self.kind()),
    {
        match self {
            Error::Uri(e) => uri_display(e),
            Error::Io(e) => io_display(e),
            Error::Utf8(e) => utf8_display(e),
            _ => self.description().to_owned(),
        }
    }

    /// The wrapped error that this error reports as its cause: the I/O,
    /// URI or UTF-8 error it carries; none for the other kinds.
    pub fn cause(&self) -> (r: Option<Cause<'_>>)
        requires
            self.kind() != ErrorKind::Nonexhaustive,
        ensures
            match *self {
                Error::Io(x) => r matches Some(Cause::Io(y)) && *y == x,
                Error::Uri(x) => r matches Some(Cause::Uri(y)) && *y == x,
                Error::Utf8(x) => r matches Some(Cause::Utf8(y)) && *y == x,
                _ => r is None,
            },
    {
        match self {
            Error::Io(e) => Some(Cause::Io(e)),
            Error::Uri(e) => Some(Cause::Uri(e)),
            Error::Utf8(e) => Some(Cause::Utf8(e)),
            _ => None,
        }
    }

    /// The error that a parser rejection becomes.
    pub fn from_httparse(e: HttparseError) -> (r: Error)
        ensures
            r.kind() == httparse_error_kind(e),
    {
        match e {
            HttparseError::HeaderName | HttparseError::HeaderValue | HttparseError::NewLine
            | HttparseError::Token => Error::Header,
            HttparseError::Status => Error::Status,
            HttparseError::TooManyHeaders => Error::TooLarge,
            HttparseError::Version => Error::Version,
        }
    }
}

impl From<HttparseError> for Error {
    fn from(err: HttparseError) -> Error {
        Error::from_httparse(err)
    }
}

impl vstd::std_specs::convert::FromSpecImpl<HttparseError> for Error {
    open spec fn obeys_from_spec() -> bool {
        true
    }

    open spec fn from_spec(err: HttparseError) -> Error {
        match err {
            HttparseError::HeaderName => Error::Header,
            HttparseError::HeaderValue => Error::Header,
            HttparseError::NewLine => Error::Header,
            HttparseError::Token => Error::Header,
            HttparseError::Status => Error::Status,
            HttparseError::TooManyHeaders => Error::TooLarge,
            HttparseError::Version => Error::Version,
        }
    }
}

impl From<InvalidUri> for Error {
    fn from(err: InvalidUri) -> Error {
        Error::Uri(err)
    }
}

impl vstd::std_specs::convert::FromSpecImpl<InvalidUri> for Error {
    open spec fn obeys_from_spec() -> bool {
        true
    }

    open spec fn from_spec(err: InvalidUri) -> Error {
        Error::Uri(err)
    }
}

impl From<IoError> for Error {
    fn from(err: IoError) -> Error {
        Error::Io(err)
    }
}

impl vstd::std_specs::convert::FromSpecImpl<IoError> for Error {
    open spec fn obeys_from_spec() -> bool {
        true
    }

    open spec fn from_spec(err: IoError) -> Error {
        Error::Io(err)
    }
}

impl From<Utf8Error> for Error {
    fn from(err: Utf8Error) -> Error {
        Error::Utf8(err)
    }
}

impl vstd::std_specs::convert::FromSpecImpl<Utf8Error> for Error {
    open spec fn obeys_from_spec() -> bool {
        true
    }

    open spec fn from_spec(err: Utf8Error) -> Error {
        Error::Utf8(err)
    }
}

impl From<H2Error> for Error {
    fn from(err: H2Error) -> Error {
        Error::Http2(Http2 { inner: err })
    }
}

impl vstd::std_specs::convert::FromSpecImpl<H2Error> for Error {
    open spec fn obeys_from_spec() -> bool {
        true
    }

    open spec fn from_spec(err: H2Error) -> Error {
        Error::Http2(Http2 { inner: err })
    }
}

} // verus!
