use http::header::{HeaderMap, HeaderValue, CONNECTION, EXPECT};
use hyper_proto::error::{Cause, Error, ErrorKind, HttparseError};
use hyper_proto::message::{Method, StatusCode, Uri, Version};
use hyper_proto::proto::http2::{pipe_step, BodyPoll, Cursor, PipeStep, SendBuf};
use hyper_proto::proto::{expecting_continue, should_keep_alive, DebugTruncate, Head, RequestHead};
use hyper_proto::text::extend;

#[test]
fn test_should_keep_alive() {
    let mut headers = HeaderMap::new();

    assert!(!should_keep_alive(Version::Http10, &headers));
    assert!(should_keep_alive(Version::Http11, &headers));

    headers.insert(CONNECTION, HeaderValue::from_static("close"));
    assert!(!should_keep_alive(Version::Http10, &headers));
    assert!(!should_keep_alive(Version::Http11, &headers));

    headers.insert(CONNECTION, HeaderValue::from_static("keep-alive"));
    assert!(should_keep_alive(Version::Http10, &headers));
    assert!(should_keep_alive(Version::Http11, &headers));
}

#[test]
fn test_expecting_continue() {
    let mut headers = HeaderMap::new();

    assert!(!expecting_continue(Version::Http10, &headers));
    assert!(!expecting_continue(Version::Http11, &headers));

    headers.insert(EXPECT, HeaderValue::from_static("100-continue"));
    assert!(!expecting_continue(Version::Http10, &headers));
    assert!(expecting_continue(Version::Http11, &headers));
}

#[test]
fn keep_alive_other_versions_and_values() {
    let mut headers = HeaderMap::new();
    assert!(should_keep_alive(Version::H2, &headers));
    headers.insert(CONNECTION, HeaderValue::from_static("Keep-Alive"));
    assert!(!should_keep_alive(Version::Http10, &headers));
    headers.insert(CONNECTION, HeaderValue::from_static("upgrade"));
    assert!(should_keep_alive(Version::Http11, &headers));
}

#[test]
fn head_trait_on_request() {
    let mut head = RequestHead::new();
    head.headers.insert(EXPECT, HeaderValue::from_static("100-continue"));
    head.headers.insert(CONNECTION, HeaderValue::from_static("close"));
    assert!(head.expects_continue());
    assert!(!head.keep_alive());
}

#[test]
#[allow(deprecated)]
fn test_from() {
    let cases = [
        (HttparseError::HeaderName, ErrorKind::Header),
        (HttparseError::HeaderValue, ErrorKind::Header),
        (HttparseError::NewLine, ErrorKind::Header),
        (HttparseError::Status, ErrorKind::Status),
        (HttparseError::Token, ErrorKind::Header),
        (HttparseError::TooManyHeaders, ErrorKind::TooLarge),
        (HttparseError::Version, ErrorKind::Version),
    ];
    for (from, kind) in cases {
        let e = Error::from(from);
        assert_eq!(e.error_kind(), kind);
        assert!(e.description().len() >= 5);
    }

    let orig = std::io::Error::new(std::io::ErrorKind::Other, "other");
    let desc = std::error::Error::description(&orig).to_owned();
    let e = Error::from(orig);
    assert!(matches!(e, Error::Io(..)));
    let cause_desc = match e.cause() {
        Some(Cause::Io(inner)) => std::error::Error::description(inner).to_owned(),
        other => panic!("{:?}", other),
    };
    assert_eq!(cause_desc, desc);
    assert_eq!(e.description(), desc);
}

#[test]
#[allow(deprecated)]
fn test_cause() {
    let orig = std::io::Error::new(std::io::ErrorKind::Other, "other");
    let desc = std::error::Error::description(&orig).to_owned();
    let e = Error::Io(orig);
    match e.cause() {
        Some(Cause::Io(inner)) => assert_eq!(std::error::Error::description(inner), desc),
        other => panic!("{:?}", other),
    }
}

#[test]
#[allow(deprecated)]
fn causes_of_each_kind() {
    let utf8 = std::str::from_utf8(&[0xffu8]).unwrap_err();
    let e = Error::from(utf8);
    assert!(matches!(e.cause(), Some(Cause::Utf8(u)) if *u == utf8));
    assert_eq!(e.description(), std::error::Error::description(&utf8));
    let uri = http::Uri::try_from("exam ple.domain").unwrap_err();
    let want = std::error::Error::description(&uri).to_owned();
    let e = Error::from(uri);
    assert!(matches!(e.cause(), Some(Cause::Uri(_))));
    assert_eq!(e.description(), want);
    assert!(Error::Header.cause().is_none());
    assert!(Error::Timeout.cause().is_none());
}

#[test]
fn descriptions() {
    assert_eq!(Error::Method.description(), "invalid Method specified");
    assert_eq!(Error::Timeout.description(), "timeout");
    assert_eq!(Error::Upgrade.description(), "unsupported protocol upgrade");
    assert_eq!(Error::Incomplete.description(), "message is incomplete");
}

#[test]
fn methods_status_and_uris() {
    assert!(Method::from_bytes(b"").is_err());
    assert!(matches!(Method::from_bytes(b"GE,T"), Err(Error::Method)));
    assert_eq!(Method::from_bytes(b"PATCH").unwrap().as_bytes(), b"PATCH");
    assert!(matches!(StatusCode::from_u16(1000), Err(Error::Status)));
    assert!(StatusCode::from_u16(100).is_ok());
    assert!(StatusCode::from_u16(250).unwrap().is_success());
    assert_eq!(StatusCode::from_u16(404).unwrap().canonical_reason(), Some(&b"Not Found"[..]));
    assert!(matches!(Uri::from_bytes(b"exam ple.domain"), Err(Error::Uri(_))));
    assert_eq!(Uri::from_bytes(b"http://example.com/a?b").unwrap().as_bytes(), b"http://example.com/a?b");
    assert_eq!(Uri::root().as_bytes(), b"/");
}

#[test]
fn extend_appends() {
    let mut v = b"ab".to_vec();
    extend(&mut v, b"cd");
    assert_eq!(v, b"abcd".to_vec());
    extend(&mut v, b"");
    assert_eq!(v, b"abcd".to_vec());
}

#[test]
fn debug_truncate_text() {
    assert_eq!(DebugTruncate(&[]).text(), b"[]".to_vec());
    assert_eq!(DebugTruncate(&[1, 20, 255]).text(), b"[1, 20, 255]".to_vec());
    assert_eq!(DebugTruncate(&[7u8; 32]).text(), format!("{:?}", [7u8; 32]).into_bytes());
    let long = [0u8; 40];
    let mut expected = String::from("[");
    for _ in 0..32 {
        expected.push_str("0, ");
    }
    expected.push_str("... 40]");
    assert_eq!(DebugTruncate(&long).text(), expected.into_bytes());
}

#[test]
fn send_buf_steps() {
    let mut buf = SendBuf(Some(Cursor::new(b"hello".to_vec())));
    assert_eq!(buf.remaining(), 5);
    buf.advance(2);
    assert_eq!(buf.bytes(), b"llo".to_vec());
    assert_eq!(buf.remaining(), 3);
    buf.advance(3);
    assert_eq!(buf.remaining(), 0);
    let mut end = SendBuf(None);
    assert_eq!(end.remaining(), 0);
    assert!(end.bytes().is_empty());
    end.advance(0);
}

#[test]
fn pipe_steps() {
    assert_eq!(pipe_step(BodyPoll::Chunk), PipeStep::SendChunk);
    assert_eq!(pipe_step(BodyPoll::End), PipeStep::SendEndAndFinish);
    assert_eq!(pipe_step(BodyPoll::NotReady), PipeStep::Wait);
    assert_eq!(pipe_step(BodyPoll::Failed), PipeStep::ResetAndFail);
}

#[test]
fn display_texts() {
    assert_eq!(Error::Method.display_text(), "invalid Method specified");
    assert_eq!(Error::TooLarge.display_text(), "message head is too large");
    let io = std::io::Error::new(std::io::ErrorKind::Other, "other");
    let shown = format!("{}", io);
    assert_eq!(Error::from(io).display_text(), shown);
    let utf8 = std::str::from_utf8(&[0xffu8]).unwrap_err();
    assert_eq!(Error::from(utf8).display_text(), format!("{}", utf8));
}
