use bytes::BytesMut;
use http::header::{HeaderValue, CONTENT_LENGTH, TRANSFER_ENCODING};
use hyper_proto::error::{Error, ErrorKind};
use hyper_proto::message::{Method, StatusCode, Version};
use hyper_proto::proto::h1::Decoder;
use hyper_proto::proto::{
    ClientTransaction, Http1Transaction, RequestHead, ResponseHead, ServerTransaction,
};

#[test]
fn test_parse_request() {
    let mut raw = BytesMut::from(&b"GET /echo HTTP/1.1\r\nHost: hyper.rs\r\n\r\n"[..]);
    let expected_len = raw.len();
    let (req, len) = ServerTransaction::parse(&mut raw).unwrap().unwrap();
    assert_eq!(len, expected_len);
    assert_eq!(req.method, Method::get());
    assert_eq!(req.uri.as_bytes(), b"/echo");
    assert_eq!(req.version, Version::Http11);
    assert_eq!(req.headers.len(), 1);
    assert_eq!(req.headers.get("Host").map(|v| v.as_bytes()), Some(b"hyper.rs".as_ref()));
}

#[test]
fn test_parse_response() {
    let mut raw = BytesMut::from(&b"HTTP/1.1 200 OK\r\nContent-Length: 0\r\n\r\n"[..]);
    let expected_len = raw.len();
    let (req, len) = ClientTransaction::parse(&mut raw).unwrap().unwrap();
    assert_eq!(len, expected_len);
    assert_eq!(req.status.as_u16(), 200);
    assert_eq!(req.version, Version::Http11);
    assert_eq!(req.headers.len(), 1);
    assert_eq!(req.headers.get("Content-Length").map(|v| v.as_bytes()), Some(b"0".as_ref()));
}

#[test]
fn test_parse_request_errors() {
    let mut raw = BytesMut::from(&b"GET htt:p// HTTP/1.1\r\nHost: hyper.rs\r\n\r\n"[..]);
    ServerTransaction::parse(&mut raw).unwrap_err();
}

#[test]
fn test_decoder_request() {
    let method = &mut None;
    let mut head = RequestHead::new();

    head.method = Method::get();
    assert_eq!(Decoder::length(0), ServerTransaction::decoder(&head, method).unwrap());
    assert_eq!(*method, Some(Method::get()));

    head.method = Method::post();
    assert_eq!(Decoder::length(0), ServerTransaction::decoder(&head, method).unwrap());
    assert_eq!(*method, Some(Method::post()));

    head.headers.insert(TRANSFER_ENCODING, HeaderValue::from_static("chunked"));
    assert_eq!(Decoder::chunked(), ServerTransaction::decoder(&head, method).unwrap());
    // transfer-encoding and content-length = chunked
    head.headers.insert(CONTENT_LENGTH, HeaderValue::from_static("10"));
    assert_eq!(Decoder::chunked(), ServerTransaction::decoder(&head, method).unwrap());

    head.headers.remove(&TRANSFER_ENCODING);
    assert_eq!(Decoder::length(10), ServerTransaction::decoder(&head, method).unwrap());

    head.headers.insert(CONTENT_LENGTH, HeaderValue::from_static("5"));
    head.headers.append(CONTENT_LENGTH, HeaderValue::from_static("5"));
    assert_eq!(Decoder::length(5), ServerTransaction::decoder(&head, method).unwrap());

    head.headers.insert(CONTENT_LENGTH, HeaderValue::from_static("10"));
    head.headers.append(CONTENT_LENGTH, HeaderValue::from_static("11"));
    ServerTransaction::decoder(&head, method).unwrap_err();

    head.headers.remove(&CONTENT_LENGTH);

    head.headers.insert(TRANSFER_ENCODING, HeaderValue::from_static("notchunked"));
    ServerTransaction::decoder(&head, method).unwrap_err();
}

#[test]
fn test_decoder_response() {
    let method = &mut Some(Method::get());
    let mut head = ResponseHead::new();

    head.status = StatusCode::from_u16(204).unwrap();
    assert_eq!(Decoder::length(0), ClientTransaction::decoder(&head, method).unwrap());
    head.status = StatusCode::from_u16(304).unwrap();
    assert_eq!(Decoder::length(0), ClientTransaction::decoder(&head, method).unwrap());

    head.status = StatusCode::from_u16(200).unwrap();
    assert_eq!(Decoder::eof(), ClientTransaction::decoder(&head, method).unwrap());

    *method = Some(Method::head());
    assert_eq!(Decoder::length(0), ClientTransaction::decoder(&head, method).unwrap());

    *method = Some(Method::connect());
    assert_eq!(Decoder::length(0), ClientTransaction::decoder(&head, method).unwrap());

    // CONNECT receiving non 200 can have a body
    head.status = StatusCode::from_u16(404).unwrap();
    head.headers.insert(CONTENT_LENGTH, HeaderValue::from_static("10"));
    assert_eq!(Decoder::length(10), ClientTransaction::decoder(&head, method).unwrap());
    head.headers.remove(&CONTENT_LENGTH);

    *method = Some(Method::get());
    head.headers.insert(TRANSFER_ENCODING, HeaderValue::from_static("chunked"));
    assert_eq!(Decoder::chunked(), ClientTransaction::decoder(&head, method).unwrap());

    // transfer-encoding and content-length = chunked
    head.headers.insert(CONTENT_LENGTH, HeaderValue::from_static("10"));
    assert_eq!(Decoder::chunked(), ClientTransaction::decoder(&head, method).unwrap());

    head.headers.remove(&TRANSFER_ENCODING);
    assert_eq!(Decoder::length(10), ClientTransaction::decoder(&head, method).unwrap());

    head.headers.insert(CONTENT_LENGTH, HeaderValue::from_static("5"));
    head.headers.append(CONTENT_LENGTH, HeaderValue::from_static("5"));
    assert_eq!(Decoder::length(5), ClientTransaction::decoder(&head, method).unwrap());

    head.headers.insert(CONTENT_LENGTH, HeaderValue::from_static("10"));
    head.headers.append(CONTENT_LENGTH, HeaderValue::from_static("11"));
    ClientTransaction::decoder(&head, method).unwrap_err();
}

#[test]
fn parse_empty_buffer_is_incomplete() {
    let mut raw = BytesMut::new();
    assert!(ServerTransaction::parse(&mut raw).unwrap().is_none());
    assert!(ClientTransaction::parse(&mut raw).unwrap().is_none());
}

#[test]
fn parse_partial_head_keeps_buffer() {
    let mut raw = BytesMut::from(&b"GET /echo HTTP/1.1\r\nHost: hy"[..]);
    assert!(ServerTransaction::parse(&mut raw).unwrap().is_none());
    assert_eq!(&raw[..], &b"GET /echo HTTP/1.1\r\nHost: hy"[..]);
}

#[test]
fn parse_consumes_only_the_head() {
    let mut raw = BytesMut::from(&b"POST /a HTTP/1.0\r\nContent-Length: 3\r\n\r\nabc"[..]);
    let (req, len) = ServerTransaction::parse(&mut raw).unwrap().unwrap();
    assert_eq!(len, 39);
    assert_eq!(&raw[..], b"abc");
    assert_eq!(req.method, Method::post());
    assert_eq!(req.version, Version::Http10);
    assert_eq!(req.headers.get("content-length").unwrap().as_bytes(), b"3");
}

#[test]
fn parse_repeated_headers_keep_order() {
    let mut raw = BytesMut::from(&b"GET / HTTP/1.1\r\nX-A: 1\r\nx-a: 2\r\nX-B: 3\r\n\r\n"[..]);
    let (req, _) = ServerTransaction::parse(&mut raw).unwrap().unwrap();
    let values: Vec<&[u8]> = req.headers.get_all("x-a").iter().map(|v| v.as_bytes()).collect();
    assert_eq!(values, vec![&b"1"[..], &b"2"[..]]);
    assert_eq!(req.headers.len(), 3);
    assert_eq!(req.headers.keys_len(), 2);
}

#[test]
fn parse_invalid_uri_consumes_head() {
    let mut raw = BytesMut::from(&b"GET htt:p// HTTP/1.1\r\nHost: hyper.rs\r\n\r\nrest"[..]);
    let err = ServerTransaction::parse(&mut raw).unwrap_err();
    assert_eq!(err.error_kind(), ErrorKind::Uri);
    assert_eq!(&raw[..], b"rest");
}

#[test]
fn parse_bad_request_line() {
    let mut raw = BytesMut::from(&b"GET /echo HTTP/2.0\r\n\r\n"[..]);
    let err = ServerTransaction::parse(&mut raw).unwrap_err();
    assert_eq!(err.error_kind(), ErrorKind::Version);
    assert_eq!(raw.len(), 22);
}

#[test]
fn parse_too_many_headers() {
    let mut text = b"GET / HTTP/1.1\r\n".to_vec();
    for i in 0..101 {
        text.extend_from_slice(format!("X-{}: v\r\n", i).as_bytes());
    }
    text.extend_from_slice(b"\r\n");
    let mut raw = BytesMut::from(&text[..]);
    let err = ServerTransaction::parse(&mut raw).unwrap_err();
    assert!(matches!(err, Error::TooLarge));
}

#[test]
fn parse_response_with_unknown_status() {
    let mut raw = BytesMut::from(&b"HTTP/1.0 599 Odd\r\n\r\n"[..]);
    let (res, len) = ClientTransaction::parse(&mut raw).unwrap().unwrap();
    assert_eq!(len, 20);
    assert_eq!(res.status.as_u16(), 599);
    assert_eq!(res.version, Version::Http10);
    assert!(res.headers.is_empty());
}

#[test]
fn parse_response_with_status_below_100() {
    let mut raw = BytesMut::from(&b"HTTP/1.1 099 Low\r\n\r\n"[..]);
    let err = ClientTransaction::parse(&mut raw).unwrap_err();
    assert_eq!(err.error_kind(), ErrorKind::Status);
    assert_eq!(raw.len(), 20);
}

#[test]
fn parse_request_with_bad_method_keeps_buffer() {
    let mut raw = BytesMut::from(&b"G(T / HTTP/1.1\r\n\r\n"[..]);
    let err = ServerTransaction::parse(&mut raw).unwrap_err();
    assert!(matches!(err, Error::Header | Error::Method));
    assert_eq!(raw.len(), 18);
}

use hyper_proto::proto::h1::{finish_request, finish_response};
use hyper_proto::raw::{RawRequest, RawResponse};

fn raw_request(headers: Vec<(&[u8], &[u8])>) -> RawRequest {
    RawRequest {
        len: 4,
        method: b"GET".to_vec(),
        path: b"/x".to_vec(),
        version: 0,
        headers: headers.into_iter().map(|(n, v)| (n.to_vec(), v.to_vec())).collect(),
    }
}

#[test]
fn finish_request_lowercases_names() {
    let mut buf = BytesMut::from(&b"headbody"[..]);
    let raw = raw_request(vec![(b"X-Thing", b"a"), (b"x-thing", b"b\xff")]);
    let (head, len) = finish_request(&mut buf, raw).unwrap().unwrap();
    assert_eq!(len, 4);
    assert_eq!(&buf[..], b"body");
    assert_eq!(head.version, Version::Http10);
    assert_eq!(head.uri.as_bytes(), b"/x");
    let values: Vec<&[u8]> = head.headers.get_all("x-thing").iter().map(|v| v.as_bytes()).collect();
    assert_eq!(values, vec![&b"a"[..], &b"b\xff"[..]]);
}

#[test]
fn finish_request_rejects_bad_header_after_consuming() {
    let mut buf = BytesMut::from(&b"headbody"[..]);
    let raw = raw_request(vec![(b"X Thing", b"a")]);
    let err = finish_request(&mut buf, raw).unwrap_err();
    assert_eq!(err.error_kind(), ErrorKind::Header);
    assert_eq!(&buf[..], b"body");

    let mut buf = BytesMut::from(&b"headbody"[..]);
    let raw = raw_request(vec![(b"x", b"a\nb")]);
    assert!(matches!(finish_request(&mut buf, raw), Err(Error::Header)));
}

#[test]
fn finish_request_rejects_bad_method_without_consuming() {
    let mut buf = BytesMut::from(&b"headbody"[..]);
    let mut raw = raw_request(vec![]);
    raw.method = b"GE T".to_vec();
    assert!(matches!(finish_request(&mut buf, raw), Err(Error::Method)));
    assert_eq!(&buf[..], b"headbody");
}

#[test]
fn finish_response_checks_status() {
    let mut buf = BytesMut::from(&b"abc"[..]);
    let raw = RawResponse { len: 3, version: 1, code: 42, headers: vec![] };
    assert!(matches!(finish_response(&mut buf, raw), Err(Error::Status)));
    assert_eq!(buf.len(), 3);
    let raw = RawResponse { len: 3, version: 1, code: 201, headers: vec![] };
    let (head, len) = finish_response(&mut buf, raw).unwrap().unwrap();
    assert_eq!((head.status.as_u16(), head.version, len), (201, Version::Http11, 3));
    assert!(buf.is_empty());
}
