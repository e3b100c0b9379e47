use http::header::{HeaderMap, HeaderValue, CONTENT_LENGTH, DATE, TRANSFER_ENCODING};
use hyper_proto::message::{Method, StatusCode, Uri, Version};
use hyper_proto::proto::h1::{
    current_date, date_of_second, encode_length_or_chunked, find_chunked, parse_content_length,
    write_headers, Decoder, Encoder,
};
use hyper_proto::headers::has_room_for_name;
use hyper_proto::proto::{
    ClientTransaction, Http1Transaction, RequestHead, ResponseHead, ServerTransaction,
};

const A_DATE: &str = "Sun, 06 Nov 1994 08:49:37 GMT";

#[test]
fn encode_response_with_length() {
    let mut head = ResponseHead::new();
    head.headers.insert(CONTENT_LENGTH, HeaderValue::from_static("5"));
    head.headers.insert(DATE, HeaderValue::from_static(A_DATE));
    let mut dst = Vec::new();
    let e = ServerTransaction::encode(head, true, &mut Some(Method::get()), &mut dst);
    assert_eq!(e, Encoder::length(5));
    let expected = format!("HTTP/1.1 200 OK\r\ncontent-length: 5\r\ndate: {}\r\n\r\n", A_DATE);
    assert_eq!(dst, expected.as_bytes());
}

#[test]
fn encode_response_status_line() {
    let mut head = ResponseHead::new();
    head.status = StatusCode::from_u16(404).unwrap();
    let mut dst = b"x".to_vec();
    let e = ServerTransaction::encode_with_date(head, false, &Method::get(), A_DATE.as_bytes(), &mut dst);
    assert_eq!(e, Encoder::length(0));
    let expected = format!("xHTTP/1.1 404 Not Found\r\ncontent-length: 0\r\nDate: {}\r\n\r\n", A_DATE);
    assert_eq!(dst, expected.as_bytes());
}

#[test]
fn encode_response_unknown_reason_and_http10() {
    let mut head = ResponseHead::new();
    head.status = StatusCode::from_u16(599).unwrap();
    head.version = Version::Http10;
    let mut dst = Vec::new();
    ServerTransaction::encode_with_date(head, false, &Method::get(), b"D", &mut dst);
    assert_eq!(dst, b"HTTP/1.1 599 <unknown status code>\r\ncontent-length: 0\r\nDate: D\r\n\r\n".to_vec());
}

#[test]
fn encode_response_http10_ok_is_not_shortened() {
    let mut head = ResponseHead::new();
    head.version = Version::Http10;
    let mut dst = Vec::new();
    ServerTransaction::encode_with_date(head, false, &Method::get(), b"D", &mut dst);
    assert_eq!(dst, b"HTTP/1.1 200 OK\r\ncontent-length: 0\r\nDate: D\r\n\r\n".to_vec());
}

#[test]
fn encode_response_writes_current_date() {
    let head = ResponseHead::new();
    let mut dst = Vec::new();
    ServerTransaction::encode(head, false, &mut Some(Method::get()), &mut dst);
    let text = String::from_utf8(dst).unwrap();
    assert!(text.starts_with("HTTP/1.1 200 OK\r\ncontent-length: 0\r\nDate: "));
    assert!(text.ends_with(" GMT\r\n\r\n"));
    assert_eq!(text.len(), "HTTP/1.1 200 OK\r\ncontent-length: 0\r\nDate: \r\n\r\n".len() + 29);
}

#[test]
fn encode_response_to_head_has_no_body() {
    let mut head = ResponseHead::new();
    head.headers.insert(TRANSFER_ENCODING, HeaderValue::from_static("chunked"));
    let mut dst = Vec::new();
    let e = ServerTransaction::encode_with_date(head, true, &Method::head(), b"D", &mut dst);
    assert_eq!(e, Encoder::length(0));
    assert_eq!(dst, b"HTTP/1.1 200 OK\r\nDate: D\r\n\r\n".to_vec());
}

#[test]
fn set_length_no_content_and_connect() {
    let mut head = ResponseHead::new();
    head.status = StatusCode::from_u16(204).unwrap();
    assert_eq!(ServerTransaction::set_length(&mut head, true, &Method::get()), Encoder::length(0));
    assert!(head.headers.is_empty());

    let mut head = ResponseHead::new();
    assert_eq!(ServerTransaction::set_length(&mut head, true, &Method::connect()), Encoder::length(0));
    assert!(head.headers.is_empty());

    let mut head = ResponseHead::new();
    head.status = StatusCode::from_u16(404).unwrap();
    assert_eq!(ServerTransaction::set_length(&mut head, true, &Method::connect()), Encoder::chunked());
    assert_eq!(head.headers.get("transfer-encoding").unwrap(), "chunked");
}

#[test]
fn encode_length_or_chunked_cases() {
    let mut h = HeaderMap::new();
    assert_eq!(encode_length_or_chunked(&mut h), Encoder::chunked());
    assert_eq!(h.get(TRANSFER_ENCODING).unwrap(), "chunked");

    let mut h = HeaderMap::new();
    h.insert(TRANSFER_ENCODING, HeaderValue::from_static("gzip"));
    assert_eq!(encode_length_or_chunked(&mut h), Encoder::chunked());
    assert_eq!(h.get(TRANSFER_ENCODING).unwrap(), "gzip, chunked");

    let mut h = HeaderMap::new();
    h.insert(TRANSFER_ENCODING, HeaderValue::from_static("gzip"));
    h.append(TRANSFER_ENCODING, HeaderValue::from_static("deflate, Chunked "));
    assert_eq!(encode_length_or_chunked(&mut h), Encoder::chunked());
    let v: Vec<&[u8]> = h.get_all(TRANSFER_ENCODING).iter().map(|v| v.as_bytes()).collect();
    assert_eq!(v, vec![&b"gzip"[..], &b"deflate, Chunked "[..]]);

    let mut h = HeaderMap::new();
    h.insert(TRANSFER_ENCODING, HeaderValue::from_static("chunked"));
    h.insert(CONTENT_LENGTH, HeaderValue::from_static("+42"));
    assert_eq!(encode_length_or_chunked(&mut h), Encoder::length(42));
    assert!(h.get(TRANSFER_ENCODING).is_none());

    let mut h = HeaderMap::new();
    h.insert(CONTENT_LENGTH, HeaderValue::from_static("4x"));
    assert_eq!(encode_length_or_chunked(&mut h), Encoder::chunked());
    assert_eq!(h.get(TRANSFER_ENCODING).unwrap(), "chunked");
}

#[test]
fn find_chunked_values() {
    assert!(find_chunked(b"chunked"));
    assert!(find_chunked(b"gzip, CHUNKED"));
    assert!(find_chunked(b"gzip,\tchunked  "));
    assert!(!find_chunked(b"chunked, gzip"));
    assert!(!find_chunked(b"notchunked"));
    assert!(!find_chunked(b""));
    assert!(!find_chunked(b"gzip, chunked\xff"));
}

#[test]
fn parse_content_length_values() {
    assert_eq!(parse_content_length(&vec![b"10".to_vec()]).unwrap(), 10);
    assert_eq!(parse_content_length(&vec![b"7".to_vec(), b"+7".to_vec(), b"007".to_vec()]).unwrap(), 7);
    assert!(parse_content_length(&vec![b"7".to_vec(), b"8".to_vec()]).is_err());
    assert!(parse_content_length(&vec![b"".to_vec()]).is_err());
    assert!(parse_content_length(&vec![b" 7".to_vec()]).is_err());
    assert!(parse_content_length(&vec![b"18446744073709551615".to_vec()]).is_ok());
    assert!(parse_content_length(&vec![b"18446744073709551616".to_vec()]).is_err());
    assert!(parse_content_length(&vec![b"+".to_vec()]).is_err());
}

#[test]
fn write_headers_lines() {
    let mut h = HeaderMap::new();
    h.insert("a", HeaderValue::from_static("1"));
    h.append("a", HeaderValue::from_static("2"));
    h.insert("b", HeaderValue::from_static("3"));
    let mut dst = b"> ".to_vec();
    write_headers(&mut dst, &h);
    assert_eq!(dst, b"> a: 1\r\na: 2\r\nb: 3\r\n".to_vec());
}

#[test]
fn encode_request_with_body() {
    let mut head = RequestHead::new();
    head.method = Method::post();
    head.uri = Uri::from_bytes(b"/upload?x=1").unwrap();
    head.headers.insert(CONTENT_LENGTH, HeaderValue::from_static("3"));
    head.headers.insert(TRANSFER_ENCODING, HeaderValue::from_static("gzip"));
    let mut method = None;
    let mut dst = Vec::new();
    let e = ClientTransaction::encode(head, true, &mut method, &mut dst);
    assert_eq!(e, Encoder::length(3));
    assert_eq!(method, Some(Method::post()));
    assert_eq!(dst, b"POST /upload?x=1 HTTP/1.1\r\ncontent-length: 3\r\n\r\n".to_vec());
}

#[test]
fn encode_request_without_body() {
    let mut head = RequestHead::new();
    head.headers.insert(CONTENT_LENGTH, HeaderValue::from_static("3"));
    head.headers.insert("host", HeaderValue::from_static("example.com"));
    let mut method = Some(Method::put());
    let mut dst = Vec::new();
    let e = ClientTransaction::encode(head, false, &mut method, &mut dst);
    assert_eq!(e, Encoder::length(0));
    assert_eq!(method, Some(Method::get()));
    assert_eq!(dst, b"GET / HTTP/1.1\r\nhost: example.com\r\n\r\n".to_vec());
}

#[test]
fn request_framing_is_read_back() {
    let cases: Vec<(Option<&'static str>, Option<&'static str>, bool)> = vec![
        (None, None, true),
        (None, None, false),
        (Some("12"), None, true),
        (Some("12"), Some("gzip"), true),
        (None, Some("gzip"), true),
        (Some("x"), Some("gzip, chunked"), true),
    ];
    for (cl, te, has_body) in cases {
        let mut head = RequestHead::new();
        if let Some(cl) = cl {
            head.headers.insert(CONTENT_LENGTH, HeaderValue::from_static(cl));
        }
        if let Some(te) = te {
            head.headers.insert(TRANSFER_ENCODING, HeaderValue::from_static(te));
        }
        let e = ClientTransaction::set_length(&mut head, has_body);
        let d = ServerTransaction::decoder(&head, &mut None).unwrap();
        let expected = match e {
            Encoder::Length(n) => Decoder::length(n),
            Encoder::Chunked => Decoder::chunked(),
        };
        assert_eq!(d, expected);
    }
}

#[test]
fn response_framing_is_read_back() {
    for code in [200u16, 204, 304, 404] {
        for method in [Method::get(), Method::head(), Method::connect()] {
            for has_body in [true, false] {
                let mut head = ResponseHead::new();
                head.status = StatusCode::from_u16(code).unwrap();
                head.headers.insert(TRANSFER_ENCODING, HeaderValue::from_static("gzip"));
                let e = ServerTransaction::set_length(&mut head, has_body, &method);
                let d = ClientTransaction::decoder(&head, &mut Some(method.duplicate())).unwrap();
                let expected = match e {
                    Encoder::Length(n) => Decoder::length(n),
                    Encoder::Chunked => Decoder::chunked(),
                };
                assert_eq!(d, expected);
            }
        }
    }
}

#[test]
fn framing_twice_is_framing_once() {
    for te in ["gzip", "chunked", "gzip, chunked"] {
        let mut once = HeaderMap::new();
        once.insert(TRANSFER_ENCODING, HeaderValue::from_static(te));
        let e1 = encode_length_or_chunked(&mut once);
        let mut twice = once.clone();
        let e2 = encode_length_or_chunked(&mut twice);
        assert_eq!(e1, e2);
        assert_eq!(once, twice);
    }
}

#[test]
fn date_of_a_clock_reading() {
    assert_eq!(date_of_second(784111777), b"Sun, 06 Nov 1994 08:49:37 GMT".to_vec());
    assert_eq!(date_of_second(0), b"Thu, 01 Jan 1970 00:00:00 GMT".to_vec());
    assert_eq!(date_of_second(u64::MAX), b"Fri, 31 Dec 9999 23:59:59 GMT".to_vec());
    assert_eq!(current_date().len(), 29);
}

#[test]
fn room_for_another_name() {
    let mut headers = HeaderMap::new();
    assert!(has_room_for_name(&headers));
    headers.insert(CONTENT_LENGTH, HeaderValue::from_static("5"));
    assert!(has_room_for_name(&headers));
    for i in 1..6553 {
        let name = http::header::HeaderName::from_bytes(format!("x-{}", i).as_bytes()).unwrap();
        headers.insert(name, HeaderValue::from_static("1"));
    }
    assert_eq!(headers.keys_len(), 6553);
    assert!(has_room_for_name(&headers));
    headers.insert(DATE, HeaderValue::from_static(A_DATE));
    assert!(!has_room_for_name(&headers));
}
