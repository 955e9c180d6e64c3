use http_server::response::{build_response, push_decimal, ContentType, Response, Status};

fn decimal(n: usize) -> String {
    let mut out = Vec::new();
    push_decimal(&mut out, n);
    String::from_utf8(out).unwrap()
}

fn declared_length(message: &[u8]) -> usize {
    let end = message.windows(4).position(|w| w == b"\r\n\r\n").unwrap();
    let head = std::str::from_utf8(&message[..end]).unwrap();
    let line = head.split("\r\n").find(|line| line.starts_with("Content-Length: ")).unwrap();
    line["Content-Length: ".len()..].parse().unwrap()
}

fn declared_body(message: &[u8]) -> Vec<u8> {
    let end = message.windows(4).position(|w| w == b"\r\n\r\n").unwrap();
    let n = declared_length(message);
    message[end + 4..end + 4 + n].to_vec()
}

#[test]
fn status_lines_and_codes() {
    assert_eq!(Status::Success.as_line(), "HTTP/1.1 200 OK");
    assert_eq!(Status::NotFound.as_line(), "HTTP/1.1 404 Not Found");
    assert_eq!(Status::Success.as_code(), 200);
    assert_eq!(Status::NotFound.as_code(), 404);
}

#[test]
fn content_type_values() {
    assert_eq!(ContentType::Empty.as_str(), "");
    assert_eq!(ContentType::TextPlain.as_str(), "text/plain");
    assert_eq!(ContentType::OctetStream.as_str(), "application/octet");
}

#[test]
fn decimal_of_small_and_large_numbers() {
    assert_eq!(decimal(0), "0");
    assert_eq!(decimal(7), "7");
    assert_eq!(decimal(9), "9");
    assert_eq!(decimal(10), "10");
    assert_eq!(decimal(99), "99");
    assert_eq!(decimal(100), "100");
    assert_eq!(decimal(1009), "1009");
    assert_eq!(decimal(65535), "65535");
    assert_eq!(decimal(4294967295), "4294967295");
    assert_eq!(decimal(usize::MAX), usize::MAX.to_string());
}

#[test]
fn push_decimal_appends() {
    let mut out = b"n=".to_vec();
    push_decimal(&mut out, 42);
    assert_eq!(out, b"n=42");
}

#[test]
fn build_response_writes_the_exact_bytes() {
    assert_eq!(
        build_response("HTTP/1.1 200 OK", "text/plain", b"abc"),
        b"HTTP/1.1 200 OK\r\nContent-Type: text/plain\r\nContent-Length: 3\r\n\r\nabc"
    );
}

#[test]
fn build_response_writes_the_content_type_header_for_an_empty_type() {
    assert_eq!(
        build_response("HTTP/1.1 404 Not Found", "", b""),
        b"HTTP/1.1 404 Not Found\r\nContent-Type: \r\nContent-Length: 0\r\n\r\n"
    );
}

#[test]
fn build_response_writes_nothing_after_the_body() {
    let body = b"line one\r\nline two\r\n\r\n";
    let message = build_response("HTTP/1.1 200 OK", "application/octet", body);
    assert!(message.ends_with(body));
    let head: &[u8] = b"HTTP/1.1 200 OK\r\nContent-Type: application/octet\r\nContent-Length: 22\r\n\r\n";
    assert_eq!(message.len(), head.len() + body.len());
    assert_eq!(&message[..head.len()], head);
}

#[test]
fn build_response_counts_bytes_and_not_characters() {
    let body = "h\u{e9}llo".as_bytes();
    assert_eq!(
        build_response("HTTP/1.1 200 OK", "text/plain", body),
        b"HTTP/1.1 200 OK\r\nContent-Type: text/plain\r\nContent-Length: 6\r\n\r\nh\xc3\xa9llo"
    );
}

#[test]
fn not_found_response() {
    let response = Response::not_found();
    assert_eq!(response.status, Status::NotFound);
    assert_eq!(response.content_type, ContentType::Empty);
    assert!(response.body.is_empty());
    assert_eq!(response.content_length(), 0);
    assert_eq!(
        response.to_bytes(),
        b"HTTP/1.1 404 Not Found\r\nContent-Type: \r\nContent-Length: 0\r\n\r\n"
    );
}

#[test]
fn ok_response() {
    let response = Response::ok(ContentType::OctetStream, vec![0, 255, 13, 10]);
    assert_eq!(response.status, Status::Success);
    assert_eq!(response.content_type, ContentType::OctetStream);
    assert_eq!(response.content_length(), 4);
    assert_eq!(
        response.to_bytes(),
        b"HTTP/1.1 200 OK\r\nContent-Type: application/octet\r\nContent-Length: 4\r\n\r\n\x00\xff\r\n"
    );
}

#[test]
fn to_bytes_is_build_response_of_the_parts() {
    let body = b"some body".to_vec();
    let response = Response { status: Status::NotFound, content_type: ContentType::TextPlain, body: body.clone() };
    assert_eq!(
        response.to_bytes(),
        build_response("HTTP/1.1 404 Not Found", "text/plain", &body)
    );
}

#[test]
fn declared_length_is_the_length_of_the_body() {
    for n in [0usize, 1, 9, 10, 11, 99, 100, 101, 999, 1000, 4096] {
        let body: Vec<u8> = (0..n).map(|i| (i % 251) as u8).collect();
        let response = Response::ok(ContentType::OctetStream, body.clone());
        assert_eq!(response.content_length(), n);
        let message = response.to_bytes();
        assert_eq!(declared_length(&message), n);
        assert_eq!(declared_body(&message), body);
    }
}

#[test]
fn body_comes_back_when_it_holds_line_endings_and_headers() {
    let body = b"\r\n\r\nContent-Length: 999\r\n\r\nrest".to_vec();
    for content_type in [ContentType::Empty, ContentType::TextPlain, ContentType::OctetStream] {
        for status in [Status::Success, Status::NotFound] {
            let response = Response { status, content_type, body: body.clone() };
            let message = response.to_bytes();
            assert_eq!(declared_length(&message), body.len());
            assert_eq!(declared_body(&message), body);
        }
    }
}
