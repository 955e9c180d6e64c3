use http_server::files::FileProbe;
use http_server::handler::{handle_file, handle_request, Step};
use http_server::request::RequestLines;
use http_server::response::{ContentType, Response, Status};

fn request(lines: &[&str]) -> RequestLines {
    RequestLines::from_lines(lines.iter().map(|line| line.to_string()).collect())
}

fn reply(lines: &[&str]) -> Response {
    match handle_request(&request(lines), "/srv/files/") {
        Step::Reply { response } => response,
        Step::Probe { path } => panic!("asked for {path}"),
    }
}

fn probe(lines: &[&str], base_dir: &str) -> String {
    match handle_request(&request(lines), base_dir) {
        Step::Probe { path } => path,
        Step::Reply { response } => panic!("replied {response:?}"),
    }
}

#[test]
fn root_request() {
    let response = reply(&["GET / HTTP/1.1", "Host: localhost:4221"]);
    assert_eq!(response.status.as_code(), 200);
    assert_eq!(response.content_type.as_str(), "");
    assert!(response.body.is_empty());
    assert_eq!(response.content_length(), 0);
    assert_eq!(
        response.to_bytes(),
        b"HTTP/1.1 200 OK\r\nContent-Type: \r\nContent-Length: 0\r\n\r\n"
    );
}

#[test]
fn echo_request() {
    let response = reply(&["GET /echo/abc HTTP/1.1", "Host: localhost:4221"]);
    assert_eq!(response.status.as_code(), 200);
    assert_eq!(response.content_type.as_str(), "text/plain");
    assert_eq!(response.body, b"abc");
    assert_eq!(response.content_length(), 3);
    assert_eq!(
        response.to_bytes(),
        b"HTTP/1.1 200 OK\r\nContent-Type: text/plain\r\nContent-Length: 3\r\n\r\nabc"
    );
}

#[test]
fn echo_request_with_empty_segment() {
    let response = reply(&["GET /echo/ HTTP/1.1"]);
    assert_eq!(response.status.as_code(), 200);
    assert_eq!(response.content_type.as_str(), "text/plain");
    assert!(response.body.is_empty());
    assert_eq!(response.content_length(), 0);
    assert_eq!(
        response.to_bytes(),
        b"HTTP/1.1 200 OK\r\nContent-Type: text/plain\r\nContent-Length: 0\r\n\r\n"
    );
}

#[test]
fn echo_request_is_not_decoded() {
    let response = reply(&["GET /echo/a%20b+c HTTP/1.1"]);
    assert_eq!(response.body, b"a%20b+c");
}

#[test]
fn echo_request_counts_bytes() {
    let response = reply(&["GET /echo/h\u{e9}llo HTTP/1.1"]);
    assert_eq!(response.body, "h\u{e9}llo".as_bytes());
    assert_eq!(response.content_length(), 6);
}

#[test]
fn echo_request_returns_its_own_segment_whatever_the_headers() {
    for segment in ["one", "two", "three", "", "User-Agent: x"] {
        let line = format!("GET /echo/{segment} HTTP/1.1");
        let plain = reply(&[&line]);
        let with_headers = reply(&[&line, "User-Agent: other", "X-Echo: GET /echo/else HTTP/1.1"]);
        assert_eq!(plain.body, segment.as_bytes());
        assert_eq!(with_headers, plain);
    }
}

#[test]
fn user_agent_request_with_header() {
    let response = reply(&[
        "GET /user-agent HTTP/1.1",
        "Host: localhost:4221",
        "User-Agent: test-client/1",
    ]);
    assert_eq!(response.status.as_code(), 200);
    assert_eq!(response.content_type.as_str(), "text/plain");
    assert_eq!(response.body, b"test-client/1");
    assert_eq!(
        response.to_bytes(),
        b"HTTP/1.1 200 OK\r\nContent-Type: text/plain\r\nContent-Length: 13\r\n\r\ntest-client/1"
    );
}

#[test]
fn user_agent_request_without_header() {
    let response = reply(&["GET /user-agent HTTP/1.1", "Host: localhost:4221"]);
    assert_eq!(response.status.as_code(), 200);
    assert_eq!(response.content_type.as_str(), "text/plain");
    assert!(response.body.is_empty());
}

#[test]
fn unknown_path_request() {
    let response = reply(&["GET /nope HTTP/1.1"]);
    assert_eq!(response.status.as_code(), 404);
    assert_eq!(response.content_type.as_str(), "");
    assert!(response.body.is_empty());
    assert_eq!(
        response.to_bytes(),
        b"HTTP/1.1 404 Not Found\r\nContent-Type: \r\nContent-Length: 0\r\n\r\n"
    );
}

#[test]
fn other_method_request() {
    assert_eq!(reply(&["POST /echo/abc HTTP/1.1"]), Response::not_found());
    assert_eq!(reply(&["DELETE / HTTP/1.1"]), Response::not_found());
}

#[test]
fn empty_request() {
    assert_eq!(reply(&[]), Response::not_found());
    assert_eq!(reply(&["", "GET / HTTP/1.1"]), Response::not_found());
}

#[test]
fn file_request_asks_for_the_joined_path() {
    assert_eq!(probe(&["GET /files/notes.txt HTTP/1.1"], "/srv/files/"), "/srv/files/notes.txt");
    assert_eq!(probe(&["GET /files/a/b.bin HTTP/1.1"], "/srv/files/"), "/srv/files/a/b.bin");
    assert_eq!(probe(&["GET /files//notes.txt HTTP/1.1"], "/srv/files"), "/srv/files/notes.txt");
    assert_eq!(probe(&["GET /files/a/../b HTTP/1.1"], "base/"), "base/a/../b");
    assert_eq!(probe(&["GET /files/ HTTP/1.1"], "base/"), "base/");
}

#[test]
fn file_request_for_a_regular_file() {
    let contents = vec![0u8, 1, 2, 253, 254, 255];
    let response = handle_file(FileProbe::Regular { contents: contents.clone() });
    assert_eq!(response.status.as_code(), 200);
    assert_eq!(response.content_type.as_str(), "application/octet");
    assert_eq!(response.body, contents);
    assert_eq!(response.content_length(), 6);
    assert_eq!(
        response.to_bytes(),
        b"HTTP/1.1 200 OK\r\nContent-Type: application/octet\r\nContent-Length: 6\r\n\r\n\x00\x01\x02\xfd\xfe\xff"
    );
}

#[test]
fn file_request_for_an_empty_regular_file() {
    let response = handle_file(FileProbe::Regular { contents: Vec::new() });
    assert_eq!(response, Response::ok(ContentType::OctetStream, Vec::new()));
    assert_eq!(response.status, Status::Success);
}

#[test]
fn file_request_for_a_missing_file() {
    let response = handle_file(FileProbe::Missing);
    assert_eq!(response.status.as_code(), 404);
    assert_eq!(response.content_type.as_str(), "");
    assert!(response.body.is_empty());
}

#[test]
fn file_request_for_a_directory() {
    assert_eq!(handle_file(FileProbe::NotRegular), Response::not_found());
}

#[test]
fn file_request_for_a_link_that_leads_out_of_the_base_directory() {
    assert_eq!(handle_file(FileProbe::Outside), Response::not_found());
}

#[test]
fn file_request_for_a_file_that_cannot_be_read() {
    assert_eq!(handle_file(FileProbe::Unreadable), Response::not_found());
}

#[test]
fn file_request_with_a_name_that_does_not_continue_the_base_directory() {
    let not_found = Step::Reply { response: Response::not_found() };
    assert_eq!(handle_request(&request(&["GET /files/notes.txt HTTP/1.1"]), "/srv/files"), not_found);
    assert_eq!(handle_request(&request(&["GET /files/notes.txt HTTP/1.1"]), ""), not_found);
    assert_eq!(handle_request(&request(&["GET /files//etc/passwd HTTP/1.1"]), ""), not_found);
    assert_eq!(handle_request(&request(&["GET /files/ HTTP/1.1"]), ""), not_found);
}

#[test]
fn file_request_that_leaves_the_base_directory() {
    assert_eq!(reply(&["GET /files/../secret HTTP/1.1"]), Response::not_found());
    assert_eq!(reply(&["GET /files/a/../../secret HTTP/1.1"]), Response::not_found());
    assert_eq!(reply(&["GET /files/.. HTTP/1.1"]), Response::not_found());
}
