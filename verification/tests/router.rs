use http_server::route::{get_route_type, Route};

fn echo(segment: &str) -> Route {
    Route::Echo { segment: segment.to_string() }
}

fn file(name: &str) -> Route {
    Route::File { name: name.to_string() }
}

#[test]
fn root_line_has_the_root_route() {
    assert_eq!(get_route_type("GET / HTTP/1.1"), Route::Root);
}

#[test]
fn echo_line_carries_its_segment() {
    assert_eq!(get_route_type("GET /echo/abc HTTP/1.1"), echo("abc"));
}

#[test]
fn echo_segment_may_be_empty() {
    assert_eq!(get_route_type("GET /echo/ HTTP/1.1"), echo(""));
}

#[test]
fn echo_segment_is_taken_verbatim() {
    assert_eq!(get_route_type("GET /echo/a%20b/c d?x=1#y HTTP/1.1"), echo("a%20b/c d?x=1#y"));
    assert_eq!(get_route_type("GET /echo/../.. HTTP/1.1"), echo("../.."));
}

#[test]
fn echo_segment_may_hold_any_character() {
    assert_eq!(get_route_type("GET /echo/h\u{e9}llo \u{4e16}\u{754c} HTTP/1.1"), echo("h\u{e9}llo \u{4e16}\u{754c}"));
}

#[test]
fn echo_segment_may_hold_the_markers_again() {
    assert_eq!(
        get_route_type("GET /echo/GET /echo/ HTTP/1.1 HTTP/1.1"),
        echo("GET /echo/ HTTP/1.1")
    );
}

#[test]
fn user_agent_line_has_the_user_agent_route() {
    assert_eq!(get_route_type("GET /user-agent HTTP/1.1"), Route::UserAgent);
}

#[test]
fn file_line_carries_its_name() {
    assert_eq!(get_route_type("GET /files/notes.txt HTTP/1.1"), file("notes.txt"));
    assert_eq!(get_route_type("GET /files/ HTTP/1.1"), file(""));
    assert_eq!(get_route_type("GET /files/a/b/../c HTTP/1.1"), file("a/b/../c"));
}

#[test]
fn unknown_path_has_no_route() {
    assert_eq!(get_route_type("GET /nope HTTP/1.1"), Route::NotFound);
    assert_eq!(get_route_type("GET /echo HTTP/1.1"), Route::NotFound);
    assert_eq!(get_route_type("GET /files HTTP/1.1"), Route::NotFound);
    assert_eq!(get_route_type("GET /user-agent/ HTTP/1.1"), Route::NotFound);
    assert_eq!(get_route_type("GET /user-agent?x HTTP/1.1"), Route::NotFound);
    assert_eq!(get_route_type("GET /Echo/abc HTTP/1.1"), Route::NotFound);
}

#[test]
fn other_methods_have_no_route() {
    assert_eq!(get_route_type("POST / HTTP/1.1"), Route::NotFound);
    assert_eq!(get_route_type("POST /echo/abc HTTP/1.1"), Route::NotFound);
    assert_eq!(get_route_type("HEAD /user-agent HTTP/1.1"), Route::NotFound);
    assert_eq!(get_route_type("PUT /files/a HTTP/1.1"), Route::NotFound);
    assert_eq!(get_route_type("get / HTTP/1.1"), Route::NotFound);
}

#[test]
fn malformed_lines_have_no_route() {
    assert_eq!(get_route_type(""), Route::NotFound);
    assert_eq!(get_route_type("GET"), Route::NotFound);
    assert_eq!(get_route_type("GET /"), Route::NotFound);
    assert_eq!(get_route_type("GET /echo/abc"), Route::NotFound);
    assert_eq!(get_route_type("GET /echo/abc HTTP/1.0"), Route::NotFound);
    assert_eq!(get_route_type("GET /echo/abc  HTTP/1.1 "), Route::NotFound);
    assert_eq!(get_route_type(" GET / HTTP/1.1"), Route::NotFound);
    assert_eq!(get_route_type("GET / HTTP/1.1\r"), Route::NotFound);
    assert_eq!(get_route_type("GET  / HTTP/1.1"), Route::NotFound);
    assert_eq!(get_route_type(" HTTP/1.1"), Route::NotFound);
    assert_eq!(get_route_type("GET /echo/"), Route::NotFound);
    assert_eq!(get_route_type("GET /echo/HTTP/1.1"), Route::NotFound);
}
