use vstd::prelude::*;
use crate::text::{begins_with, ends_with, equals, part};

verus! {

/// The outcome of matching a request line against the supported grammar.
#[derive(Debug, PartialEq, Eq)]
pub enum Route {
    /// `GET / HTTP/1.1`
    Root,
    /// `GET /echo/<segment> HTTP/1.1`
    Echo { segment: String },
    /// `GET /user-agent HTTP/1.1`
    UserAgent,
    /// `GET /files/<name> HTTP/1.1`
    File { name: String },
    /// Any other line.
    NotFound,
}

/// A route with its payload as a sequence of characters.
pub enum RouteView {
    Root,
    Echo { segment: Seq<char> },
    UserAgent,
    File { name: Seq<char> },
    NotFound,
}

impl View for Route {
    type V = RouteView;

    open spec fn view(&self) -> RouteView {
        match self {
            Route::Root => RouteView::Root,
            Route::Echo { segment } => RouteView::Echo { segment: segment@ },
            Route::UserAgent => RouteView::UserAgent,
            Route::File { name } => RouteView::File { name: name@ },
            Route::NotFound => RouteView::NotFound,
        }
    }
}

/// The request line of the root route.
pub open spec fn root_line() -> Seq<char> {
    "GET / HTTP/1.1"@
}

/// The request line of the user-agent route.
pub open spec fn user_agent_line() -> Seq<char> {
    "GET /user-agent HTTP/1.1"@
}

/// What precedes the segment in the request line of the echo route.
pub open spec fn echo_prefix() -> Seq<char> {
    "GET /echo/"@
}

/// What precedes the name in the request line of the file route.
pub open spec fn file_prefix() -> Seq<char> {
    "GET /files/"@
}

/// What ends the request line of the echo and file routes.
pub open spec fn protocol_suffix() -> Seq<char> {
    " HTTP/1.1"@
}

/// `line` begins with `prefix` and ends with `suffix`.
pub open spec fn enclosed_by(line: Seq<char>, prefix: Seq<char>, suffix: Seq<char>) -> bool {
    prefix.is_prefix_of(line) && suffix.is_suffix_of(line)
}

/// The part of `line` strictly between a leading `prefix` and a trailing `suffix`.
pub open spec fn between(line: Seq<char>, prefix: Seq<char>, suffix: Seq<char>) -> Seq<char> {
    line.subrange(prefix.len() as int, line.len() - suffix.len())
}

/// The route of a request line. The rules apply in this order; the first that matches decides.
pub open spec fn route_of(line: Seq<char>) -> RouteView {
    if line == root_line() {
        RouteView::Root
    } else if enclosed_by(line, echo_prefix(), protocol_suffix()) {
        RouteView::Echo { segment: between(line, echo_prefix(), protocol_suffix()) }
    } else if line == user_agent_line() {
        RouteView::UserAgent
    } else if enclosed_by(line, file_prefix(), protocol_suffix()) {
        RouteView::File { name: between(line, file_prefix(), protocol_suffix()) }
    } else {
        RouteView::NotFound
    }
}

/// A line that begins with the echo or file prefix and ends with the protocol suffix is long
/// enough to hold both without overlap.
pub proof fn lemma_markers_apart(line: Seq<char>, prefix: Seq<char>)
    requires
        prefix == echo_prefix() || prefix == file_prefix(),
        enclosed_by(line, prefix, protocol_suffix()),
    ensures
        prefix.len() + protocol_suffix().len() <= line.len(),
{
    reveal_strlit("GET /echo/");
    reveal_strlit("GET /files/");
    reveal_strlit(" HTTP/1.1");
    let suffix = protocol_suffix();
    let n = line.len() as int;
    if n < prefix.len() + suffix.len() {
        let k = n - 9;
        assert(line.subrange(n - 9, n)[0] == suffix[0]);
        assert(line.subrange(0, prefix.len() as int)[k] == prefix[k]);
        assert(prefix[k] == ' ');
        assert(k == 3);
        assert(line.subrange(n - 9, n)[1] == suffix[1]);
        assert(line.subrange(0, prefix.len() as int)[4] == prefix[4]);
    }
}

/// A request line made of the echo prefix, a segment and the protocol suffix has the echo
/// route, with that segment.
pub proof fn echo_line_has_echo_route(segment: Seq<char>)
    ensures
        route_of(echo_prefix() + segment + protocol_suffix()) == (RouteView::Echo { segment }),
{
    reveal_strlit("GET / HTTP/1.1");
    reveal_strlit("GET /echo/");
    reveal_strlit(" HTTP/1.1");
    let line = echo_prefix() + segment + protocol_suffix();
    assert(line[5] == 'e');
    assert(echo_prefix() =~= line.subrange(0, 10));
    assert(protocol_suffix() =~= line.subrange(line.len() - 9, line.len() as int));
    assert(between(line, echo_prefix(), protocol_suffix()) =~= segment);
}

/// A request line made of the file prefix, a name and the protocol suffix has the file
/// route, with that name.
pub proof fn file_line_has_file_route(name: Seq<char>)
    ensures
        route_of(file_prefix() + name + protocol_suffix()) == (RouteView::File { name }),
{
    reveal_strlit("GET / HTTP/1.1");
    reveal_strlit("GET /echo/");
    reveal_strlit("GET /user-agent HTTP/1.1");
    reveal_strlit("GET /files/");
    reveal_strlit(" HTTP/1.1");
    let line = file_prefix() + name + protocol_suffix();
    assert(line[5] == 'f');
    assert(!echo_prefix().is_prefix_of(line)) by {
        if echo_prefix().is_prefix_of(line) {
            assert(line.subrange(0, 10)[5] == line[5]);
        }
    }
    assert(file_prefix() =~= line.subrange(0, 11));
    assert(protocol_suffix() =~= line.subrange(line.len() - 9, line.len() as int));
    assert(between(line, file_prefix(), protocol_suffix()) =~= name);
}

/// No method but `GET` is recognized: a line that does not begin with `GET` and a space has
/// no route.
pub proof fn other_method_has_no_route(line: Seq<char>)
    requires
        !"GET "@.is_prefix_of(line),
    ensures
        route_of(line) == RouteView::NotFound,
{
    reveal_strlit("GET ");
    reveal_strlit("GET / HTTP/1.1");
    reveal_strlit("GET /echo/");
    reveal_strlit("GET /user-agent HTTP/1.1");
    reveal_strlit("GET /files/");
    if line == root_line() || line == user_agent_line() || echo_prefix().is_prefix_of(line)
        || file_prefix().is_prefix_of(line) {
        assert(line.len() >= 4);
        assert("GET "@ =~= line.subrange(0, 4)) by {
            assert(echo_prefix().is_prefix_of(line) ==> line.subrange(0, 10)[0] == line[0]
                && line.subrange(0, 10)[1] == line[1] && line.subrange(0, 10)[2] == line[2]
                && line.subrange(0, 10)[3] == line[3]);
            assert(file_prefix().is_prefix_of(line) ==> line.subrange(0, 11)[0] == line[0]
                && line.subrange(0, 11)[1] == line[1] && line.subrange(0, 11)[2] == line[2]
                && line.subrange(0, 11)[3] == line[3]);
        }
    }
}

/// No line meets the condition of more than one route, so the order of the rules decides
/// nothing.
pub proof fn at_most_one_rule_applies(line: Seq<char>)
    ensures
        line == root_line() ==> !enclosed_by(line, echo_prefix(), protocol_suffix()) && line
            != user_agent_line() && !enclosed_by(line, file_prefix(), protocol_suffix()),
        enclosed_by(line, echo_prefix(), protocol_suffix()) ==> line != user_agent_line()
            && !enclosed_by(line, file_prefix(), protocol_suffix()),
        line == user_agent_line() ==> !enclosed_by(line, file_prefix(), protocol_suffix()),
{
    reveal_strlit("GET / HTTP/1.1");
    reveal_strlit("GET /echo/");
    reveal_strlit("GET /user-agent HTTP/1.1");
    reveal_strlit("GET /files/");
    if echo_prefix().is_prefix_of(line) {
        assert(line.subrange(0, 10)[5] == line[5]);
    }
    if file_prefix().is_prefix_of(line) {
        assert(line.subrange(0, 11)[5] == line[5]);
    }
}

/// Maps a request line to its route.
pub fn get_route_type(request_line: &str) -> (route: Route)
    ensures
        route@ == route_of(request_line@),
{
    if equals(request_line, "GET / HTTP/1.1") {
        Route::Root
    } else if begins_with(request_line, "GET /echo/") && ends_with(request_line, " HTTP/1.1") {
        proof {
            lemma_markers_apart(request_line@, echo_prefix());
            reveal_strlit("GET /echo/");
            reveal_strlit(" HTTP/1.1");
        }
        Route::Echo { segment: part(request_line, 10, request_line.unicode_len() - 9) }
    } else if equals(request_line, "GET /user-agent HTTP/1.1") {
        Route::UserAgent
    } else if begins_with(request_line, "GET /files/") && ends_with(request_line, " HTTP/1.1") {
        proof {
            lemma_markers_apart(request_line@, file_prefix());
            reveal_strlit("GET /files/");
            reveal_strlit(" HTTP/1.1");
        }
        Route::File { name: part(request_line, 11, request_line.unicode_len() - 9) }
    } else {
        Route::NotFound
    }
}

} // verus!
