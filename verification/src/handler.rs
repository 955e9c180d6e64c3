use vstd::prelude::*;
use vstd::utf8::encode_utf8;
use crate::files::{candidate_path_of, resolve, resolves_inside, FileProbe, FileProbeView};
use crate::reading::{declared_body, declared_length, wire_round_trip};
use crate::request::{user_agent_of, RequestLines};
use crate::response::{ContentType, Response, ResponseView};
use crate::route::{
    echo_line_has_echo_route, echo_prefix, get_route_type, protocol_suffix, route_of, Route,
    RouteView,
};

verus! {

/// What the handling of a request comes to before the file system is asked: the response,
/// or the path of the file on which the response depends.
#[derive(Debug, PartialEq, Eq)]
pub enum Step {
    Reply { response: Response },
    Probe { path: String },
}

/// A step with its response and its path as sequences.
pub enum StepView {
    Reply { response: ResponseView },
    Probe { path: Seq<char> },
}

impl View for Step {
    type V = StepView;

    open spec fn view(&self) -> StepView {
        match self {
            Step::Reply { response } => StepView::Reply { response: response@ },
            Step::Probe { path } => StepView::Probe { path: path@ },
        }
    }
}

/// The step that the lines of a request lead to. A request without lines has no route. The
/// file route leads to the file system only where the path resolves inside the base
/// directory; with any other name it has no route.
pub open spec fn step_of(lines: Seq<Seq<char>>, base_dir: Seq<char>) -> StepView {
    if lines.len() == 0 {
        StepView::Reply { response: ResponseView::not_found() }
    } else {
        match route_of(lines[0]) {
            RouteView::Root => StepView::Reply {
                response: ResponseView::ok(ContentType::Empty, Seq::empty()),
            },
            RouteView::Echo { segment } => StepView::Reply {
                response: ResponseView::ok(ContentType::TextPlain, encode_utf8(segment)),
            },
            RouteView::UserAgent => StepView::Reply {
                response: ResponseView::ok(
                    ContentType::TextPlain,
                    encode_utf8(user_agent_of(lines)),
                ),
            },
            RouteView::File { name } => if resolves_inside(base_dir, name) {
                StepView::Probe { path: candidate_path_of(base_dir, name) }
            } else {
                StepView::Reply { response: ResponseView::not_found() }
            },
            RouteView::NotFound => StepView::Reply { response: ResponseView::not_found() },
        }
    }
}

/// The response of the file route, from what the file system reports of the path: the bytes
/// of a regular file inside the base directory, and no route for anything else.
pub open spec fn file_response_of(probe: FileProbeView) -> ResponseView {
    match probe {
        FileProbeView::Regular { contents } => ResponseView::ok(ContentType::OctetStream, contents),
        _ => ResponseView::not_found(),
    }
}

/// The response to a request, given what the file system reports of each path.
pub open spec fn response_of(
    lines: Seq<Seq<char>>,
    base_dir: Seq<char>,
    files: spec_fn(Seq<char>) -> FileProbeView,
) -> ResponseView {
    match step_of(lines, base_dir) {
        StepView::Reply { response } => response,
        StepView::Probe { path } => file_response_of(files(path)),
    }
}

/// Handles a request as far as it goes without the file system.
pub fn handle_request(request: &RequestLines, base_dir: &str) -> (step: Step)
    ensures
        step@ == step_of(request@, base_dir@),
{
    let first = match request.request_line() {
        Some(line) => line,
        None => {
            return Step::Reply { response: Response::not_found() };
        },
    };
    match get_route_type(first) {
        Route::Root => Step::Reply { response: Response::ok(ContentType::Empty, Vec::new()) },
        Route::Echo { segment } => Step::Reply {
            response: Response::ok(ContentType::TextPlain, segment.as_str().as_bytes_vec()),
        },
        Route::UserAgent => Step::Reply {
            response: Response::ok(
                ContentType::TextPlain,
                request.user_agent().as_str().as_bytes_vec(),
            ),
        },
        Route::File { name } => match resolve(base_dir, name.as_str()) {
            Some(path) => Step::Probe { path },
            None => Step::Reply { response: Response::not_found() },
        },
        Route::NotFound => Step::Reply { response: Response::not_found() },
    }
}

/// Completes the handling of a file request with what the file system reported of the path.
pub fn handle_file(probe: FileProbe) -> (response: Response)
    ensures
        response@ == file_response_of(probe@),
{
    match probe {
        FileProbe::Regular { contents } => Response::ok(ContentType::OctetStream, contents),
        _ => Response::not_found(),
    }
}

/// The response to an echo request carries the segment of that request and nothing else,
/// whatever its headers, the base directory and the file system hold.
pub proof fn echo_returns_own_segment(
    segment: Seq<char>,
    headers: Seq<Seq<char>>,
    base_dir: Seq<char>,
    files: spec_fn(Seq<char>) -> FileProbeView,
)
    ensures
        response_of(
            seq![echo_prefix() + segment + protocol_suffix()] + headers,
            base_dir,
            files,
        ) == ResponseView::ok(ContentType::TextPlain, encode_utf8(segment)),
{
    echo_line_has_echo_route(segment);
}

/// Whatever the request and the file system hold, the response declares the length of its
/// body, and a receiver that reads as many bytes after the header block has the body back.
pub proof fn every_response_round_trips(
    lines: Seq<Seq<char>>,
    base_dir: Seq<char>,
    files: spec_fn(Seq<char>) -> FileProbeView,
)
    ensures
        declared_length(response_of(lines, base_dir, files).wire()) == Some(
            response_of(lines, base_dir, files).body.len(),
        ),
        declared_body(response_of(lines, base_dir, files).wire()) == Some(
            response_of(lines, base_dir, files).body,
        ),
{
    wire_round_trip(response_of(lines, base_dir, files));
}

} // verus!
