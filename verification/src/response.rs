use vstd::prelude::*;
use vstd::string::StringSliceAdditionalSpecFns;
use vstd::utf8::encode_utf8;

verus! {

/// The status of a response.
#[derive(Debug, Clone, Copy, PartialEq, Eq, Structural)]
pub enum Status {
    Success,
    NotFound,
}

impl Status {
    /// The status line, without its line ending.
    pub open spec fn line(self) -> Seq<char> {
        match self {
            Status::Success => "HTTP/1.1 200 OK"@,
            Status::NotFound => "HTTP/1.1 404 Not Found"@,
        }
    }

    /// The numeric status code.
    pub open spec fn code(self) -> nat {
        match self {
            Status::Success => 200,
            Status::NotFound => 404,
        }
    }

    /// The status line, without its line ending.
    pub fn as_line(&self) -> (line: &'static str)
        ensures
            line@ == self.line(),
    {
        match self {
            Status::Success => "HTTP/1.1 200 OK",
            Status::NotFound => "HTTP/1.1 404 Not Found",
        }
    }

    /// The numeric status code.
    pub fn as_code(&self) -> (code: u16)
        ensures
            code == self.code(),
    {
        match self {
            Status::Success => 200,
            Status::NotFound => 404,
        }
    }
}

/// The content type of a response. `Empty` stands for the empty string: the header is
/// still sent, with nothing after its name.
#[derive(Debug, Clone, Copy, PartialEq, Eq, Structural)]
pub enum ContentType {
    Empty,
    TextPlain,
    OctetStream,
}

impl ContentType {
    /// The value of the `Content-Type` header.
    pub open spec fn text(self) -> Seq<char> {
        match self {
            ContentType::Empty => ""@,
            ContentType::TextPlain => "text/plain"@,
            ContentType::OctetStream => "application/octet"@,
        }
    }

    /// The value of the `Content-Type` header.
    pub fn as_str(&self) -> (text: &'static str)
        ensures
            text@ == self.text(),
    {
        match self {
            ContentType::Empty => "",
            ContentType::TextPlain => "text/plain",
            ContentType::OctetStream => "application/octet",
        }
    }
}

/// A response before it is put on the wire.
#[derive(Debug, PartialEq, Eq)]
pub struct Response {
    pub status: Status,
    pub content_type: ContentType,
    pub body: Vec<u8>,
}

/// A response with its body as a sequence of bytes.
pub struct ResponseView {
    pub status: Status,
    pub content_type: ContentType,
    pub body: Seq<u8>,
}

impl View for Response {
    type V = ResponseView;

    open spec fn view(&self) -> ResponseView {
        ResponseView { status: self.status, content_type: self.content_type, body: self.body@ }
    }
}

/// The line ending of the wire format.
pub open spec fn crlf() -> Seq<u8> {
    "\r\n".spec_bytes()
}

/// The name of the content type header, with the separator after it.
pub open spec fn content_type_name() -> Seq<u8> {
    "Content-Type: ".spec_bytes()
}

/// The name of the content length header, with the separator after it.
pub open spec fn content_length_name() -> Seq<u8> {
    "Content-Length: ".spec_bytes()
}

/// The byte of the decimal digit `d`.
pub open spec fn digit(d: nat) -> u8
    recommends
        d < 10,
{
    (48 + d) as u8
}

/// `n` in decimal, most significant digit first, without leading zeros.
pub open spec fn decimal(n: nat) -> Seq<u8>
    decreases n,
{
    if n < 10 {
        seq![digit(n)]
    } else {
        decimal(n / 10).push(digit(n % 10))
    }
}

/// The bytes that carry a response: the status line, the `Content-Type` header, the
/// `Content-Length` header with the length of the body in decimal, an empty line, and the
/// body; each line ends with CR LF, and nothing follows the body.
pub open spec fn wire_format(
    status_line: Seq<char>,
    content_type: Seq<char>,
    body: Seq<u8>,
) -> Seq<u8> {
    encode_utf8(status_line) + crlf()
        + content_type_name() + encode_utf8(content_type) + crlf()
        + content_length_name() + decimal(body.len()) + crlf()
        + crlf()
        + body
}

impl ResponseView {
    /// The response of every unmatched request: status 404, no content type, no body.
    pub open spec fn not_found() -> ResponseView {
        ResponseView {
            status: Status::NotFound,
            content_type: ContentType::Empty,
            body: Seq::empty(),
        }
    }

    /// A response with status 200.
    pub open spec fn ok(content_type: ContentType, body: Seq<u8>) -> ResponseView {
        ResponseView { status: Status::Success, content_type, body }
    }

    /// The number that the `Content-Length` header declares.
    pub open spec fn content_length(self) -> nat {
        self.body.len()
    }

    /// The bytes that carry this response.
    pub open spec fn wire(self) -> Seq<u8> {
        wire_format(self.status.line(), self.content_type.text(), self.body)
    }
}

/// Appends `n` in decimal to `out`.
pub fn push_decimal(out: &mut Vec<u8>, n: usize)
    ensures
        final(out)@ == old(out)@ + decimal(n as nat),
    decreases n,
{
    if n >= 10 {
        push_decimal(out, n / 10);
    }
    let d: u8 = (n % 10) as u8;
    out.push(48 + d);
}

/// Assembles the bytes of a response from its status line, its content type and its body.
pub fn build_response(status_line: &str, content_type: &str, body: &[u8]) -> (out: Vec<u8>)
    ensures
        out@ == wire_format(status_line@, content_type@, body@),
{
    let mut out: Vec<u8> = Vec::new();
    out.extend_from_slice(status_line.as_bytes());
    out.extend_from_slice("\r\n".as_bytes());
    out.extend_from_slice("Content-Type: ".as_bytes());
    out.extend_from_slice(content_type.as_bytes());
    out.extend_from_slice("\r\n".as_bytes());
    out.extend_from_slice("Content-Length: ".as_bytes());
    push_decimal(&mut out, body.len());
    out.extend_from_slice("\r\n".as_bytes());
    out.extend_from_slice("\r\n".as_bytes());
    out.extend_from_slice(body);
    out
}

impl Response {
    /// The response of every unmatched request: status 404, no content type, no body.
    pub fn not_found() -> (response: Response)
        ensures
            response@ == ResponseView::not_found(),
    {
        Response { status: Status::NotFound, content_type: ContentType::Empty, body: Vec::new() }
    }

    /// A response with status 200.
    pub fn ok(content_type: ContentType, body: Vec<u8>) -> (response: Response)
        ensures
            response@ == ResponseView::ok(content_type, body@),
    {
        Response { status: Status::Success, content_type, body }
    }

    /// The number that the `Content-Length` header declares: the length of the body in bytes.
    pub fn content_length(&self) -> (n: usize)
        ensures
            n == self@.content_length(),
            n == self@.body.len(),
    {
        self.body.len()
    }

    /// The bytes that carry this response.
    pub fn to_bytes(&self) -> (out: Vec<u8>)
        ensures
            out@ == self@.wire(),
    {
        build_response(self.status.as_line(), self.content_type.as_str(), self.body.as_slice())
    }
}

} // verus!
