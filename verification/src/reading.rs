use vstd::prelude::*;
use vstd::utf8::{encode_utf8, is_ascii_chars, is_ascii_chars_encode_utf8};
use crate::response::{
    content_length_name, content_type_name, crlf, decimal, wire_format, ContentType,
    ResponseView, Status,
};
use crate::search::{
    first_occurrence, lemma_first_occurrence_is, lemma_first_occurrence_none, occurs_at,
};

verus! {

/// What ends the header block: the end of its last line, and the empty line.
pub open spec fn blank_line() -> Seq<u8> {
    crlf() + crlf()
}

/// What begins the content length header inside the header block.
pub open spec fn length_field() -> Seq<u8> {
    crlf() + content_length_name()
}

/// `digits` is a number in decimal: one digit or more, and digits only.
pub open spec fn is_decimal(digits: Seq<u8>) -> bool {
    &&& digits.len() > 0
    &&& forall|i: int| 0 <= i < digits.len() ==> 48 <= #[trigger] digits[i] <= 57
}

/// The number that the decimal digits `digits` denote.
pub open spec fn decimal_value(digits: Seq<u8>) -> nat
    decreases digits.len(),
{
    if digits.len() == 0 {
        0
    } else {
        (decimal_value(digits.drop_last()) * 10 + (digits.last() - 48)) as nat
    }
}

/// The header block of a message: all that precedes the first empty line, without the
/// ending of its last line.
pub open spec fn header_block(message: Seq<u8>) -> Option<Seq<u8>> {
    match first_occurrence(message, blank_line()) {
        Some(end) => Some(message.take(end)),
        None => None,
    }
}

/// All that follows the first empty line of a message.
pub open spec fn after_header_block(message: Seq<u8>) -> Option<Seq<u8>> {
    match first_occurrence(message, blank_line()) {
        Some(end) => Some(message.skip(end + blank_line().len())),
        None => None,
    }
}

/// The value of the first content length header in a header block: what follows the
/// header's name up to the end of that line.
pub open spec fn length_value(block: Seq<u8>) -> Option<Seq<u8>> {
    match first_occurrence(block, length_field()) {
        Some(at) => {
            let rest = block.skip(at + length_field().len());
            match first_occurrence(rest, crlf()) {
                Some(stop) => Some(rest.take(stop)),
                None => Some(rest),
            }
        },
        None => None,
    }
}

/// The body length that a message declares in its header block.
pub open spec fn declared_length(message: Seq<u8>) -> Option<nat> {
    match header_block(message) {
        Some(block) => match length_value(block) {
            Some(value) => if is_decimal(value) {
                Some(decimal_value(value))
            } else {
                None
            },
            None => None,
        },
        None => None,
    }
}

/// What a receiver reads as the body of a message: as many bytes after the header block
/// as the header block declares.
pub open spec fn declared_body(message: Seq<u8>) -> Option<Seq<u8>> {
    match (declared_length(message), after_header_block(message)) {
        (Some(n), Some(rest)) => if n <= rest.len() {
            Some(rest.take(n as int))
        } else {
            None
        },
        _ => None,
    }
}

/// No byte of `s` is a carriage return.
pub open spec fn cr_free(s: Seq<u8>) -> bool {
    forall|i: int| 0 <= i < s.len() ==> #[trigger] s[i] != 13
}

/// The line ending is a carriage return and a line feed.
proof fn lemma_crlf()
    ensures
        crlf() =~= seq![13u8, 10u8],
{
    reveal_strlit("\r\n");
    assert(is_ascii_chars("\r\n"@));
    is_ascii_chars_encode_utf8("\r\n"@);
}

/// The two header names: how long they are, where they differ, and that they hold no
/// carriage return.
proof fn lemma_header_names()
    ensures
        content_type_name().len() == 14,
        content_type_name()[8] == 84,
        cr_free(content_type_name()),
        content_length_name().len() == 16,
        content_length_name()[8] == 76,
        cr_free(content_length_name()),
{
    reveal_strlit("Content-Type: ");
    reveal_strlit("Content-Length: ");
    assert(is_ascii_chars("Content-Type: "@));
    assert(is_ascii_chars("Content-Length: "@));
    is_ascii_chars_encode_utf8("Content-Type: "@);
    is_ascii_chars_encode_utf8("Content-Length: "@);
}

/// No status line holds a carriage return.
proof fn lemma_status_line_cr_free(status: Status)
    ensures
        cr_free(encode_utf8(status.line())),
{
    reveal_strlit("HTTP/1.1 200 OK");
    reveal_strlit("HTTP/1.1 404 Not Found");
    assert(is_ascii_chars(status.line()));
    is_ascii_chars_encode_utf8(status.line());
}

/// No content type holds a carriage return.
proof fn lemma_content_type_cr_free(content_type: ContentType)
    ensures
        cr_free(encode_utf8(content_type.text())),
{
    reveal_strlit("");
    reveal_strlit("text/plain");
    reveal_strlit("application/octet");
    assert(is_ascii_chars(content_type.text()));
    is_ascii_chars_encode_utf8(content_type.text());
}

/// The decimal digits of a number denote that number.
pub proof fn lemma_decimal_value(n: nat)
    ensures
        is_decimal(decimal(n)),
        decimal_value(decimal(n)) == n,
    decreases n,
{
    if n < 10 {
        assert(decimal(n).drop_last() =~= Seq::<u8>::empty());
        assert(decimal_value(decimal(n).drop_last()) == 0);
    } else {
        lemma_decimal_value(n / 10);
        assert(decimal(n).drop_last() =~= decimal(n / 10));
    }
}

/// The header block that `wire_format` writes, without the ending of its last line.
pub open spec fn block_of(first: Seq<u8>, type_value: Seq<u8>, digits: Seq<u8>) -> Seq<u8> {
    first + crlf() + (content_type_name() + type_value) + crlf() + (content_length_name() + digits)
}

/// In a header block of three lines without a carriage return of their own, the carriage
/// returns are those that end the first two lines.
proof fn lemma_block_carriage_returns(first: Seq<u8>, type_value: Seq<u8>, digits: Seq<u8>, i: int)
    requires
        cr_free(first),
        cr_free(type_value),
        is_decimal(digits),
        0 <= i < block_of(first, type_value, digits).len(),
        block_of(first, type_value, digits)[i] == 13,
    ensures
        i == first.len() || i == first.len() + 2 + content_type_name().len() + type_value.len(),
{
    lemma_crlf();
    lemma_header_names();
}

/// The header block of a written message ends where the empty line was written, and the
/// body follows it.
proof fn lemma_header_block(first: Seq<u8>, type_value: Seq<u8>, digits: Seq<u8>, body: Seq<u8>)
    requires
        cr_free(first),
        cr_free(type_value),
        is_decimal(digits),
    ensures
        header_block(block_of(first, type_value, digits) + blank_line() + body) == Some(
            block_of(first, type_value, digits),
        ),
        after_header_block(block_of(first, type_value, digits) + blank_line() + body) == Some(body),
{
    lemma_crlf();
    lemma_header_names();
    let block = block_of(first, type_value, digits);
    let message = block + blank_line() + body;
    let end = block.len() as int;
    assert(message.subrange(end, end + 4) =~= blank_line());
    assert forall|j: int| 0 <= j < end implies !occurs_at(message, j, blank_line()) by {
        if occurs_at(message, j, blank_line()) {
            let window = message.subrange(j, j + 4);
            assert(window[0] == 13 && window[2] == 13);
            assert(message[j] == 13 && message[j + 2] == 13);
            assert(message[j] == block[j]);
            lemma_block_carriage_returns(first, type_value, digits, j);
            if j + 2 < end {
                assert(message[j + 2] == block[j + 2]);
                lemma_block_carriage_returns(first, type_value, digits, j + 2);
            }
        }
    }
    lemma_first_occurrence_is(message, blank_line(), end);
    assert(message.take(end) =~= block);
    assert(message.skip(end + blank_line().len()) =~= body);
}

/// The value of the content length header of a written header block is the digits that
/// were written.
proof fn lemma_length_value(first: Seq<u8>, type_value: Seq<u8>, digits: Seq<u8>)
    requires
        cr_free(first),
        cr_free(type_value),
        is_decimal(digits),
    ensures
        length_value(block_of(first, type_value, digits)) == Some(digits),
{
    lemma_crlf();
    lemma_header_names();
    let block = block_of(first, type_value, digits);
    let at = (first.len() + 2 + content_type_name().len() + type_value.len()) as int;
    assert(block.subrange(at, at + 18) =~= length_field());
    assert forall|j: int| 0 <= j < at implies !occurs_at(block, j, length_field()) by {
        if occurs_at(block, j, length_field()) {
            let window = block.subrange(j, j + 18);
            assert(window[0] == 13 && window[10] == 76);
            assert(block[j] == 13 && block[j + 10] == 76);
            lemma_block_carriage_returns(first, type_value, digits, j);
            assert(block[j + 10] == content_type_name()[8]);
        }
    }
    lemma_first_occurrence_is(block, length_field(), at);
    let rest = block.skip(at + length_field().len());
    assert(rest =~= digits);
    assert forall|j: int| !occurs_at(digits, j, crlf()) by {
        if occurs_at(digits, j, crlf()) {
            assert(digits.subrange(j, j + 2)[0] == 13);
            assert(digits[j] == 13);
        }
    }
    lemma_first_occurrence_none(digits, crlf());
}

/// What `wire_format` writes is a header block of three lines, the empty line and the body.
proof fn lemma_wire_format_parts(status_line: Seq<char>, content_type: Seq<char>, body: Seq<u8>)
    ensures
        wire_format(status_line, content_type, body) == block_of(
            encode_utf8(status_line),
            encode_utf8(content_type),
            decimal(body.len()),
        ) + blank_line() + body,
{
    let block = block_of(encode_utf8(status_line), encode_utf8(content_type), decimal(body.len()));
    assert(wire_format(status_line, content_type, body) =~= block + blank_line() + body);
}

/// What a receiver reads in a message whose header block declares the length of what
/// follows it.
proof fn lemma_declared(message: Seq<u8>, block: Seq<u8>, digits: Seq<u8>, body: Seq<u8>)
    requires
        header_block(message) == Some(block),
        after_header_block(message) == Some(body),
        length_value(block) == Some(digits),
        is_decimal(digits),
        decimal_value(digits) == body.len(),
    ensures
        declared_length(message) == Some(body.len()),
        declared_body(message) == Some(body),
{
    assert(body.take(body.len() as int) =~= body);
}

/// A receiver of the bytes that `wire_format` writes reads the length of the body as the
/// declared length, and the body as the declared body, when neither the status line nor
/// the content type holds a carriage return.
pub proof fn lemma_wire_format_round_trip(
    status_line: Seq<char>,
    content_type: Seq<char>,
    body: Seq<u8>,
)
    requires
        cr_free(encode_utf8(status_line)),
        cr_free(encode_utf8(content_type)),
    ensures
        declared_length(wire_format(status_line, content_type, body)) == Some(body.len()),
        declared_body(wire_format(status_line, content_type, body)) == Some(body),
{
    let first = encode_utf8(status_line);
    let type_value = encode_utf8(content_type);
    let digits = decimal(body.len());
    let block = block_of(first, type_value, digits);
    lemma_decimal_value(body.len());
    lemma_header_block(first, type_value, digits, body);
    lemma_length_value(first, type_value, digits);
    lemma_wire_format_parts(status_line, content_type, body);
    lemma_declared(wire_format(status_line, content_type, body), block, digits, body);
}

/// The content length of every response is the length of its body, and a receiver of its
/// bytes that reads the declared length, and then as many bytes after the header block,
/// has the body back.
pub proof fn wire_round_trip(response: ResponseView)
    ensures
        response.content_length() == response.body.len(),
        declared_length(response.wire()) == Some(response.body.len()),
        declared_body(response.wire()) == Some(response.body),
{
    lemma_status_line_cr_free(response.status);
    lemma_content_type_cr_free(response.content_type);
    lemma_wire_format_round_trip(
        response.status.line(),
        response.content_type.text(),
        response.body,
    );
}

} // verus!
