//! Response statuses and wire formatting.
//!
//! A response is a status line, a `Content-Length` header computed from
//! the byte length of the body, a blank line, and the body, joined with
//! CRLF line endings. No other headers are emitted.

use vstd::prelude::*;
use vstd::utf8::encode_utf8;

verus! {

/// Outcome of handling one request; maps one-to-one to an HTTP status line.
#[derive(Clone, Copy, Debug, PartialEq, Eq, Structural)]
pub enum Status {
    Okay,
    NotFound,
    ServerError,
}

/// The status line rendered for each status.
pub open spec fn status_line_spec(status: Status) -> Seq<char> {
    match status {
        Status::Okay => "HTTP/1.1 200 OK"@,
        Status::NotFound => "HTTP/1.1 404 NOT FOUND"@,
        Status::ServerError => "HTTP/1.1 500 INTERNAL SERVER ERROR"@,
    }
}

/// The decimal digit character for a value below ten.
pub open spec fn digit_char(d: nat) -> char
    recommends
        d < 10,
{
    if d == 0 {
        '0'
    } else if d == 1 {
        '1'
    } else if d == 2 {
        '2'
    } else if d == 3 {
        '3'
    } else if d == 4 {
        '4'
    } else if d == 5 {
        '5'
    } else if d == 6 {
        '6'
    } else if d == 7 {
        '7'
    } else if d == 8 {
        '8'
    } else {
        '9'
    }
}

/// The decimal rendering of a natural number, without leading zeros
/// (except for the number zero itself).
pub open spec fn decimal_of(n: nat) -> Seq<char>
    decreases n,
{
    if n < 10 {
        seq![digit_char(n)]
    } else {
        decimal_of(n / 10) + seq![digit_char(n % 10)]
    }
}

/// The full wire format for a status and body: status line, a
/// `Content-Length` header holding the byte length of the body, a blank
/// line, and the body, joined with CRLF.
pub open spec fn response_spec(status: Status, body: Seq<char>) -> Seq<char> {
    status_line_spec(status) + "\r\nContent-Length: "@ + decimal_of(encode_utf8(body).len())
        + "\r\n\r\n"@ + body
}

fn digit_char_exec(d: usize) -> (c: char)
    requires
        d < 10,
    ensures
        c == digit_char(d as nat),
{
    if d == 0 {
        '0'
    } else if d == 1 {
        '1'
    } else if d == 2 {
        '2'
    } else if d == 3 {
        '3'
    } else if d == 4 {
        '4'
    } else if d == 5 {
        '5'
    } else if d == 6 {
        '6'
    } else if d == 7 {
        '7'
    } else if d == 8 {
        '8'
    } else {
        '9'
    }
}

/// Renders a number in decimal.
pub fn usize_to_string(n: usize) -> (r: String)
    ensures
        r@ == decimal_of(n as nat),
    decreases n,
{
    if n < 10 {
        let mut s = String::new();
        s.push(digit_char_exec(n));
        proof {
            assert(s@ =~= decimal_of(n as nat));
        }
        s
    } else {
        let mut s = usize_to_string(n / 10);
        s.push(digit_char_exec(n % 10));
        s
    }
}

fn status_line(status: Status) -> (r: &'static str)
    ensures
        r@ == status_line_spec(status),
{
    match status {
        Status::Okay => "HTTP/1.1 200 OK",
        Status::NotFound => "HTTP/1.1 404 NOT FOUND",
        Status::ServerError => "HTTP/1.1 500 INTERNAL SERVER ERROR",
    }
}

/// Renders a status and body into the bytes put on the wire.
pub fn format_response(status: Status, content: String) -> (r: String)
    requires
        encode_utf8(content@).len() <= usize::MAX,
    ensures
        r@ == response_spec(status, content@),
{
    let length = usize_to_string(content.as_str().len());
    let mut r = String::from_str(status_line(status));
    r.append("\r\nContent-Length: ");
    r.append(length.as_str());
    r.append("\r\n\r\n");
    r.append(content.as_str());
    proof {
        assert(r@ =~= response_spec(status, content@));
    }
    r
}

} // verus!
