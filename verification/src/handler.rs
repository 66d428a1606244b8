//! Handling one request: parsing the request line, checking the method,
//! resolving and loading the file, and rendering the response.
//!
//! The surrounding program reads one line from the accepted connection
//! and hands it here together with a snapshot of the served directory;
//! it writes the returned bytes back and closes the connection.

use vstd::prelude::*;
use vstd::utf8::encode_utf8;
use crate::file_loader::Directory;
use crate::file_loader::get_file_content_or_err;
use crate::file_loader::lemma_load_body_fits;
use crate::file_loader::load_spec;
use crate::file_loader::not_found_body;
use crate::path_resolver::get_full_path;
use crate::path_resolver::has_traversal;
use crate::path_resolver::index_candidates;
use crate::path_resolver::join_path_spec;
use crate::path_resolver::lemma_resolve_root_with_index;
use crate::path_resolver::lemma_resolve_root_without_index;
use crate::path_resolver::lemma_sanitize_identity;
use crate::path_resolver::resolve_spec;
use crate::response::Status;
use crate::response::format_response;
use crate::response::response_spec;
use crate::strutil::str_equal;

verus! {

/// The index of the first space at or after `from` in `s`, or the length
/// of `s` when no space follows.
pub open spec fn token_end(s: Seq<char>, from: int) -> int
    recommends
        0 <= from <= s.len(),
    decreases s.len() - from,
{
    if from >= s.len() {
        s.len() as int
    } else if s[from] == ' ' {
        from
    } else {
        token_end(s, from + 1)
    }
}

/// `token_end` stays within bounds, skips no space, and stops at one.
pub proof fn lemma_token_end(s: Seq<char>, from: int)
    requires
        0 <= from <= s.len(),
    ensures
        from <= token_end(s, from) <= s.len(),
        forall|k: int| from <= k < token_end(s, from) ==> s[k] != ' ',
        token_end(s, from) < s.len() ==> s[token_end(s, from)] == ' ',
    decreases s.len() - from,
{
    if from < s.len() && s[from] != ' ' {
        lemma_token_end(s, from + 1);
    }
}

/// The method token: everything before the first space.
pub open spec fn method_of(line: Seq<char>) -> Seq<char> {
    line.subrange(0, token_end(line, 0))
}

/// A second token exists on the line (a space separates it from the
/// method).
pub open spec fn has_target(line: Seq<char>) -> bool {
    token_end(line, 0) < line.len()
}

/// The target token: everything between the first space and the second,
/// or the end of the line.
pub open spec fn target_of(line: Seq<char>) -> Seq<char>
    recommends
        has_target(line),
{
    let e0 = token_end(line, 0);
    line.subrange(e0 + 1, token_end(line, e0 + 1))
}

/// What the request-line grammar guarantees of lines the handler
/// accepts: a retrieval request carries a target, and the target starts
/// with a slash.
pub open spec fn valid_request_line(line: Seq<char>) -> bool {
    method_of(line) == "GET"@ ==> {
        &&& has_target(line)
        &&& target_of(line).len() > 0
        &&& target_of(line)[0] == '/'
    }
}

/// The status and body determined for a request line: for a `GET`, the
/// outcome of resolving and loading the target; for any other method
/// token, a server error with a fixed message.
pub open spec fn handled_parts(fs: Directory, base: Seq<char>, line: Seq<char>) -> (
    Status,
    Seq<char>,
) {
    if method_of(line) == "GET"@ {
        load_spec(fs, resolve_spec(fs, base, target_of(line)))
    } else {
        (Status::ServerError, "Method unsupported"@)
    }
}

/// The full response bytes for a request line.
pub open spec fn handle_spec(fs: Directory, base: Seq<char>, line: Seq<char>) -> Seq<char> {
    response_spec(handled_parts(fs, base, line).0, handled_parts(fs, base, line).1)
}

/// Requesting `/` when `index.html` exists under the root yields `Okay`
/// with that file's exact content.
pub proof fn lemma_root_request_serves_index(
    fs: Directory,
    base: Seq<char>,
    line: Seq<char>,
    c: Seq<char>,
)
    requires
        fs.wf(),
        method_of(line) == "GET"@,
        has_target(line),
        target_of(line) == "/"@,
        fs.has_file(join_path_spec(base, "index.html"@)),
        fs.content_at(join_path_spec(base, "index.html"@)) == Some(c),
    ensures
        handled_parts(fs, base, line) == (Status::Okay, c),
{
    lemma_resolve_root_with_index(fs, base);
}

/// Requesting `/` when no index candidate exists under the root yields
/// what loading the fallback path `index.html` determines: `NotFound`
/// with its fixed message.
pub proof fn lemma_root_request_without_index(fs: Directory, base: Seq<char>, line: Seq<char>)
    requires
        fs.wf(),
        method_of(line) == "GET"@,
        has_target(line),
        target_of(line) == "/"@,
        forall|k: int|
            0 <= k < index_candidates().len() ==> !fs.has_file(
                join_path_spec(base, #[trigger] index_candidates()[k]),
            ),
    ensures
        handled_parts(fs, base, line) == (Status::NotFound, not_found_body()),
{
    lemma_resolve_root_without_index(fs, base);
    assert(index_candidates()[0] == "index.html"@);
}

/// Requesting a path whose resolved file does not exist yields
/// `NotFound` with the fixed message.
pub proof fn lemma_missing_file_not_found(fs: Directory, base: Seq<char>, line: Seq<char>)
    requires
        fs.wf(),
        method_of(line) == "GET"@,
        !fs.has_file(resolve_spec(fs, base, target_of(line))),
    ensures
        handled_parts(fs, base, line) == (Status::NotFound, not_found_body()),
{
}

/// Any method token other than `GET` yields `ServerError` with the fixed
/// message, regardless of target.
pub proof fn lemma_unsupported_method(fs: Directory, base: Seq<char>, line: Seq<char>)
    requires
        method_of(line) != "GET"@,
    ensures
        handled_parts(fs, base, line) == (Status::ServerError, "Method unsupported"@),
{
}

/// Round trip: a file `f` with content `c` recorded under the root is
/// served back unchanged by a request for `/f`. The outcome is a
/// function of the snapshot alone, so repeated requests yield the same
/// response.
pub proof fn lemma_round_trip(
    fs: Directory,
    base: Seq<char>,
    line: Seq<char>,
    f: Seq<char>,
    c: Seq<char>,
)
    requires
        fs.wf(),
        method_of(line) == "GET"@,
        has_target(line),
        target_of(line) == seq!['/'] + f,
        f.len() > 0,
        !has_traversal(f),
        fs.has_file(join_path_spec(base, f)),
        fs.content_at(join_path_spec(base, f)) == Some(c),
    ensures
        handled_parts(fs, base, line) == (Status::Okay, c),
{
    let target = seq!['/'] + f;
    reveal_strlit("/");
    assert(target.len() >= 2 && "/"@.len() == 1);
    assert(target != "/"@);
    assert(target.skip(1) =~= f);
    lemma_sanitize_identity(f);
}

/// The index of the first space at or after `from`, or the length of `s`
/// when no space follows.
fn find_space(s: &str, from: usize) -> (r: usize)
    requires
        from <= s@.len(),
    ensures
        r == token_end(s@, from as int),
        s@.len() <= usize::MAX,
{
    let n = s.unicode_len();
    let mut i = from;
    while i < n
        invariant
            n == s@.len(),
            from <= i <= n,
            token_end(s@, from as int) == token_end(s@, i as int),
        decreases n - i,
    {
        if s.get_char(i) == ' ' {
            return i;
        }
        i = i + 1;
    }
    i
}

/// Handles one request line against the snapshot: renders the response
/// that `handle_spec` states.
pub fn handle_request(fs: &Directory, base_path: &str, request_line: &str) -> (r: String)
    requires
        fs.wf(),
        valid_request_line(request_line@),
    ensures
        r@ == handle_spec(*fs, base_path@, request_line@),
{
    let e0 = find_space(request_line, 0);
    proof {
        lemma_token_end(request_line@, 0);
    }
    let method = request_line.substring_char(0, e0);
    if str_equal(method, "GET") {
        proof {
            assert(method@ =~= method_of(request_line@));
            assert(has_target(request_line@));
        }
        let e1 = find_space(request_line, e0 + 1);
        proof {
            lemma_token_end(request_line@, e0 as int + 1);
        }
        let target = request_line.substring_char(e0 + 1, e1);
        let full_path = get_full_path(fs, base_path, target);
        let (status, content) = get_file_content_or_err(fs, &full_path);
        proof {
            lemma_load_body_fits(*fs, full_path@);
        }
        format_response(status, content)
    } else {
        let body = String::from_str("Method unsupported");
        proof {
            reveal_strlit("Method unsupported");
            assert(vstd::utf8::is_ascii_chars(body@));
            vstd::utf8::is_ascii_chars_encode_utf8(body@);
        }
        format_response(Status::ServerError, body)
    }
}

} // verus!
