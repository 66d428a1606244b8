//! File retrieval against a snapshot of the served directory tree.
//!
//! The filesystem is modelled as a `Directory`: the set of paths that
//! exist, each with its text content, or no content where the entry
//! exists but cannot be read as text. The surrounding program takes the
//! snapshot; every decision made from it is verified here.

use vstd::prelude::*;
use vstd::utf8::encode_utf8;
use crate::response::Status;
use crate::strutil::str_equal;

verus! {

/// One filesystem entry: its path, and its text content, or `None` where
/// the entry exists but cannot be read as valid text.
pub struct FileEntry {
    pub path: String,
    pub content: Option<String>,
}

/// A snapshot of the filesystem entries visible to the server.
pub struct Directory {
    pub files: Vec<FileEntry>,
}

impl Directory {
    /// An entry exists at path `p`.
    pub open spec fn has_file(self, p: Seq<char>) -> bool {
        exists|i: int| 0 <= i < self.files@.len() && self.files@[i].path@ == p
    }

    /// The content recorded for path `p`, assuming an entry exists there.
    pub open spec fn content_at(self, p: Seq<char>) -> Option<Seq<char>>
        recommends
            self.has_file(p),
    {
        let i = choose|i: int| 0 <= i < self.files@.len() && self.files@[i].path@ == p;
        self.files@[i].content.deep_view()
    }

    /// Well-formed snapshots list each path once, and every content fits
    /// in memory (its byte length fits in `usize`).
    pub open spec fn wf(self) -> bool {
        &&& forall|i: int, j: int|
            0 <= i < j < self.files@.len() ==> self.files@[i].path@ != self.files@[j].path@
        &&& forall|i: int|
            0 <= i < self.files@.len() ==> match #[trigger] self.files@[i].content {
                Some(c) => encode_utf8(c@).len() <= usize::MAX,
                None => true,
            }
    }

    /// In a well-formed snapshot the entry at index `i` is the one that
    /// `content_at` describes for its path.
    pub proof fn lemma_content_at(self, i: int)
        requires
            self.wf(),
            0 <= i < self.files@.len(),
        ensures
            self.has_file(self.files@[i].path@),
            self.content_at(self.files@[i].path@) == self.files@[i].content.deep_view(),
    {
        let p = self.files@[i].path@;
        assert(self.has_file(p));
        let j = choose|j: int| 0 <= j < self.files@.len() && self.files@[j].path@ == p;
        assert(i == j);
    }

    /// In a well-formed snapshot every readable content's byte length
    /// fits in `usize`.
    pub proof fn lemma_content_byte_len(self, p: Seq<char>)
        requires
            self.wf(),
            self.has_file(p),
        ensures
            match self.content_at(p) {
                Some(c) => encode_utf8(c).len() <= usize::MAX,
                None => true,
            },
    {
    }
}

/// The body returned with a `NotFound` status.
pub open spec fn not_found_body() -> Seq<char> {
    "Could not find requested file"@
}

/// The body returned with a `ServerError` status when a file cannot be
/// read.
pub open spec fn server_error_body() -> Seq<char> {
    "An unexpected error has occurred"@
}

/// What loading path `p` from the snapshot yields: `NotFound` with a
/// fixed message where no entry exists, `ServerError` with a fixed
/// message where the entry cannot be read as text, and otherwise `Okay`
/// with the exact content.
pub open spec fn load_spec(fs: Directory, p: Seq<char>) -> (Status, Seq<char>) {
    if !fs.has_file(p) {
        (Status::NotFound, not_found_body())
    } else {
        match fs.content_at(p) {
            Some(c) => (Status::Okay, c),
            None => (Status::ServerError, server_error_body()),
        }
    }
}

/// The fixed message bodies are plain ASCII, so their byte length is
/// their character count.
pub proof fn lemma_fixed_bodies_ascii()
    ensures
        vstd::utf8::is_ascii_chars(not_found_body()),
        vstd::utf8::is_ascii_chars(server_error_body()),
        encode_utf8(not_found_body()).len() == not_found_body().len(),
        encode_utf8(server_error_body()).len() == server_error_body().len(),
        not_found_body().len() == 29,
        server_error_body().len() == 32,
{
    reveal_strlit("Could not find requested file");
    reveal_strlit("An unexpected error has occurred");
    assert(vstd::utf8::is_ascii_chars(not_found_body()));
    assert(vstd::utf8::is_ascii_chars(server_error_body()));
    vstd::utf8::is_ascii_chars_encode_utf8(not_found_body());
    vstd::utf8::is_ascii_chars_encode_utf8(server_error_body());
}

/// Whatever loading yields, the body's byte length fits in `usize`: file
/// contents by well-formedness of the snapshot, and the fixed messages
/// because they are short ASCII text.
pub proof fn lemma_load_body_fits(fs: Directory, p: Seq<char>)
    requires
        fs.wf(),
    ensures
        encode_utf8(load_spec(fs, p).1).len() <= usize::MAX,
{
    lemma_fixed_bodies_ascii();
    if fs.has_file(p) {
        fs.lemma_content_byte_len(p);
    }
}

/// Whether an entry exists at the given path in the snapshot.
pub fn file_exists(fs: &Directory, file: &String) -> (r: bool)
    ensures
        r == fs.has_file(file@),
{
    let n = fs.files.len();
    let mut i: usize = 0;
    while i < n
        invariant
            n == fs.files@.len(),
            i <= n,
            forall|k: int| 0 <= k < i ==> fs.files@[k].path@ != file@,
        decreases n - i,
    {
        if str_equal(fs.files[i].path.as_str(), file.as_str()) {
            return true;
        }
        i = i + 1;
    }
    false
}

/// The fixed message body for a missing file.
pub fn get_404() -> (r: String)
    ensures
        r@ == not_found_body(),
{
    String::from_str("Could not find requested file")
}

/// The fixed message body for an unreadable file.
pub fn get_500() -> (r: String)
    ensures
        r@ == server_error_body(),
{
    String::from_str("An unexpected error has occurred")
}

/// Loads the file at `file` from the snapshot, translating the outcome
/// into a response status and body as `load_spec` states.
pub fn get_file_content_or_err(fs: &Directory, file: &String) -> (r: (Status, String))
    requires
        fs.wf(),
    ensures
        r.0 == load_spec(*fs, file@).0,
        r.1@ == load_spec(*fs, file@).1,
{
    let n = fs.files.len();
    let mut i: usize = 0;
    while i < n
        invariant
            fs.wf(),
            n == fs.files@.len(),
            i <= n,
            forall|k: int| 0 <= k < i ==> fs.files@[k].path@ != file@,
        decreases n - i,
    {
        if str_equal(fs.files[i].path.as_str(), file.as_str()) {
            proof {
                fs.lemma_content_at(i as int);
            }
            match &fs.files[i].content {
                Some(c) => {
                    return (Status::Okay, c.clone());
                },
                None => {
                    return (Status::ServerError, get_500());
                },
            }
        }
        i = i + 1;
    }
    assert(!fs.has_file(file@));
    (Status::NotFound, get_404())
}

} // verus!
