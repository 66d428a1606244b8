//! Turning a raw request target into the filesystem path to serve.
//!
//! The target is sanitized by stripping its single leading `/` and
//! removing every literal occurrence of `../` in one left-to-right pass,
//! then joined onto the configured root. A target of `/` first goes
//! through index discovery over a fixed list of conventional index file
//! names.

use vstd::prelude::*;
use crate::file_loader::Directory;
use crate::file_loader::file_exists;
use crate::strutil::str_equal;

verus! {

/// A parent-directory traversal sequence `../` starts at index `i` of `s`.
pub open spec fn is_traversal_at(s: Seq<char>, i: int) -> bool {
    &&& 0 <= i
    &&& i + 3 <= s.len()
    &&& s[i] == '.'
    &&& s[i + 1] == '.'
    &&& s[i + 2] == '/'
}

/// `s` contains the substring `../` somewhere.
pub open spec fn has_traversal(s: Seq<char>) -> bool {
    exists|i: int| is_traversal_at(s, i)
}

/// One left-to-right pass that removes every literal occurrence of
/// `../`: at each position, either three characters forming `../` are
/// skipped, or one character is kept.
pub open spec fn sanitize(s: Seq<char>) -> Seq<char>
    decreases s.len(),
{
    if s.len() == 0 {
        s
    } else if is_traversal_at(s, 0) {
        sanitize(s.skip(3))
    } else {
        seq![s[0]] + sanitize(s.skip(1))
    }
}

/// Removes every literal occurrence of `../` from the path, scanning
/// once from the left.
pub fn remove_traversals(path: &str) -> (r: String)
    ensures
        r@ == sanitize(path@),
{
    let n = path.unicode_len();
    let mut out = String::new();
    let mut i: usize = 0;
    proof {
        assert(path@.skip(0) =~= path@);
        assert(out@ + sanitize(path@) =~= sanitize(path@));
    }
    while i < n
        invariant
            n == path@.len(),
            i <= n,
            sanitize(path@) == out@ + sanitize(path@.skip(i as int)),
        decreases n - i,
    {
        if n - i >= 3 && path.get_char(i) == '.' && path.get_char(i + 1) == '.' && path.get_char(
            i + 2,
        ) == '/' {
            proof {
                assert(is_traversal_at(path@.skip(i as int), 0));
                assert(path@.skip(i as int).skip(3) =~= path@.skip(i as int + 3));
            }
            i = i + 3;
        } else {
            proof {
                assert(!is_traversal_at(path@.skip(i as int), 0));
                assert(path@.skip(i as int).skip(1) =~= path@.skip(i as int + 1));
            }
            out.push(path.get_char(i));
            i = i + 1;
        }
    }
    proof {
        assert(path@.skip(n as int) =~= Seq::<char>::empty());
        assert(out@ =~= sanitize(path@));
    }
    out
}

/// A traversal sequence at index `i + 1` immediately preceded by a dot.
/// Removing such a traversal splices its neighbours into a new `../`
/// (for example `....//` becomes `../`), so the single pass does not
/// guard against it.
pub open spec fn is_masked_traversal_at(s: Seq<char>, i: int) -> bool {
    &&& 0 <= i
    &&& i + 4 <= s.len()
    &&& s[i] == '.'
    &&& is_traversal_at(s, i + 1)
}

/// `s` contains a traversal sequence immediately preceded by a dot.
pub open spec fn has_masked_traversal(s: Seq<char>) -> bool {
    exists|i: int| is_masked_traversal_at(s, i)
}

/// Dropping a prefix cannot introduce a traversal sequence.
proof fn lemma_skip_traversal_free(s: Seq<char>, k: int)
    requires
        0 <= k <= s.len(),
    ensures
        !has_traversal(s) ==> !has_traversal(s.skip(k)),
        !has_masked_traversal(s) ==> !has_masked_traversal(s.skip(k)),
{
    if !has_traversal(s) {
        assert forall|i: int| !is_traversal_at(s.skip(k), i) by {
            if is_traversal_at(s.skip(k), i) {
                assert(is_traversal_at(s, i + k));
            }
        }
    }
    if !has_masked_traversal(s) {
        assert forall|i: int| !is_masked_traversal_at(s.skip(k), i) by {
            if is_masked_traversal_at(s.skip(k), i) {
                assert(is_masked_traversal_at(s, i + k));
            }
        }
    }
}

/// A path without traversal sequences passes through sanitization
/// unchanged.
pub proof fn lemma_sanitize_identity(s: Seq<char>)
    requires
        !has_traversal(s),
    ensures
        sanitize(s) == s,
    decreases s.len(),
{
    if s.len() == 0 {
    } else {
        assert(!is_traversal_at(s, 0));
        lemma_skip_traversal_free(s, 1);
        lemma_sanitize_identity(s.skip(1));
        assert(seq![s[0]] + s.skip(1) =~= s);
    }
}

/// Where the sanitized path starts with a slash, the input started with
/// a slash or with a traversal sequence.
proof fn lemma_sanitize_head_slash(s: Seq<char>)
    requires
        sanitize(s).len() > 0,
        sanitize(s)[0] == '/',
    ensures
        s.len() > 0,
        s[0] == '/' || is_traversal_at(s, 0),
    decreases s.len(),
{
    if s.len() == 0 {
    } else if is_traversal_at(s, 0) {
    } else {
        assert(sanitize(s)[0] == s[0]);
    }
}

/// Where the sanitized path starts with `./` and the input holds no
/// masked traversal, the input started with `./` or with a traversal
/// sequence.
proof fn lemma_sanitize_head_dot_slash(s: Seq<char>)
    requires
        !has_masked_traversal(s),
        sanitize(s).len() >= 2,
        sanitize(s)[0] == '.',
        sanitize(s)[1] == '/',
    ensures
        (s.len() >= 2 && s[0] == '.' && s[1] == '/') || is_traversal_at(s, 0),
    decreases s.len(),
{
    if s.len() == 0 {
    } else if is_traversal_at(s, 0) {
    } else {
        let t = sanitize(s.skip(1));
        assert(sanitize(s)[0] == s[0]);
        assert(t.len() >= 1 && t[0] == '/');
        lemma_sanitize_head_slash(s.skip(1));
        if is_traversal_at(s.skip(1), 0) {
            assert(is_masked_traversal_at(s, 0));
        } else {
            assert(s[1] == s.skip(1)[0]);
        }
    }
}

/// Sanitization removes every traversal sequence: for every path in
/// which no `../` is immediately preceded by a dot, the sanitized path
/// contains no `../` substring.
pub proof fn lemma_sanitize_no_traversal(s: Seq<char>)
    requires
        !has_masked_traversal(s),
    ensures
        !has_traversal(sanitize(s)),
    decreases s.len(),
{
    if s.len() == 0 {
    } else if is_traversal_at(s, 0) {
        lemma_skip_traversal_free(s, 3);
        lemma_sanitize_no_traversal(s.skip(3));
    } else {
        lemma_skip_traversal_free(s, 1);
        lemma_sanitize_no_traversal(s.skip(1));
        let t = sanitize(s.skip(1));
        let r = seq![s[0]] + t;
        assert forall|i: int| !is_traversal_at(r, i) by {
            if is_traversal_at(r, i) {
                if i == 0 {
                    assert(t[0] == '.' && t[1] == '/');
                    lemma_sanitize_head_dot_slash(s.skip(1));
                    if is_traversal_at(s.skip(1), 0) {
                        assert(is_masked_traversal_at(s, 0));
                    } else {
                        assert(s[1] == s.skip(1)[0] && s[2] == s.skip(1)[1]);
                        assert(is_traversal_at(s, 0));
                    }
                } else {
                    assert(is_traversal_at(t, i - 1));
                }
            }
        }
    }
}

/// Joining a relative path onto a base path, as filesystem path joining
/// works on Unix: an absolute right-hand side replaces the base, an
/// empty base disappears, and otherwise a single separator stands
/// between the two parts.
pub open spec fn join_path_spec(base: Seq<char>, rel: Seq<char>) -> Seq<char> {
    if rel.len() > 0 && rel[0] == '/' {
        rel
    } else if base.len() == 0 {
        rel
    } else if base[base.len() - 1] == '/' {
        base + rel
    } else {
        base + seq!['/'] + rel
    }
}

/// Joins `rel` onto `base` as `join_path_spec` states.
pub fn join_path(base: &str, rel: &str) -> (r: String)
    ensures
        r@ == join_path_spec(base@, rel@),
{
    let nb = base.unicode_len();
    let nr = rel.unicode_len();
    if nr > 0 && rel.get_char(0) == '/' {
        String::from_str(rel)
    } else if nb == 0 {
        String::from_str(rel)
    } else if base.get_char(nb - 1) == '/' {
        let mut r = String::from_str(base);
        r.append(rel);
        r
    } else {
        let mut r = String::from_str(base);
        r.push('/');
        r.append(rel);
        proof {
            assert(r@ =~= join_path_spec(base@, rel@));
        }
        r
    }
}

/// The conventional index file names consulted, in order, when the
/// request target is `/`.
pub open spec fn index_candidates() -> Seq<Seq<char>> {
    seq![
        "index.html"@,
        "index.htm"@,
        "index.xhtml"@,
        "index.xml"@,
        "index.md"@,
        "index.txt"@,
    ]
}

/// The target substituted for `/`: a leading slash followed by the first
/// index candidate that exists under the base path, or `/index.html`
/// when none does.
pub open spec fn index_file_spec(fs: Directory, base: Seq<char>) -> Seq<char> {
    if fs.has_file(join_path_spec(base, "index.html"@)) {
        seq!['/'] + "index.html"@
    } else if fs.has_file(join_path_spec(base, "index.htm"@)) {
        seq!['/'] + "index.htm"@
    } else if fs.has_file(join_path_spec(base, "index.xhtml"@)) {
        seq!['/'] + "index.xhtml"@
    } else if fs.has_file(join_path_spec(base, "index.xml"@)) {
        seq!['/'] + "index.xml"@
    } else if fs.has_file(join_path_spec(base, "index.md"@)) {
        seq!['/'] + "index.md"@
    } else if fs.has_file(join_path_spec(base, "index.txt"@)) {
        seq!['/'] + "index.txt"@
    } else {
        "/index.html"@
    }
}

fn candidate_exists(fs: &Directory, base_path: &str, name: &str) -> (r: bool)
    ensures
        r == fs.has_file(join_path_spec(base_path@, name@)),
{
    let joined = join_path(base_path, name);
    file_exists(fs, &joined)
}

fn slash_prefixed(name: &str) -> (r: String)
    ensures
        r@ == seq!['/'] + name@,
{
    let mut r = String::from_str("/");
    r.append(name);
    proof {
        reveal_strlit("/");
        assert(r@ =~= seq!['/'] + name@);
    }
    r
}

/// Picks the target substituted for `/`: the first index candidate that
/// exists under the base path, with a leading slash, or `/index.html`
/// when none exists.
pub fn get_index_file(fs: &Directory, base_path: &str) -> (r: String)
    ensures
        r@ == index_file_spec(*fs, base_path@),
{
    if candidate_exists(fs, base_path, "index.html") {
        slash_prefixed("index.html")
    } else if candidate_exists(fs, base_path, "index.htm") {
        slash_prefixed("index.htm")
    } else if candidate_exists(fs, base_path, "index.xhtml") {
        slash_prefixed("index.xhtml")
    } else if candidate_exists(fs, base_path, "index.xml") {
        slash_prefixed("index.xml")
    } else if candidate_exists(fs, base_path, "index.md") {
        slash_prefixed("index.md")
    } else if candidate_exists(fs, base_path, "index.txt") {
        slash_prefixed("index.txt")
    } else {
        String::from_str("/index.html")
    }
}

/// The resolved filesystem path for a request target: the target (or,
/// for `/`, the discovered index file) with its leading slash stripped
/// and every `../` removed, joined onto the base path.
pub open spec fn resolve_spec(fs: Directory, base: Seq<char>, target: Seq<char>) -> Seq<char> {
    let start = if target == "/"@ {
        index_file_spec(fs, base)
    } else {
        target
    };
    join_path_spec(base, sanitize(start.skip(1)))
}

/// Every branch of index discovery yields a target with a leading slash.
proof fn lemma_index_file_starts_with_slash(fs: Directory, base: Seq<char>)
    ensures
        index_file_spec(fs, base).len() > 0,
        index_file_spec(fs, base)[0] == '/',
{
    reveal_strlit("/index.html");
}

/// Resolves a request target to the filesystem path to serve, as
/// `resolve_spec` states. The request line grammar guarantees a leading
/// slash on the target.
pub fn get_full_path(fs: &Directory, base_path: &str, path: &str) -> (r: String)
    requires
        path@.len() > 0,
        path@[0] == '/',
    ensures
        r@ == resolve_spec(*fs, base_path@, path@),
{
    let start: String = if str_equal(path, "/") {
        proof {
            lemma_index_file_starts_with_slash(*fs, base_path@);
        }
        get_index_file(fs, base_path)
    } else {
        String::from_str(path)
    };
    let n = start.as_str().unicode_len();
    let stripped = start.as_str().substring_char(1, n);
    proof {
        assert(stripped@ =~= start@.skip(1));
    }
    let cleaned = remove_traversals(stripped);
    join_path(base_path, cleaned.as_str())
}

/// Joining two traversal-free parts yields a traversal-free path,
/// provided the base does not end with a dot (a dot there could meet a
/// relative part starting with `./` or `/`).
proof fn lemma_join_traversal_free(base: Seq<char>, rel: Seq<char>)
    requires
        !has_traversal(base),
        base.len() > 0 ==> base[base.len() - 1] != '.',
        !has_traversal(rel),
    ensures
        !has_traversal(join_path_spec(base, rel)),
{
    let r = join_path_spec(base, rel);
    let bl = base.len() as int;
    if rel.len() > 0 && rel[0] == '/' {
    } else if base.len() == 0 {
    } else if base[bl - 1] == '/' {
        assert forall|i: int| !is_traversal_at(r, i) by {
            if is_traversal_at(r, i) {
                if i + 3 <= bl {
                    assert(is_traversal_at(base, i));
                } else if i >= bl {
                    assert(is_traversal_at(rel, i - bl));
                } else {
                    assert(r[bl - 1] == '/');
                }
            }
        }
    } else {
        assert forall|i: int| !is_traversal_at(r, i) by {
            if is_traversal_at(r, i) {
                if i + 3 <= bl {
                    assert(is_traversal_at(base, i));
                } else if i > bl {
                    assert(is_traversal_at(rel, i - bl - 1));
                } else {
                    assert(r[bl] == '/');
                    assert(r[bl - 1] == base[bl - 1]);
                }
            }
        }
    }
}

/// No index candidate, and no fallback, holds a traversal sequence.
proof fn lemma_index_file_traversal_free(fs: Directory, base: Seq<char>)
    ensures
        !has_traversal(index_file_spec(fs, base)),
{
    reveal_strlit("index.html");
    reveal_strlit("index.htm");
    reveal_strlit("index.xhtml");
    reveal_strlit("index.xml");
    reveal_strlit("index.md");
    reveal_strlit("index.txt");
    reveal_strlit("/index.html");
    assert(!has_traversal(seq!['/'] + "index.html"@));
    assert(!has_traversal(seq!['/'] + "index.htm"@));
    assert(!has_traversal(seq!['/'] + "index.xhtml"@));
    assert(!has_traversal(seq!['/'] + "index.xml"@));
    assert(!has_traversal(seq!['/'] + "index.md"@));
    assert(!has_traversal(seq!['/'] + "index.txt"@));
    assert(!has_traversal("/index.html"@));
}

/// Path sanitization defends against parent-directory traversal: for
/// every request target in which no `../` is immediately preceded by a
/// dot, and a root that is itself traversal-free and does not end with a
/// dot, the resolved path contains no `../` substring. (Removing a
/// traversal that another dot precedes can splice a new one — `/....//`
/// resolves to a path holding `../` — so such targets are excluded.)
pub proof fn lemma_resolved_path_no_traversal(
    fs: Directory,
    base: Seq<char>,
    target: Seq<char>,
)
    requires
        target.len() > 0,
        target[0] == '/',
        !has_masked_traversal(target),
        !has_traversal(base),
        base.len() > 0 ==> base[base.len() - 1] != '.',
    ensures
        !has_traversal(resolve_spec(fs, base, target)),
{
    let start = if target == "/"@ {
        index_file_spec(fs, base)
    } else {
        target
    };
    if target == "/"@ {
        lemma_index_file_traversal_free(fs, base);
        lemma_index_file_starts_with_slash(fs, base);
        lemma_skip_traversal_free(start, 1);
        lemma_sanitize_identity(start.skip(1));
        lemma_join_traversal_free(base, sanitize(start.skip(1)));
    } else {
        lemma_skip_traversal_free(target, 1);
        lemma_sanitize_no_traversal(target.skip(1));
        lemma_join_traversal_free(base, sanitize(target.skip(1)));
    }
}

/// When `index.html` exists under the base path, the target `/` resolves
/// to it: index discovery picks it first, and its name passes through
/// sanitization unchanged.
pub proof fn lemma_resolve_root_with_index(fs: Directory, base: Seq<char>)
    requires
        fs.has_file(join_path_spec(base, "index.html"@)),
    ensures
        resolve_spec(fs, base, "/"@) == join_path_spec(base, "index.html"@),
{
    reveal_strlit("index.html");
    let start = index_file_spec(fs, base);
    assert(start == seq!['/'] + "index.html"@);
    assert(start.skip(1) =~= "index.html"@);
    assert(!has_traversal("index.html"@));
    lemma_sanitize_identity("index.html"@);
}

/// When no index candidate exists under the base path, the target `/`
/// resolves to the fallback `index.html` under the base path.
pub proof fn lemma_resolve_root_without_index(fs: Directory, base: Seq<char>)
    requires
        forall|k: int|
            0 <= k < index_candidates().len() ==> !fs.has_file(
                join_path_spec(base, #[trigger] index_candidates()[k]),
            ),
    ensures
        resolve_spec(fs, base, "/"@) == join_path_spec(base, "index.html"@),
{
    assert(index_candidates()[0] == "index.html"@);
    assert(index_candidates()[1] == "index.htm"@);
    assert(index_candidates()[2] == "index.xhtml"@);
    assert(index_candidates()[3] == "index.xml"@);
    assert(index_candidates()[4] == "index.md"@);
    assert(index_candidates()[5] == "index.txt"@);
    let start = index_file_spec(fs, base);
    assert(start == "/index.html"@);
    reveal_strlit("/index.html");
    reveal_strlit("index.html");
    assert(start.skip(1) =~= "index.html"@);
    assert(!has_traversal("index.html"@));
    lemma_sanitize_identity("index.html"@);
}

} // verus!

