//! From a parsed request to the path of the file to serve.
//!
//! Only the first line of a request is interpreted. Its second
//! whitespace-separated token is the request target; the root target `/` is
//! served as `index.html`, and every other target is used verbatim. The file
//! to serve is the target joined onto the fixed document root with a single
//! `/`, so a target that itself starts with `/` yields a double slash, which
//! still resolves on the host filesystem.

use vstd::prelude::*;
use vstd::string::*;
use crate::text::str_eq;

verus! {

/// The separators the request line is split on.
pub open spec fn is_space(c: char) -> bool {
    c == ' ' || c == '\t' || c == '\r' || c == '\n'
}

/// First index at or after `i` holding a non-space, or the length of `s`.
pub open spec fn skip_spaces(s: Seq<char>, i: int) -> int
    decreases s.len() - i,
{
    if i < 0 || i >= s.len() {
        s.len() as int
    } else if is_space(s[i]) {
        skip_spaces(s, i + 1)
    } else {
        i
    }
}

/// First index at or after `i` holding a space, or the length of `s`.
pub open spec fn skip_token(s: Seq<char>, i: int) -> int
    decreases s.len() - i,
{
    if i < 0 || i >= s.len() {
        s.len() as int
    } else if !is_space(s[i]) {
        skip_token(s, i + 1)
    } else {
        i
    }
}

/// Where the second whitespace-separated token of `line` starts.
pub open spec fn second_token_start(line: Seq<char>) -> int {
    skip_spaces(line, skip_token(line, skip_spaces(line, 0)))
}

/// Where the second whitespace-separated token of `line` ends.
pub open spec fn second_token_end(line: Seq<char>) -> int {
    skip_token(line, second_token_start(line))
}

/// Whether `line` holds a request target (a second token) at all.
pub open spec fn has_request_target(line: Seq<char>) -> bool {
    second_token_start(line) < line.len()
}

/// The request target: the second whitespace-separated token of `line`.
pub open spec fn request_target(line: Seq<char>) -> Seq<char> {
    line.subrange(second_token_start(line), second_token_end(line))
}

/// The root target `/` is served as `index.html`; every other target is
/// used verbatim.
pub open spec fn resolve_target(target: Seq<char>) -> Seq<char> {
    if target == "/"@ {
        "index.html"@
    } else {
        target
    }
}

/// The path of the file a request whose first line is `line` asks for.
pub open spec fn request_path(line: Seq<char>) -> Seq<char> {
    resolve_target(request_target(line))
}

/// The requested path joined onto the fixed document root `public`.
pub open spec fn file_path_for(path: Seq<char>) -> Seq<char> {
    "public/"@ + path
}

/// Requesting `/` is the same as requesting `index.html`: both requests
/// resolve to the same path, so the same file is looked up under the
/// document root and, for the same file content, the same response is sent.
pub proof fn lemma_root_is_index(line_root: Seq<char>, line_index: Seq<char>)
    requires
        request_target(line_root) == "/"@,
        request_target(line_index) == "index.html"@,
    ensures
        request_path(line_root) == request_path(line_index),
        file_path_for(request_path(line_root)) == file_path_for(request_path(line_index)),
{
    reveal_strlit("/");
    reveal_strlit("index.html");
    assert("/"@.len() == 1);
    assert("index.html"@.len() == 10);
}

/// A scan that walked over spaces from `from` to `i` and stopped at the end
/// or at a non-space found exactly `skip_spaces`.
proof fn lemma_skip_spaces_scan(s: Seq<char>, from: int, i: int)
    requires
        0 <= from <= i <= s.len(),
        forall|j: int| from <= j < i ==> is_space(s[j]),
        i == s.len() || !is_space(s[i]),
    ensures
        skip_spaces(s, from) == i,
    decreases i - from,
{
    if from < i {
        lemma_skip_spaces_scan(s, from + 1, i);
    }
}

/// A scan that walked over non-spaces from `from` to `i` and stopped at the
/// end or at a space found exactly `skip_token`.
proof fn lemma_skip_token_scan(s: Seq<char>, from: int, i: int)
    requires
        0 <= from <= i <= s.len(),
        forall|j: int| from <= j < i ==> !is_space(s[j]),
        i == s.len() || is_space(s[i]),
    ensures
        skip_token(s, from) == i,
    decreases i - from,
{
    if from < i {
        lemma_skip_token_scan(s, from + 1, i);
    }
}

/// Advances `from` past any spaces.
fn skip_spaces_exec(s: &str, from: usize, n: usize) -> (r: usize)
    requires
        n == s@.len(),
        from <= n,
    ensures
        r == skip_spaces(s@, from as int),
        from <= r <= n,
{
    let mut i: usize = from;
    loop
        invariant
            n == s@.len(),
            from <= i <= n,
            forall|j: int| from <= j < i ==> is_space(s@[j]),
        ensures
            from <= i <= n,
            forall|j: int| from <= j < i ==> is_space(s@[j]),
            i == n || !is_space(s@[i as int]),
        decreases n - i,
    {
        if i == n {
            break;
        }
        let c = s.get_char(i);
        if !(c == ' ' || c == '\t' || c == '\r' || c == '\n') {
            break;
        }
        i = i + 1;
    }
    proof {
        lemma_skip_spaces_scan(s@, from as int, i as int);
    }
    i
}

/// Advances `from` past the token it stands on, up to the next space.
fn skip_token_exec(s: &str, from: usize, n: usize) -> (r: usize)
    requires
        n == s@.len(),
        from <= n,
    ensures
        r == skip_token(s@, from as int),
        from <= r <= n,
{
    let mut i: usize = from;
    loop
        invariant
            n == s@.len(),
            from <= i <= n,
            forall|j: int| from <= j < i ==> !is_space(s@[j]),
        ensures
            from <= i <= n,
            forall|j: int| from <= j < i ==> !is_space(s@[j]),
            i == n || is_space(s@[i as int]),
        decreases n - i,
    {
        if i == n {
            break;
        }
        let c = s.get_char(i);
        if c == ' ' || c == '\t' || c == '\r' || c == '\n' {
            break;
        }
        i = i + 1;
    }
    proof {
        lemma_skip_token_scan(s@, from as int, i as int);
    }
    i
}

/// Extracts the request target of `line` and applies the `/` rule, or
/// returns `None` when `line` holds no second token.
fn resolve_request_line(line: &str) -> (r: Option<String>)
    ensures
        match r {
            Some(p) => has_request_target(line@) && p@ == request_path(line@),
            None => !has_request_target(line@),
        },
{
    let n = line.unicode_len();
    let a = skip_spaces_exec(line, 0, n);
    let b = skip_token_exec(line, a, n);
    let c = skip_spaces_exec(line, b, n);
    if c == n {
        return None;
    }
    let d = skip_token_exec(line, c, n);
    let target = line.substring_char(c, d);
    proof {
        assert(target@ == request_target(line@));
    }
    if str_eq(target, "/") {
        Some("index.html".to_owned())
    } else {
        Some(target.to_owned())
    }
}

/// The path a request asks for: the second token of its first line, with
/// `/` served as `index.html`. Returns `None` when the request is empty or
/// its first line holds no second token; the connection is then abandoned
/// without a response.
pub fn try_get_path_from_request(http_request: &Vec<String>) -> (r: Option<String>)
    ensures
        match r {
            Some(p) => http_request@.len() > 0 && has_request_target(http_request@[0]@) && p@
                == request_path(http_request@[0]@),
            None => http_request@.len() == 0 || !has_request_target(http_request@[0]@),
        },
{
    if http_request.len() == 0 {
        return None;
    }
    resolve_request_line(http_request[0].as_str())
}

/// The path a request asks for, for a request known to carry a target.
pub fn get_path_from_request(http_request: Vec<String>) -> (r: String)
    requires
        http_request@.len() > 0,
        has_request_target(http_request@[0]@),
    ensures
        r@ == request_path(http_request@[0]@),
{
    let r = try_get_path_from_request(&http_request);
    match r {
        Some(p) => p,
        None => vstd::pervasive::unreached(),
    }
}

/// The filesystem path the requested path is loaded from: the path joined
/// onto the document root `public` with a single `/`.
pub fn static_file_path(path: &String) -> (r: String)
    ensures
        r@ == file_path_for(path@),
{
    let mut r = "public/".to_owned();
    r.append(path.as_str());
    r
}

} // verus!
