//! Content-type resolution from a path's file extension.
//!
//! The extension of a path is everything after the last `.`; a path with no
//! `.` counts as its own extension, which never matches the table and so
//! falls through to `text/plain`.

use vstd::prelude::*;
use vstd::string::*;
use crate::text::str_eq;

verus! {

/// Index at which the extension of `s` starts: one past the last `.`, or 0
/// when `s` holds no `.` at all.
pub open spec fn extension_start(s: Seq<char>) -> int
    decreases s.len(),
{
    if s.len() == 0 {
        0
    } else if s[s.len() - 1] == '.' {
        s.len() as int
    } else {
        extension_start(s.drop_last())
    }
}

/// The extension of `s`: the characters after the last `.`, or all of `s`
/// when it holds no `.`.
pub open spec fn extension_of(s: Seq<char>) -> Seq<char> {
    s.subrange(extension_start(s), s.len() as int)
}

/// When `k` is the last `.` of `s`, the extension starts just after it.
pub proof fn lemma_extension_start_after_dot(s: Seq<char>, k: int)
    requires
        0 <= k < s.len(),
        s[k] == '.',
        forall|j: int| k < j < s.len() ==> s[j] != '.',
    ensures
        extension_start(s) == k + 1,
    decreases s.len(),
{
    if k == s.len() - 1 {
    } else {
        lemma_extension_start_after_dot(s.drop_last(), k);
    }
}

/// A path without any `.` is its own extension.
pub proof fn lemma_extension_start_no_dot(s: Seq<char>)
    requires
        forall|j: int| 0 <= j < s.len() ==> s[j] != '.',
    ensures
        extension_start(s) == 0,
    decreases s.len(),
{
    if s.len() == 0 {
    } else {
        lemma_extension_start_no_dot(s.drop_last());
    }
}

/// The fixed extension-to-content-type table; everything unknown is served
/// as `text/plain`.
pub open spec fn mime_of_extension(ext: Seq<char>) -> Seq<char> {
    if ext == "html"@ {
        "text/html"@
    } else if ext == "css"@ {
        "text/css"@
    } else if ext == "js"@ {
        "text/javascript"@
    } else if ext == "png"@ {
        "image/png"@
    } else if ext == "jpg"@ {
        "image/jpeg"@
    } else if ext == "jpeg"@ {
        "image/jpeg"@
    } else if ext == "gif"@ {
        "image/gif"@
    } else {
        "text/plain"@
    }
}

/// The content type a file at `path` is served with.
pub open spec fn mimetype_of(path: Seq<char>) -> Seq<char> {
    mime_of_extension(extension_of(path))
}

/// Every supported extension resolves to its fixed table entry, and any
/// other extension (or a path without one) resolves to `text/plain`.
pub proof fn lemma_mimetype_table(path: Seq<char>)
    ensures
        extension_of(path) == "html"@ ==> mimetype_of(path) == "text/html"@,
        extension_of(path) == "css"@ ==> mimetype_of(path) == "text/css"@,
        extension_of(path) == "js"@ ==> mimetype_of(path) == "text/javascript"@,
        extension_of(path) == "png"@ ==> mimetype_of(path) == "image/png"@,
        extension_of(path) == "jpg"@ ==> mimetype_of(path) == "image/jpeg"@,
        extension_of(path) == "jpeg"@ ==> mimetype_of(path) == "image/jpeg"@,
        extension_of(path) == "gif"@ ==> mimetype_of(path) == "image/gif"@,
        extension_of(path) != "html"@ && extension_of(path) != "css"@ && extension_of(path)
            != "js"@ && extension_of(path) != "png"@ && extension_of(path) != "jpg"@
            && extension_of(path) != "jpeg"@ && extension_of(path) != "gif"@ ==> mimetype_of(path)
            == "text/plain"@,
{
    reveal_strlit("html");
    reveal_strlit("css");
    reveal_strlit("js");
    reveal_strlit("png");
    reveal_strlit("jpg");
    reveal_strlit("jpeg");
    reveal_strlit("gif");
    assert("html"@.len() == 4 && "html"@[0] == 'h');
    assert("jpeg"@.len() == 4 && "jpeg"@[0] == 'j');
    assert("css"@.len() == 3 && "css"@[0] == 'c');
    assert("png"@.len() == 3 && "png"@[0] == 'p');
    assert("jpg"@.len() == 3 && "jpg"@[0] == 'j');
    assert("gif"@.len() == 3 && "gif"@[0] == 'g');
    assert("js"@.len() == 2);
}

/// Resolves the content type for `path` from its extension.
pub fn get_mimetype_from_path(path: &String) -> (r: &'static str)
    ensures
        r@ == mimetype_of(path@),
{
    let s = path.as_str();
    let n = s.unicode_len();
    let mut i: usize = n;
    let mut start: usize = 0;
    let mut found = false;
    while i > 0 && !found
        invariant
            n == s@.len(),
            i <= n,
            forall|j: int| i <= j < n ==> s@[j] != '.',
            found ==> 1 <= i && s@[i - 1] == '.' && start == i,
            !found ==> start == 0,
        decreases i + (if found { 0int } else { 1int }),
    {
        if s.get_char(i - 1) == '.' {
            start = i;
            found = true;
        } else {
            i = i - 1;
        }
    }
    proof {
        if found {
            lemma_extension_start_after_dot(s@, start - 1);
        } else {
            lemma_extension_start_no_dot(s@);
        }
        assert(extension_start(s@) == start as int);
    }
    let ext = s.substring_char(start, n);
    proof {
        assert(ext@ == extension_of(path@));
    }
    if str_eq(ext, "html") {
        "text/html"
    } else if str_eq(ext, "css") {
        "text/css"
    } else if str_eq(ext, "js") {
        "text/javascript"
    } else if str_eq(ext, "png") {
        "image/png"
    } else if str_eq(ext, "jpg") {
        "image/jpeg"
    } else if str_eq(ext, "jpeg") {
        "image/jpeg"
    } else if str_eq(ext, "gif") {
        "image/gif"
    } else {
        "text/plain"
    }
}

} // verus!
