//! How the path of a file is brought into the form under which it is kept.

use vstd::prelude::*;
use vstd::string::*;
use crate::text::{contains, same_text, spec_contains, starts_with};

verus! {

/// The path with a `/` in front, unless it has one.
pub open spec fn spec_rooted(path: Seq<char>) -> Seq<char> {
    if "/"@.is_prefix_of(path) {
        path
    } else {
        "/"@ + path
    }
}

/// A path that names a secret of the project: it holds the segment `.secrets`.
pub open spec fn spec_is_protected(path: Seq<char>) -> bool {
    spec_contains(path, ".secrets"@)
}

/// The path under which a request for `path` is answered: the root and the
/// empty path are the index page; every other path is rooted; and where
/// `clean` is set, a path without a dot is the page of that name.
pub open spec fn spec_served_path(path: Seq<char>, clean: bool) -> Seq<char> {
    let rooted = if path.len() == 0 || path == "/"@ {
        "/index.html"@
    } else {
        spec_rooted(path)
    };
    if clean && !spec_contains(rooted, "."@) {
        rooted + ".html"@
    } else {
        rooted
    }
}

/// Every rooted path begins with `/`.
pub proof fn lemma_rooted_begins_with_slash(path: Seq<char>)
    ensures
        "/"@.is_prefix_of(spec_rooted(path)),
{
    if !"/"@.is_prefix_of(path) {
        assert(("/"@ + path).subrange(0, "/"@.len() as int) =~= "/"@);
    }
}

/// Every served path begins with `/`.
pub proof fn lemma_served_path_begins_with_slash(path: Seq<char>, clean: bool)
    ensures
        "/"@.is_prefix_of(spec_served_path(path, clean)),
{
    reveal_strlit("/");
    reveal_strlit("/index.html");
    let rooted = if path.len() == 0 || path == "/"@ {
        "/index.html"@
    } else {
        spec_rooted(path)
    };
    lemma_rooted_begins_with_slash(path);
    assert("/"@.is_prefix_of(rooted)) by {
        if path.len() == 0 || path == "/"@ {
            assert("/index.html"@.subrange(0, 1) =~= "/"@);
        }
    }
    assert((rooted + ".html"@).subrange(0, 1) =~= rooted.subrange(0, 1));
}

/// The path with a `/` in front, unless it has one.
pub fn rooted(path: &str) -> (r: String)
    ensures
        r@ == spec_rooted(path@),
        "/"@.is_prefix_of(r@),
{
    proof {
        lemma_rooted_begins_with_slash(path@);
    }
    if starts_with(path, "/") {
        String::from_str(path)
    } else {
        String::from_str("/").concat(path)
    }
}

/// Whether the path names a secret of the project.
pub fn is_protected(path: &str) -> (r: bool)
    ensures
        r == spec_is_protected(path@),
{
    contains(path, ".secrets")
}

/// The path under which a request for `path` is answered.
pub fn served_path(path: &str, clean: bool) -> (r: String)
    ensures
        r@ == spec_served_path(path@, clean),
        "/"@.is_prefix_of(r@),
{
    proof {
        lemma_served_path_begins_with_slash(path@, clean);
    }
    let base = if path.is_empty() || same_text(path, "/") {
        String::from_str("/index.html")
    } else {
        rooted(path)
    };
    if clean && !contains(base.as_str(), ".") {
        base.concat(".html")
    } else {
        base
    }
}

} // verus!
