//! Which project a request is for, read off the host it was sent to, and
//! what kind of file a path names.

use vstd::prelude::*;
use vstd::string::*;
use crate::text::{chars_of, same_text};

verus! {

/// The text up to its first `stop`, or all of it where it holds none.
pub open spec fn spec_before(text: Seq<char>, stop: char) -> Seq<char>
    decreases text.len(),
{
    if text.len() == 0 || text[0] == stop {
        Seq::empty()
    } else {
        seq![text[0]] + spec_before(text.drop_first(), stop)
    }
}

/// The text behind its last `stop`, or all of it where it holds none.
pub open spec fn spec_behind(text: Seq<char>, stop: char) -> Seq<char>
    decreases text.len(),
{
    if text.len() == 0 || text.last() == stop {
        Seq::empty()
    } else {
        spec_behind(text.drop_last(), stop).push(text.last())
    }
}

/// The text with every occurrence of `pattern` taken out, the occurrences
/// being found from left to right, none overlapping another.
pub open spec fn spec_without(text: Seq<char>, pattern: Seq<char>) -> Seq<char>
    decreases text.len(),
{
    if pattern.len() == 0 || text.len() < pattern.len() {
        text
    } else if pattern.is_prefix_of(text) {
        spec_without(text.skip(pattern.len() as int), pattern)
    } else {
        seq![text[0]] + spec_without(text.drop_first(), pattern)
    }
}

/// The name a host stands for: its first label, without a scheme in front.
pub open spec fn spec_label(host: Seq<char>) -> Seq<char> {
    spec_without(spec_without(spec_before(host, '.'), "https://"@), "http://"@)
}

/// The project a request to `host` is for: the name the host stands for,
/// unless that is the host itself, the name of the site, `www`, or nothing.
pub open spec fn spec_project_of_host(
    host: Seq<char>,
    site_host: Seq<char>,
    site_host_no_tld: Seq<char>,
) -> Option<Seq<char>> {
    let label = spec_label(host);
    if label == host || label == site_host || label == site_host_no_tld || label == "www"@
        || label.len() == 0 {
        None
    } else {
        Some(label)
    }
}

/// The first `n` characters of a text stop before `stop` where none of them
/// is `stop` and the next one is, or the text ends.
proof fn lemma_before(text: Seq<char>, stop: char, n: int)
    requires
        0 <= n <= text.len(),
        forall|j: int| 0 <= j < n ==> text[j] != stop,
        n == text.len() || text[n] == stop,
    ensures
        spec_before(text, stop) == text.take(n),
    decreases n,
{
    if n == 0 {
        assert(text.take(0) =~= Seq::empty());
    } else {
        let rest = text.drop_first();
        assert forall|j: int| 0 <= j < n - 1 implies rest[j] != stop by {
            assert(rest[j] == text[j + 1]);
        }
        lemma_before(rest, stop, n - 1);
        assert(seq![text[0]] + rest.take(n - 1) =~= text.take(n));
    }
}

proof fn lemma_behind(text: Seq<char>, stop: char, n: int)
    requires
        0 <= n <= text.len(),
        forall|j: int| n <= j < text.len() ==> text[j] != stop,
        n == 0 || text[n - 1] == stop,
    ensures
        spec_behind(text, stop) == text.skip(n),
    decreases text.len() - n,
{
    if n == text.len() {
        assert(text.skip(n) =~= Seq::empty());
    } else {
        let front = text.drop_last();
        assert forall|j: int| n <= j < front.len() implies front[j] != stop by {
            assert(front[j] == text[j]);
        }
        lemma_behind(front, stop, n);
        assert(front.skip(n).push(text.last()) =~= text.skip(n));
    }
}

/// The text up to its first `stop`.
pub fn before(text: &str, stop: char) -> (r: String)
    ensures
        r@ == spec_before(text@, stop),
{
    let cs = chars_of(text);
    let n: usize = cs.len();
    let mut i: usize = 0;
    while i < n && cs[i] != stop
        invariant
            n == cs@.len(),
            i <= n,
            forall|j: int| 0 <= j < i ==> cs@[j] != stop,
        decreases n - i,
    {
        i += 1;
    }
    proof {
        lemma_before(text@, stop, i as int);
    }
    String::from_str(text.substring_char(0, i))
}

/// The text behind its last `stop`.
pub fn behind(text: &str, stop: char) -> (r: String)
    ensures
        r@ == spec_behind(text@, stop),
{
    let cs = chars_of(text);
    let n: usize = cs.len();
    let mut i: usize = n;
    while i > 0 && cs[i - 1] != stop
        invariant
            n == cs@.len(),
            i <= n,
            forall|j: int| i <= j < n ==> cs@[j] != stop,
        decreases i,
    {
        i -= 1;
    }
    proof {
        lemma_behind(text@, stop, i as int);
        assert(text@.subrange(i as int, n as int) =~= text@.skip(i as int));
    }
    String::from_str(text.substring_char(i, n))
}

/// The text with every occurrence of `pattern` taken out.
pub fn without(text: &str, pattern: &str) -> (r: String)
    ensures
        r@ == spec_without(text@, pattern@),
{
    let t = chars_of(text);
    let p = chars_of(pattern);
    let n: usize = t.len();
    let m: usize = p.len();
    if m == 0 || n < m {
        return String::from_str(text);
    }
    let mut out = String::new();
    let mut i: usize = 0;
    assert(text@.skip(0) =~= text@);
    while i < n
        invariant
            n == t@.len(),
            m == p@.len(),
            t@ == text@,
            p@ == pattern@,
            0 < m,
            i <= n,
            out@ + spec_without(text@.skip(i as int), pattern@) == spec_without(text@, pattern@),
        decreases n - i,
    {
        let ghost rest = text@.skip(i as int);
        if n - i >= m && crate::text::matches_at(&t, &p, i) {
            proof {
                assert(rest.subrange(0, m as int) =~= text@.subrange(i as int, i + m));
                assert(pattern@.is_prefix_of(rest));
                assert(rest.skip(m as int) =~= text@.skip(i + m));
            }
            i += m;
        } else {
            proof {
                if n - i >= m {
                    assert(rest.subrange(0, m as int) =~= text@.subrange(i as int, i + m));
                    assert(!pattern@.is_prefix_of(rest));
                    assert(rest.drop_first() =~= text@.skip(i + 1));
                    assert(out@ + (seq![rest[0]] + spec_without(rest.drop_first(), pattern@))
                        =~= (out@ + seq![rest[0]]) + spec_without(rest.drop_first(), pattern@));
                }
            }
            if n - i >= m {
                out.append(text.substring_char(i, i + 1));
                assert(text@.subrange(i as int, i + 1) =~= seq![rest[0]]);
                i += 1;
            } else {
                out.append(text.substring_char(i, n));
                proof {
                    assert(text@.subrange(i as int, n as int) =~= rest);
                    assert(text@.skip(n as int) =~= Seq::<char>::empty());
                    assert(out@ + Seq::<char>::empty() =~= out@);
                }
                i = n;
            }
        }
    }
    proof {
        assert(text@.skip(n as int) =~= Seq::<char>::empty());
        assert(out@ + Seq::<char>::empty() =~= out@);
    }
    out
}

/// The project a request to `host` is for.
pub fn project_of_host(host: &str, site_host: &str, site_host_no_tld: &str) -> (r: Option<String>)
    ensures
        crate::model::text_option_view(r) == spec_project_of_host(
            host@,
            site_host@,
            site_host_no_tld@,
        ),
{
    let first = before(host, '.');
    let bare = without(first.as_str(), "https://");
    let label = without(bare.as_str(), "http://");
    if same_text(label.as_str(), host) || same_text(label.as_str(), site_host) || same_text(
        label.as_str(),
        site_host_no_tld,
    ) || same_text(label.as_str(), "www") || label.as_str().unicode_len() == 0 {
        None
    } else {
        Some(label)
    }
}

/// The extension of a path: what stands behind its last dot, and the whole
/// path where it has none.
pub fn extension_of(path: &str) -> (r: String)
    ensures
        r@ == spec_behind(path@, '.'),
{
    behind(path, '.')
}

/// The media type that `actix_files` holds for a file extension.
pub uninterp spec fn mime_of_extension(extension: Seq<char>) -> Seq<char>;

/// Calls `actix_files::file_extension_to_mime` and writes the media type out
/// as text. The contract claims that the type is a function of the
/// extension, and that the empty extension has the type of plain bytes.
#[verifier::external_body]
fn extension_to_mime(extension: &str) -> (r: String)
    ensures
        r@ == mime_of_extension(extension@),
        extension@.len() == 0 ==> r@ == "application/octet-stream"@,
{
    actix_files::file_extension_to_mime(extension).to_string()
}

/// The media type under which the file at a path is sent: that of its
/// extension.
pub fn content_type_of(path: &str) -> (r: String)
    ensures
        r@ == mime_of_extension(spec_behind(path@, '.')),
        spec_behind(path@, '.').len() == 0 ==> r@ == "application/octet-stream"@,
{
    let extension = extension_of(path);
    extension_to_mime(extension.as_str())
}

} // verus!
